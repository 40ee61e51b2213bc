//! Going through what the server lists: the albums and the artists of the library, the queue, and the
//! changes of the queue. Each of them says what to ask next and takes the reply.
use vstd::prelude::*;

use super::collect::{artists_of, fresh_artists, named_artists, song_artists};
use super::error::{Error, MpdError};
use super::paging::{after_page, next_page, page_limit, PageRule, Pager, PagerView};
use super::query::{tag_contains, tag_is, FilterView, Query};
use super::song_cache;
use super::song_cache::{
    after_get, after_put, find_key, has_key, is_end_of_queue, song_views, SongCache,
    SONG_CACHE_SIZE,
};
use super::wrapper::{
    album_filters, album_query, album_window, artist_tag, shows_albums, tag_part_query, tag_query,
    MpdWrapper, ALBUMARTIST, ARTIST,
};
use super::{BATCH_SIZE, FETCH_LIMIT};
use crate::common::album::AlbumInfo;
use crate::common::artist::{artist_comp_id, ArtistInfo};
use crate::common::distinct::{
    extend_distinct, fresh, insert_all, law_extend_distinct, law_fresh, DistinctStrings,
};
use crate::common::song::{blank_song, SongInfo, SongView};
use crate::common::{clone_strings, str_views};

verus! {

/// The albums of a list of titles that is grouped by artists: each with its artist, one after the other.
pub open spec fn listed_albums(groups: Seq<(String, Vec<String>)>) -> Seq<(Seq<char>, Seq<char>)>
    decreases groups.len(),
{
    if groups.len() == 0 {
        Seq::empty()
    } else {
        listed_albums(groups.drop_last()) + with_artist(
            groups.last().0@,
            str_views(groups.last().1@),
        )
    }
}

/// Titles, each with the same artist.
pub open spec fn with_artist(artist: Seq<char>, titles: Seq<Seq<char>>) -> Seq<(Seq<char>, Seq<char>)> {
    titles.map_values(|title: Seq<char>| (artist, title))
}

/// The albums that are left to be gone through.
#[derive(Debug)]
pub struct AlbumListing {
    dedup: bool,
    /// Artists and titles, the next ones last.
    left: Vec<(String, String)>,
}

/// What the pairs of strings hold.
spec fn pair_views(s: Seq<(String, String)>) -> Seq<(Seq<char>, Seq<char>)> {
    s.map_values(|p: (String, String)| (p.0@, p.1@))
}

impl AlbumListing {
    /// The artists and titles of the albums that are left, the next ones first.
    pub closed spec fn left(&self) -> Seq<(Seq<char>, Seq<char>)> {
        pair_views(self.left@).reverse()
    }

    /// Whether the copies of an album are told apart.
    pub closed spec fn tells_copies_apart(&self) -> bool {
        self.dedup
    }

    /// Starts with the first album of a list of titles that is grouped by artists.
    pub fn new(groups: Vec<(String, Vec<String>)>, dedup: bool) -> (r: Self)
        ensures
            r.left() == listed_albums(groups@),
            r.tells_copies_apart() == dedup,
    {
        let ghost all = groups@;
        let mut pairs: Vec<(String, String)> = Vec::new();
        assert(pair_views(pairs@) =~= listed_albums(all.take(0)));
        for group in it: groups
            invariant
                it.seq() == all,
                pair_views(pairs@) == listed_albums(all.take(it.index())),
        {
            let ghost before = pair_views(pairs@);
            let ghost titles = str_views(group.1@);
            let ghost listed = group.1@;
            let ghost name = group.0@;
            proof {
                assert(all.take(it.index() + 1).drop_last() =~= all.take(it.index()));
                assert(all.take(it.index() + 1).last() == group);
                assert(before + with_artist(name, titles.take(0)) =~= before);
            }
            let artist: String = group.0;
            for title in inner: group.1
                invariant
                    inner.seq() == listed,
                    titles == str_views(listed),
                    artist@ == name,
                    pair_views(pairs@) == before + with_artist(
                        name,
                        titles.take(inner.index()),
                    ),
            {
                let ghost had = pair_views(pairs@);
                proof {
                    assert(titles[inner.index()] == title@);
                    assert(titles.take(inner.index() + 1) =~= titles.take(inner.index()).push(
                        title@,
                    ));
                    assert(with_artist(name, titles.take(inner.index() + 1)) =~= with_artist(
                        name,
                        titles.take(inner.index()),
                    ).push((name, title@)));
                    assert(before + with_artist(name, titles.take(inner.index())).push(
                        (name, title@),
                    ) =~= had.push((name, title@)));
                }
                let pair: (String, String) = (artist.clone(), title);
                let ghost pairs_before = pairs@;
                pairs.push(pair);
                assert(pair_views(pairs@) =~= pair_views(pairs_before).push((name, title@)));
            }
            assert(titles.take(titles.len() as int) =~= titles);
        }
        assert(all.take(all.len() as int) =~= all);
        let left: Vec<(String, String)> = turned(pairs);
        AlbumListing { dedup, left }
    }

    /// The query for the songs of the next album, and how many of them to ask for; nothing at the end.
    pub fn request(&self) -> (r: Option<(Query, (u32, u32))>)
        ensures
            match r {
                Some((query, window)) => {
                    &&& self.left().len() > 0
                    &&& query@ == album_filters(self.left()[0].1, Some(self.left()[0].0), None)
                    &&& window.0 == 0
                    &&& window.1 == (if self.tells_copies_apart() {
                        FETCH_LIMIT as int
                    } else {
                        1
                    })
                },
                None => self.left().len() == 0,
            },
    {
        let n: usize = self.left.len();
        if n == 0 {
            None
        } else {
            assert(self.left()[0] == (self.left@[n - 1].0@, self.left@[n - 1].1@));
            let query: Query = album_query(
                self.left[n - 1].1.as_str(),
                Some(self.left[n - 1].0.as_str()),
                None,
            );
            Some((query, album_window(self.dedup)))
        }
    }

    /// Takes the songs of the album that was asked for, and says which albums to show for them.
    pub fn accept(self, songs: Vec<SongInfo>, client: &MpdWrapper) -> (r: (Self, Vec<AlbumInfo>))
        requires
            self.left().len() > 0,
        ensures
            r.0.left() == self.left().drop_first(),
            r.0.tells_copies_apart() == self.tells_copies_apart(),
            shows_albums(r.1@, songs@, self.tells_copies_apart(), *client),
    {
        let mut left: Vec<(String, String)> = self.left;
        let ghost had = left@;
        let _ = left.pop();
        assert(pair_views(left@).reverse() =~= pair_views(had).reverse().drop_first());
        let infos: Vec<AlbumInfo> = client.album_infos(songs, self.dedup);
        (AlbumListing { dedup: self.dedup, left }, infos)
    }
}

/// Pairs from the last to the first.
fn turned(v: Vec<(String, String)>) -> (r: Vec<(String, String)>)
    ensures
        pair_views(r@).reverse() == pair_views(v@),
{
    let ghost all = v@;
    let mut v = v;
    let mut r: Vec<(String, String)> = Vec::new();
    while v.len() > 0
        invariant
            all.reverse() =~= r@ + v@.reverse(),
        decreases v@.len(),
    {
        if let Some(x) = v.pop() {
            r.push(x);
        }
    }
    assert(r@ =~= all.reverse());
    assert(pair_views(r@).reverse() =~= pair_views(all));
    r
}

/// The artists that are left to be gone through.
pub struct ArtistListing {
    /// The tag that the names are values of.
    tag: &'static str,
    /// Where only some artists are wanted, their names, which may be part of what songs are tagged with.
    wanted: Option<DistinctStrings>,
    /// The names that are left, the next one last.
    left: Vec<String>,
    seen: DistinctStrings,
}

/// What an `ArtistListing` stands for; here the next name comes first.
#[verifier::ext_equal]
pub struct ArtistListingView {
    pub tag: Seq<char>,
    pub wanted: Option<Seq<Seq<char>>>,
    pub left: Seq<Seq<char>>,
    pub seen: Seq<Seq<char>>,
}

impl View for ArtistListing {
    type V = ArtistListingView;

    closed spec fn view(&self) -> ArtistListingView {
        ArtistListingView {
            tag: self.tag@,
            wanted: match self.wanted {
                Some(names) => Some(names@),
                None => None,
            },
            left: str_views(self.left@).reverse(),
            seen: self.seen@,
        }
    }
}

/// The artists of a song that are wanted: those of the song that was found, and of them those that are
/// called by one of the names where only some are wanted.
pub open spec fn wanted_artists(songs: Seq<SongInfo>, names: Option<Seq<Seq<char>>>) -> Seq<ArtistInfo> {
    match names {
        Some(names) => artists_of(songs).filter(|a: ArtistInfo| names.contains(a.name@)),
        None => artists_of(songs),
    }
}

/// The listing after a reply: the name is done with, and the artists that came with it count as seen.
pub open spec fn after_artists(v: ArtistListingView, songs: Seq<SongInfo>) -> ArtistListingView {
    ArtistListingView {
        left: v.left.drop_first(),
        seen: extend_distinct(
            v.seen,
            wanted_artists(songs, v.wanted).map_values(|a: ArtistInfo| artist_comp_id(a)),
        ),
        ..v
    }
}

/// The condition that the songs of the next name meet: they are tagged with it, or where only some
/// artists are wanted with something that it is part of.
pub open spec fn artist_filter(v: ArtistListingView) -> FilterView {
    if v.wanted is Some {
        tag_contains(v.tag, v.left[0])
    } else {
        tag_is(v.tag, v.left[0])
    }
}

/// Strings from the last to the first.
fn turned_names(v: Vec<String>) -> (r: Vec<String>)
    ensures
        str_views(r@).reverse() == str_views(v@),
{
    let ghost all = v@;
    let mut v = v;
    let mut r: Vec<String> = Vec::new();
    while v.len() > 0
        invariant
            all.reverse() =~= r@ + v@.reverse(),
        decreases v@.len(),
    {
        if let Some(x) = v.pop() {
            r.push(x);
        }
    }
    assert(r@ =~= all.reverse());
    assert(str_views(r@).reverse() =~= str_views(all));
    r
}

impl ArtistListing {
    /// Starts with the first of the names that the server lists of artists, or of artists of albums. A
    /// name may stand for several artists, and one artist may occur in several names.
    pub fn new(use_album_artist: bool, names: Vec<String>) -> (r: Self)
        ensures
            r@ == (ArtistListingView {
                tag: if use_album_artist {
                    ALBUMARTIST@
                } else {
                    ARTIST@
                },
                wanted: None,
                left: str_views(names@),
                seen: Seq::empty(),
            }),
    {
        ArtistListing {
            tag: artist_tag(use_album_artist),
            wanted: None,
            left: turned_names(names),
            seen: DistinctStrings::new(),
        }
    }

    /// Starts with the first of the names of artists that were played last.
    pub fn recent(names: Vec<String>) -> (r: Self)
        ensures
            r@ == (ArtistListingView {
                tag: ARTIST@,
                wanted: Some(extend_distinct(Seq::empty(), str_views(names@))),
                left: str_views(names@),
                seen: Seq::empty(),
            }),
    {
        let copies: Vec<String> = clone_strings(&names);
        ArtistListing {
            tag: ARTIST,
            wanted: Some(insert_all(DistinctStrings::new(), copies)),
            left: turned_names(names),
            seen: DistinctStrings::new(),
        }
    }

    /// The query for a song of the next name, of which one is enough; nothing at the end.
    pub fn request(&self) -> (r: Option<Query>)
        ensures
            match r {
                Some(query) => self@.left.len() > 0 && query@ == seq![artist_filter(self@)],
                None => self@.left.len() == 0,
            },
    {
        let n: usize = self.left.len();
        assert(self@.left.len() == n);
        if n == 0 {
            return None;
        }
        let name: &str = self.left[n - 1].as_str();
        assert(self@.left[0] == name@);
        match &self.wanted {
            Some(_) => Some(tag_part_query(self.tag, name)),
            None => Some(tag_query(self.tag, name)),
        }
    }

    /// Takes the song that was asked for, if there is one, and gives out its artists that were not seen
    /// before.
    pub fn accept(self, songs: Vec<SongInfo>) -> (r: (Self, Vec<ArtistInfo>))
        requires
            self@.left.len() > 0,
        ensures
            r.0@ == after_artists(self@, songs@),
            r.1@ == fresh(
                self@.seen,
                wanted_artists(songs@, self@.wanted),
                |a: ArtistInfo| artist_comp_id(a),
            ),
    {
        let ghost v = self@;
        let mut left: Vec<String> = self.left;
        let ghost had = left@;
        let _ = left.pop();
        assert(str_views(left@).reverse() =~= str_views(had).reverse().drop_first());
        let all: Vec<ArtistInfo> = song_artists(songs);
        let artists: Vec<ArtistInfo> = match &self.wanted {
            Some(names) => named_artists(all, names),
            None => all,
        };
        assert(artists@ == wanted_artists(songs@, v.wanted));
        let (seen, out): (DistinctStrings, Vec<ArtistInfo>) = fresh_artists(self.seen, artists);
        (ArtistListing { tag: self.tag, wanted: self.wanted, left, seen }, out)
    }
}

/// No artist is given out twice, however many names it occurs in: those that come with a reply were not
/// seen before, and count as seen behind it.
pub proof fn law_artists_come_once(v: ArtistListingView, songs: Seq<SongInfo>)
    requires
        v.seen.no_duplicates(),
    ensures
        ({
            let id = |a: ArtistInfo| artist_comp_id(a);
            let out = fresh(v.seen, wanted_artists(songs, v.wanted), id);
            &&& after_artists(v, songs).seen == v.seen + out.map_values(id)
            &&& after_artists(v, songs).seen.no_duplicates()
            &&& out.map_values(id).no_duplicates()
            &&& forall|i: int|
                0 <= i < out.len() ==> !v.seen.contains(artist_comp_id(#[trigger] out[i]))
        }),
{
    let id = |a: ArtistInfo| artist_comp_id(a);
    let items = wanted_artists(songs, v.wanted);
    let out = fresh(v.seen, items, id);
    let ids = out.map_values(id);
    let all = after_artists(v, songs).seen;
    let n = v.seen.len() as int;
    law_fresh(v.seen, items, id);
    law_extend_distinct(v.seen, items.map_values(id));
    assert(all == v.seen + ids);
    assert forall|i: int, j: int| 0 <= i < ids.len() && 0 <= j < ids.len() && i != j implies ids[i]
        != ids[j] by {
        assert(all[n + i] == ids[i] && all[n + j] == ids[j]);
    }
    assert forall|i: int| 0 <= i < out.len() implies !v.seen.contains(
        artist_comp_id(#[trigger] out[i]),
    ) by {
        assert(all[n + i] == artist_comp_id(out[i]));
        if v.seen.contains(artist_comp_id(out[i])) {
            let k = choose|k: int| 0 <= k < v.seen.len() && v.seen[k] == artist_comp_id(out[i]);
            assert(all[k] == all[n + i]);
        }
    }
}

/// The pages of the queue that are left to be fetched.
#[derive(Debug)]
pub struct QueuePages {
    pager: Pager,
}

/// Whether an error only says that the queue has ended.
pub open spec fn ends_queue(e: Error) -> bool {
    e matches Error::Mpd(MpdError::Server(_, detail)) && detail@ == "Bad song index"@
}

/// Where the fetching of the queue stands after a reply.
pub open spec fn after_queue_reply(p: PagerView, reply: Result<Vec<SongInfo>, Error>) -> PagerView {
    match reply {
        Ok(songs) => after_page(p, songs@.len() as int),
        Err(e) => if ends_queue(e) {
            PagerView { more: false, ..p }
        } else {
            p
        },
    }
}

impl QueuePages {
    /// Where the fetching stands.
    pub closed spec fn place(&self) -> PagerView {
        self.pager@
    }

    #[verifier::type_invariant]
    spec fn is_paged(&self) -> bool {
        self.pager@.rule == PageRule::UntilEmpty
    }

    /// Starts with the first page. The songs that were kept of the queue before are forgotten.
    pub fn new(cache: &mut SongCache) -> (r: Self)
        requires
            old(cache).wf(),
        ensures
            final(cache).wf(),
            final(cache)@ == Seq::<(u32, SongView)>::empty(),
            r.place() == (PagerView { rule: PageRule::UntilEmpty, cursor: 0, more: true }),
    {
        cache.clear();
        QueuePages { pager: Pager::new(PageRule::UntilEmpty) }
    }

    /// The page to ask for next, or nothing at the end of the queue.
    pub fn request(&self) -> (r: Option<(u32, u32)>)
        ensures
            match next_page(self.place()) {
                Some((start, end)) => r is Some && (r->0).0 == start && (r->0).1 == end,
                None => r is None,
            },
    {
        proof {
            use_type_invariant(self);
        }
        self.pager.request()
    }

    /// Takes the page that was asked for, or the error that came in its place. The songs of the page are
    /// kept and given out. At the end of the queue the server sends an empty page or a certain error;
    /// any other error is given back.
    pub fn accept(self, reply: Result<Vec<SongInfo>, Error>, cache: &mut SongCache) -> (r: (
        Self,
        Result<Vec<SongInfo>, Error>,
    ))
        requires
            next_page(self.place()) is Some,
            old(cache).wf(),
        ensures
            final(cache).wf(),
            r.0.place() == after_queue_reply(self.place(), reply),
            match reply {
                Ok(songs) => {
                    &&& r.1 matches Ok(out) && out@ == songs@.filter(
                        |s: SongInfo| s.queue_id is Some,
                    )
                    &&& final(cache)@ == song_cache::after_page(old(cache)@, song_views(songs@))
                },
                Err(e) => {
                    &&& final(cache)@ == old(cache)@
                    &&& if ends_queue(e) {
                        r.1 matches Ok(out) && out@.len() == 0
                    } else {
                        r.1 == Err::<Vec<SongInfo>, Error>(e)
                    }
                },
            },
    {
        proof {
            use_type_invariant(&self);
        }
        let mut pager: Pager = self.pager;
        match reply {
            Ok(songs) => {
                pager.accept(songs.len());
                let out: Vec<SongInfo> = cache.store_page(songs);
                (QueuePages { pager }, Ok(out))
            },
            Err(e) => {
                if is_end_of_queue(&e) {
                    pager.finish();
                    (QueuePages { pager }, Ok(Vec::new()))
                } else {
                    (QueuePages { pager }, Err(e))
                }
            },
        }
    }
}

/// The changes of the queue that are left to be fetched, and of those that were fetched the songs.
pub struct QueueChanges {
    pager: Pager,
    /// The changes of the page that are left, each with its place and its entry, the next one last.
    left: Vec<(u32, u32)>,
    songs: Vec<SongInfo>,
}

/// What a `QueueChanges` stands for; here the next change comes first.
#[verifier::ext_equal]
pub struct ChangesView {
    pub place: PagerView,
    pub left: Seq<(u32, u32)>,
    pub songs: Seq<SongView>,
}

impl View for QueueChanges {
    type V = ChangesView;

    closed spec fn view(&self) -> ChangesView {
        ChangesView {
            place: self.pager@,
            left: self.left@.reverse(),
            songs: song_views(self.songs@),
        }
    }
}

/// What is left to do for the changes of a page: the songs that are kept, what is left of the changes,
/// and the songs that were found for the others.
#[verifier::ext_equal]
pub struct LookupView {
    pub kept: Seq<(u32, SongView)>,
    pub left: Seq<(u32, u32)>,
    pub songs: Seq<SongView>,
}

/// The changes are gone through up to the first whose entry is not kept. Each that is kept is found at
/// its new place.
pub open spec fn looked_up(v: LookupView) -> LookupView
    decreases v.left.len(),
{
    if v.left.len() == 0 || !has_key(v.kept, v.left[0].1) {
        v
    } else {
        let id = v.left[0].1;
        looked_up(
            LookupView {
                kept: after_get(v.kept, id),
                left: v.left.drop_first(),
                songs: v.songs.push(
                    SongView {
                        queue_pos: Some(v.left[0].0),
                        ..v.kept[find_key(v.kept, id)].1
                    },
                ),
            },
        )
    }
}

/// What is left to do after a page of changes has come in.
pub open spec fn lookup_of_page(kept: Seq<(u32, SongView)>, changes: Seq<(u32, u32)>) -> LookupView {
    looked_up(LookupView { kept, left: changes, songs: Seq::empty() })
}

/// What is left to do after the song of the next change was fetched, which the server may have none for.
pub open spec fn lookup_of_song(
    kept: Seq<(u32, SongView)>,
    v: ChangesView,
    fetched: Option<SongInfo>,
) -> LookupView {
    let (pos, id) = v.left[0];
    looked_up(
        match fetched {
            Some(song) => LookupView {
                kept: after_put(kept, SONG_CACHE_SIZE as nat, id, song@),
                left: v.left.drop_first(),
                songs: v.songs.push(song@),
            },
            None => LookupView {
                kept,
                left: v.left.drop_first(),
                songs: v.songs.push(
                    SongView { queue_id: Some(id), queue_pos: Some(pos), ..blank_song() },
                ),
            },
        },
    )
}

/// Where the fetching of changes stands with `l` left to do. The songs of a page are given out once all
/// of them are there.
pub open spec fn with_lookup(place: PagerView, l: LookupView) -> ChangesView {
    ChangesView {
        place,
        left: l.left,
        songs: if l.left.len() == 0 {
            Seq::empty()
        } else {
            l.songs
        },
    }
}

/// Whether `out` are the songs that are given out with `l` left to do: those of the whole page, or
/// nothing yet.
pub open spec fn gives_out(out: Option<Vec<SongInfo>>, l: LookupView) -> bool {
    match out {
        Some(songs) => l.left.len() == 0 && l.songs.len() > 0 && song_views(songs@) == l.songs,
        None => l.left.len() > 0 || l.songs.len() == 0,
    }
}

/// What the fetching of changes asks for.
#[derive(Debug, Clone, Copy, PartialEq, Eq, Structural)]
pub enum ChangesRequest {
    /// The changes from one place up to another.
    Page(u32, u32),
    /// The song of an entry of the queue.
    Song(u32),
    /// Nothing more.
    Done,
}

/// What the fetching of changes asks for next.
pub open spec fn is_changes_request(r: ChangesRequest, v: ChangesView) -> bool {
    if v.left.len() > 0 {
        r == ChangesRequest::Song(v.left[0].1)
    } else {
        match next_page(v.place) {
            Some((start, end)) => r matches ChangesRequest::Page(a, b) && a == start && b == end,
            None => r == ChangesRequest::Done,
        }
    }
}

/// Pairs of numbers from the last to the first.
fn turned_places(v: Vec<(u32, u32)>) -> (r: Vec<(u32, u32)>)
    ensures
        r@.reverse() == v@,
{
    let ghost all = v@;
    let mut v = v;
    let mut r: Vec<(u32, u32)> = Vec::new();
    while v.len() > 0
        invariant
            all.reverse() =~= r@ + v@.reverse(),
        decreases v@.len(),
    {
        if let Some(x) = v.pop() {
            r.push(x);
        }
    }
    assert(r@ =~= all.reverse());
    assert(r@.reverse() =~= all);
    r
}

impl QueueChanges {
    #[verifier::type_invariant]
    spec fn is_paged(&self) -> bool {
        self.pager@.rule is UpTo && page_limit(self.pager@.rule) + BATCH_SIZE <= u32::MAX
    }

    /// Starts with the first page of the changes of a queue of a length.
    pub fn new(total: u32) -> (r: Self)
        requires
            total + BATCH_SIZE <= u32::MAX,
        ensures
            r@ == (ChangesView {
                place: PagerView { rule: PageRule::UpTo(total), cursor: 0, more: true },
                left: Seq::empty(),
                songs: Seq::empty(),
            }),
    {
        let left: Vec<(u32, u32)> = Vec::new();
        let songs: Vec<SongInfo> = Vec::new();
        assert(left@.reverse() =~= Seq::empty());
        assert(song_views(songs@) =~= Seq::empty());
        QueueChanges { pager: Pager::new(PageRule::UpTo(total)), left, songs }
    }

    /// What to ask for next.
    pub fn request(&self) -> (r: ChangesRequest)
        ensures
            is_changes_request(r, self@),
    {
        proof {
            use_type_invariant(self);
        }
        let n: usize = self.left.len();
        assert(self@.left.len() == n);
        if n > 0 {
            assert(self@.left[0] == self.left@[n - 1]);
            ChangesRequest::Song(self.left[n - 1].1)
        } else {
            match self.pager.request() {
                Some((start, end)) => ChangesRequest::Page(start, end),
                None => ChangesRequest::Done,
            }
        }
    }

    /// Takes the page of changes that was asked for, each with its place and its entry. Gives out the
    /// songs where all of them are kept.
    pub fn accept_page(self, changes: Vec<(u32, u32)>, cache: &mut SongCache) -> (r: (
        Self,
        Option<Vec<SongInfo>>,
    ))
        requires
            self@.left.len() == 0,
            next_page(self@.place) is Some,
            old(cache).wf(),
        ensures
            final(cache).wf(),
            final(cache)@ == lookup_of_page(old(cache)@, changes@).kept,
            r.0@ == with_lookup(
                after_page(self@.place, changes@.len() as int),
                lookup_of_page(old(cache)@, changes@),
            ),
            gives_out(r.1, lookup_of_page(old(cache)@, changes@)),
    {
        proof {
            use_type_invariant(&self);
        }
        let mut pager: Pager = self.pager;
        pager.accept(changes.len());
        let songs: Vec<SongInfo> = Vec::new();
        assert(song_views(songs@) =~= Seq::empty());
        go_on(pager, turned_places(changes), songs, cache)
    }

    /// Takes the song that was asked for, if the server has one. Gives out the songs of the page where
    /// it was the last that was missing.
    pub fn accept_song(self, fetched: Option<SongInfo>, cache: &mut SongCache) -> (r: (
        Self,
        Option<Vec<SongInfo>>,
    ))
        requires
            self@.left.len() > 0,
            old(cache).wf(),
        ensures
            final(cache).wf(),
            final(cache)@ == lookup_of_song(old(cache)@, self@, fetched).kept,
            r.0@ == with_lookup(self@.place, lookup_of_song(old(cache)@, self@, fetched)),
            gives_out(r.1, lookup_of_song(old(cache)@, self@, fetched)),
    {
        proof {
            use_type_invariant(&self);
        }
        let ghost v = self@;
        let mut left: Vec<(u32, u32)> = self.left;
        let mut songs: Vec<SongInfo> = self.songs;
        let ghost had = left@;
        let ghost before = songs@;
        if let Some((pos, id)) = left.pop() {
            assert(had.reverse()[0] == (pos, id));
            assert(left@.reverse() =~= had.reverse().drop_first());
            let song: SongInfo = cache.adopt(id, pos, fetched);
            songs.push(song);
            assert(song_views(songs@) =~= song_views(before).push(song@));
        }
        go_on(self.pager, left, songs, cache)
    }
}

/// Goes through changes up to the first whose song is not kept.
fn go_on(
    pager: Pager,
    changes: Vec<(u32, u32)>,
    found: Vec<SongInfo>,
    cache: &mut SongCache,
) -> (r: (QueueChanges, Option<Vec<SongInfo>>))
    requires
        pager@.rule is UpTo,
        page_limit(pager@.rule) + BATCH_SIZE <= u32::MAX,
        old(cache).wf(),
    ensures
        final(cache).wf(),
        ({
            let l = looked_up(
                LookupView {
                    kept: old(cache)@,
                    left: changes@.reverse(),
                    songs: song_views(found@),
                },
            );
            &&& final(cache)@ == l.kept
            &&& r.0@ == with_lookup(pager@, l)
            &&& gives_out(r.1, l)
        }),
{
    let ghost start = LookupView {
        kept: cache@,
        left: changes@.reverse(),
        songs: song_views(found@),
    };
    let mut left: Vec<(u32, u32)> = changes;
    let mut songs: Vec<SongInfo> = found;
    let mut missing: bool = false;
    while left.len() > 0 && !missing
        invariant
            cache.wf(),
            looked_up(start) == looked_up(
                LookupView { kept: cache@, left: left@.reverse(), songs: song_views(songs@) },
            ),
            missing ==> left@.len() > 0 && !has_key(cache@, left@.last().1),
        decreases left@.len() + (if missing { 0int } else { 1 }),
    {
        let n: usize = left.len();
        let (pos, id): (u32, u32) = left[n - 1];
        let ghost now = LookupView {
            kept: cache@,
            left: left@.reverse(),
            songs: song_views(songs@),
        };
        assert(now.left[0] == (pos, id));
        match cache.lookup(id, pos) {
            Some(song) => {
                let ghost had = left@;
                let ghost before = songs@;
                let _ = left.pop();
                songs.push(song);
                assert(left@.reverse() =~= had.reverse().drop_first());
                assert(song_views(songs@) =~= song_views(before).push(song@));
            },
            None => {
                missing = true;
            },
        }
    }
    let ghost end = LookupView { kept: cache@, left: left@.reverse(), songs: song_views(songs@) };
    assert(looked_up(start) == end) by {
        if left@.len() > 0 {
            assert(end.left[0] == left@.last());
        }
    }
    if left.len() > 0 {
        return (QueueChanges { pager, left, songs }, None);
    }
    let none: Vec<SongInfo> = Vec::new();
    assert(song_views(none@) =~= Seq::empty());
    assert(song_views(songs@).len() == songs@.len());
    if songs.len() > 0 {
        (QueueChanges { pager, left, songs: none }, Some(songs))
    } else {
        (QueueChanges { pager, left, songs: none }, None)
    }
}

/// No change is lost on the way: every one of them is left, or has become a song, in the same order.
pub proof fn law_every_change_becomes_a_song(v: LookupView)
    ensures
        looked_up(v).songs.len() + looked_up(v).left.len() == v.songs.len() + v.left.len(),
        v.songs.is_prefix_of(looked_up(v).songs),
        looked_up(v).left.len() <= v.left.len(),
        looked_up(v).left == v.left.skip(v.left.len() - looked_up(v).left.len()),
        forall|i: int|
            v.songs.len() <= i < looked_up(v).songs.len() ==> (#[trigger] looked_up(
                v,
            ).songs[i]).queue_pos == Some(v.left[i - v.songs.len()].0),
    decreases v.left.len(),
{
    if v.left.len() > 0 && has_key(v.kept, v.left[0].1) {
        let id = v.left[0].1;
        let song = SongView {
            queue_pos: Some(v.left[0].0),
            ..v.kept[find_key(v.kept, id)].1
        };
        let next = LookupView {
            kept: after_get(v.kept, id),
            left: v.left.drop_first(),
            songs: v.songs.push(song),
        };
        law_every_change_becomes_a_song(next);
        let end = looked_up(v);
        assert(end == looked_up(next));
        let begun = end.songs.subrange(0, next.songs.len() as int);
        assert(next.songs == begun);
        assert(begun[v.songs.len() as int] == song);
        assert(v.songs =~= end.songs.subrange(0, v.songs.len() as int)) by {
            assert forall|i: int| 0 <= i < v.songs.len() implies v.songs[i] == end.songs[i] by {
                assert(next.songs[i] == begun[i]);
            }
        }
        assert(end.left =~= v.left.skip(v.left.len() - end.left.len()));
        assert forall|i: int| v.songs.len() <= i < end.songs.len() implies (
        #[trigger] end.songs[i]).queue_pos == Some(v.left[i - v.songs.len()].0) by {
            if i > v.songs.len() {
                assert(next.left[i - next.songs.len()] == v.left[i - v.songs.len()]);
            }
        }
    } else {
        assert(v.left =~= v.left.skip(0));
    }
}

/// Each album is asked for by its title and artist, in the order in which they are listed: one song of it, or
/// all where its copies are told apart.
pub proof fn law_albums_are_listed_in_turn(listing: AlbumListing, r: Option<(Query, (u32, u32))>)
    requires
        call_ensures(AlbumListing::request, (&listing,), r),
    ensures
        r is None <==> listing.left().len() == 0,
        r is Some ==> {
            let (query, window) = r->0;
            let (artist, title) = listing.left()[0];
            &&& query@.len() == 2
            &&& query@[0].term == super::query::TermView::Tag("album"@) && query@[0].value == title
            &&& query@[1].term == super::query::TermView::Tag("albumartist"@) && query@[1].value
                == artist
            &&& listing.tells_copies_apart() ==> window == (0u32, 10_000_000u32)
            &&& !listing.tells_copies_apart() ==> window == (0u32, 1u32)
        },
{
}

/// Artists are asked for by the tag they were listed from, in full; recent ones by a part of the tag of the
/// song, since it may name several.
pub proof fn law_artists_are_listed_in_turn(
    by_album: bool,
    names: Vec<String>,
    a: ArtistListing,
    first: Option<Query>,
    b: ArtistListing,
    recent: Option<Query>,
)
    requires
        names@.len() > 0,
        call_ensures(ArtistListing::new, (by_album, names), a),
        call_ensures(ArtistListing::request, (&a,), first),
        call_ensures(ArtistListing::recent, (names,), b),
        call_ensures(ArtistListing::request, (&b,), recent),
    ensures
        first is Some && first->0@.len() == 1,
        first->0@[0].op == super::query::Operation::Equals && first->0@[0].value == names@[0]@,
        by_album ==> first->0@[0].term == super::query::TermView::Tag("albumartist"@),
        !by_album ==> first->0@[0].term == super::query::TermView::Tag("artist"@),
        recent is Some && recent->0@.len() == 1,
        recent->0@[0].op == super::query::Operation::Contains && recent->0@[0].value == names@[0]@,
        recent->0@[0].term == super::query::TermView::Tag("artist"@),
{
    assert(str_views(names@)[0] == names@[0]@);
    assert(str_views(names@).len() == names@.len());
}

/// The queue is fetched in pages of 128, from its start, until one is empty or the server says that there is
/// no more. Songs without an entry are left out; any other error is handed on and can be tried again.
pub proof fn law_the_queue_is_fetched(
    cache: &mut SongCache,
    start: QueuePages,
    first: Option<(u32, u32)>,
    pages: QueuePages,
    songs: Vec<SongInfo>,
    full: &mut SongCache,
    r: (QueuePages, Result<Vec<SongInfo>, Error>),
    e: Error,
    kept: &mut SongCache,
    failed: (QueuePages, Result<Vec<SongInfo>, Error>),
)
    requires
        old(cache).wf(),
        old(full).wf(),
        old(kept).wf(),
        call_ensures(QueuePages::new, (cache,), start),
        call_ensures(QueuePages::request, (&start,), first),
        pages.place().rule == PageRule::UntilEmpty,
        next_page(pages.place()) is Some,
        call_ensures(QueuePages::accept, (pages, Ok(songs), full), r),
        call_ensures(QueuePages::accept, (pages, Err(e), kept), failed),
    ensures
        final(cache)@.len() == 0,
        first == Some((0u32, 128u32)),
        songs@.len() == 0 ==> !r.0.place().more,
        songs@.len() > 0 ==> r.0.place().cursor == pages.place().cursor + 128,
        r.1 is Ok,
        forall|i: int|
            0 <= i < songs@.len() ==> ((#[trigger] songs@[i]).queue_id is Some
                ==> r.1->Ok_0@.contains(songs@[i])),
        final(kept)@ == old(kept)@,
        ({
            let ends = e is Mpd && e->Mpd_0 is Server && e->Mpd_0->Server_1@ == "Bad song index"@;
            &&& ends ==> !failed.0.place().more && failed.1 is Ok && failed.1->Ok_0@.len() == 0
            &&& !ends ==> failed.0.place() == pages.place() && failed.1 is Err && failed.1->Err_0
                == e
        }),
{
    let keep = |s: SongInfo| s.queue_id is Some;
    assert(r.1->Ok_0@ == songs@.filter(keep));
    songs@.filter_lemma(keep);
}

/// What has changed in the queue is fetched in pages of 128 up to its length, and each song that is not kept
/// is asked for by its entry before the next page.
pub proof fn law_what_changes_ask(total: u32, start: QueueChanges, first: ChangesRequest, v: QueueChanges, r: ChangesRequest)
    requires
        total + 128 <= u32::MAX,
        call_ensures(QueueChanges::new, (total,), start),
        call_ensures(QueueChanges::request, (&start,), first),
        call_ensures(QueueChanges::request, (&v,), r),
    ensures
        total == 0 ==> first == ChangesRequest::Done,
        total > 0 ==> first == ChangesRequest::Page(0, 128),
        v@.left.len() > 0 ==> r == ChangesRequest::Song(v@.left[0].1),
        v@.left.len() == 0 ==> !(r is Song),
{
}

}
