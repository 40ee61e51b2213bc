//! Finding the URIs of the songs that a sticker condition selects.
//!
//! The server is asked for the names of the objects whose stickers meet the condition, page by page.
//! Of songs the names are the URIs; playlists and tag values are resolved to the songs behind them.
use vstd::prelude::*;

use super::{BATCH_SIZE, FETCH_LIMIT};
use crate::common::dynamic_playlist::StickerObjectType;
use crate::common::str_views;

verus! {

/// What the names stand for, without the name of the tag.
#[derive(Debug, Clone, Copy, PartialEq, Eq, Structural)]
pub enum ObjectKind {
    Song,
    Playlist,
    Tag,
}

/// What is to be asked next.
#[derive(Debug, Clone, Copy, PartialEq, Eq, Structural)]
pub enum SearchPhase {
    /// A page of names.
    Names,
    /// Songs of the first name that is left.
    Songs,
    /// Nothing.
    Done,
}

/// Where a search stands.
pub struct StickerSearch {
    kind: ObjectKind,
    /// Whether the server can give playlists in pages.
    paged: bool,
    phase: SearchPhase,
    cursor: u32,
    /// Names that are still to be resolved, the next one last.
    names: Vec<String>,
    inner: u32,
    found: Vec<String>,
}

/// What a `StickerSearch` stands for; here the next name comes first.
#[verifier::ext_equal]
pub struct SearchView {
    pub kind: ObjectKind,
    pub paged: bool,
    pub phase: SearchPhase,
    pub cursor: int,
    pub names: Seq<Seq<char>>,
    pub inner: int,
    pub found: Seq<Seq<char>>,
}

impl View for StickerSearch {
    type V = SearchView;

    closed spec fn view(&self) -> SearchView {
        SearchView {
            kind: self.kind,
            paged: self.paged,
            phase: self.phase,
            cursor: self.cursor as int,
            names: str_views(self.names@).reverse(),
            inner: self.inner as int,
            found: str_views(self.found@),
        }
    }
}

/// What a search asks of the server.
#[derive(Debug)]
pub enum SearchRequest<'a> {
    /// The names of objects whose stickers meet the condition, from one place up to another.
    Names(u32, u32),
    /// All songs of a playlist.
    Playlist(&'a str),
    /// The songs of a playlist from one place up to another.
    PlaylistRange(&'a str, u32, u32),
    /// The songs with a value of the tag, from one place up to another.
    TagValue(&'a str, u32, u32),
    /// Nothing more.
    Done,
}

/// What a `SearchRequest` says.
pub enum SearchRequestView {
    Names(int, int),
    Playlist(Seq<char>),
    PlaylistRange(Seq<char>, int, int),
    TagValue(Seq<char>, int, int),
    Done,
}

impl<'a> View for SearchRequest<'a> {
    type V = SearchRequestView;

    open spec fn view(&self) -> SearchRequestView {
        match *self {
            SearchRequest::Names(a, b) => SearchRequestView::Names(a as int, b as int),
            SearchRequest::Playlist(n) => SearchRequestView::Playlist(n@),
            SearchRequest::PlaylistRange(n, a, b) => SearchRequestView::PlaylistRange(
                n@,
                a as int,
                b as int,
            ),
            SearchRequest::TagValue(n, a, b) => SearchRequestView::TagValue(
                n@,
                a as int,
                b as int,
            ),
            SearchRequest::Done => SearchRequestView::Done,
        }
    }
}

/// A search that has asked nothing yet.
pub open spec fn new_search(kind: ObjectKind, paged: bool) -> SearchView {
    SearchView {
        kind,
        paged,
        phase: SearchPhase::Names,
        cursor: 0,
        names: Seq::empty(),
        inner: 0,
        found: Seq::empty(),
    }
}

/// What a search asks next.
pub open spec fn search_request(s: SearchView) -> SearchRequestView {
    match s.phase {
        SearchPhase::Names => SearchRequestView::Names(s.cursor, s.cursor + BATCH_SIZE),
        SearchPhase::Songs => match s.kind {
            ObjectKind::Playlist => if s.paged {
                SearchRequestView::PlaylistRange(s.names[0], s.inner, s.inner + BATCH_SIZE)
            } else {
                SearchRequestView::Playlist(s.names[0])
            },
            _ => SearchRequestView::TagValue(s.names[0], s.inner, s.inner + BATCH_SIZE),
        },
        SearchPhase::Done => SearchRequestView::Done,
    }
}

/// The search with its place among the names moved on by a page, or at its end where that is too far.
pub open spec fn moved_on(s: SearchView) -> SearchView {
    SearchView {
        cursor: s.cursor + BATCH_SIZE,
        phase: if s.cursor + BATCH_SIZE < FETCH_LIMIT {
            SearchPhase::Names
        } else {
            SearchPhase::Done
        },
        ..s
    }
}

/// The search with the first name resolved.
pub open spec fn name_resolved(s: SearchView) -> SearchView {
    let rest = SearchView { names: s.names.drop_first(), inner: 0, ..s };
    if rest.names.len() == 0 {
        moved_on(rest)
    } else {
        rest
    }
}

/// Whether a page of `n` songs is the last that is asked for of one name, given the place behind it.
pub open spec fn is_last_page(s: SearchView, n: int) -> bool {
    match s.kind {
        ObjectKind::Playlist => !s.paged || n < BATCH_SIZE || s.inner + n >= FETCH_LIMIT,
        _ => n == 0 || s.inner + BATCH_SIZE >= FETCH_LIMIT,
    }
}

/// Where a search stands after the reply to what it asked.
pub open spec fn after_reply(s: SearchView, reply: Seq<Seq<char>>) -> SearchView {
    match s.phase {
        SearchPhase::Names => if reply.len() == 0 {
            SearchView { phase: SearchPhase::Done, ..s }
        } else {
            match s.kind {
                ObjectKind::Song => moved_on(SearchView { found: s.found + reply, ..s }),
                _ => SearchView { phase: SearchPhase::Songs, names: reply, inner: 0, ..s },
            }
        },
        SearchPhase::Songs => {
            let more = SearchView { found: s.found + reply, ..s };
            if is_last_page(s, reply.len() as int) {
                name_resolved(more)
            } else {
                match s.kind {
                    ObjectKind::Playlist => SearchView { inner: s.inner + reply.len(), ..more },
                    _ => SearchView { inner: s.inner + BATCH_SIZE, ..more },
                }
            }
        },
        SearchPhase::Done => s,
    }
}

/// Whether a search is in one of the states that it can be in.
pub open spec fn search_ok(s: SearchView) -> bool {
    &&& 0 <= s.cursor < FETCH_LIMIT + BATCH_SIZE
    &&& 0 <= s.inner < FETCH_LIMIT
    &&& s.phase == SearchPhase::Names ==> s.cursor < FETCH_LIMIT
    &&& s.phase == SearchPhase::Songs ==> s.names.len() > 0 && s.kind != ObjectKind::Song
        && s.cursor < FETCH_LIMIT
    &&& s.kind == ObjectKind::Song ==> s.phase != SearchPhase::Songs
}

/// A search stays in the states that it can be in.
pub proof fn law_search_stays_ok(s: SearchView, reply: Seq<Seq<char>>)
    requires
        search_ok(s),
    ensures
        search_ok(after_reply(s, reply)),
{
}

/// What has been found stays found, and everything that is found was part of a reply.
pub proof fn law_search_only_adds(s: SearchView, reply: Seq<Seq<char>>)
    ensures
        after_reply(s, reply).found == s.found || after_reply(s, reply).found == s.found + reply,
        s.kind == ObjectKind::Song && s.phase == SearchPhase::Names ==> after_reply(
            s,
            reply,
        ).found == s.found + reply,
        s.phase == SearchPhase::Songs ==> after_reply(s, reply).found == s.found + reply,
{
    assert(s.found + Seq::<Seq<char>>::empty() =~= s.found);
    if reply.len() == 0 {
        assert(reply =~= Seq::empty());
    }
}

/// The pages of names that a search asks for are adjacent: the next one starts where the last one ended,
/// until a page is empty.
pub proof fn law_search_asks_for_adjacent_pages(s: SearchView, reply: Seq<Seq<char>>)
    requires
        search_ok(s),
        s.phase == SearchPhase::Names,
        reply.len() > 0,
    ensures
        s.kind == ObjectKind::Song && s.cursor + BATCH_SIZE < FETCH_LIMIT ==> search_request(
            after_reply(s, reply),
        ) == SearchRequestView::Names(s.cursor + BATCH_SIZE, s.cursor + 2 * BATCH_SIZE),
        s.kind != ObjectKind::Song ==> after_reply(s, reply).cursor == s.cursor && after_reply(
            s,
            reply,
        ).names == reply,
{
}

/// The names that are still to be resolved stand for the rest of one page; when they are used up the
/// next page is one page further.
pub proof fn law_search_resolves_every_name(s: SearchView, reply: Seq<Seq<char>>)
    requires
        search_ok(s),
        s.phase == SearchPhase::Songs,
    ensures
        is_last_page(s, reply.len() as int) && s.names.len() > 1 ==> after_reply(s, reply).phase
            == SearchPhase::Songs && after_reply(s, reply).names == s.names.drop_first(),
        is_last_page(s, reply.len() as int) && s.names.len() == 1 ==> after_reply(s, reply).cursor
            == s.cursor + BATCH_SIZE,
        !is_last_page(s, reply.len() as int) ==> after_reply(s, reply).names == s.names,
{
}

proof fn lemma_reversed_last(names: Seq<String>)
    requires
        names.len() > 0,
    ensures
        str_views(names).reverse()[0] == names.last()@,
        str_views(names.drop_last()).reverse() == str_views(names).reverse().drop_first(),
{
    assert(str_views(names.drop_last()).reverse() =~= str_views(names).reverse().drop_first());
}

impl StickerSearch {
    #[verifier::type_invariant]
    spec fn is_ok(&self) -> bool {
        search_ok(self@)
    }

    pub fn new(object: &StickerObjectType, paged: bool) -> (r: Self)
        ensures
            r@ == new_search(kind_of(*object), paged),
    {
        let kind: ObjectKind = match object {
            StickerObjectType::Song => ObjectKind::Song,
            StickerObjectType::Playlist => ObjectKind::Playlist,
            StickerObjectType::Tag(_) => ObjectKind::Tag,
        };
        let names: Vec<String> = Vec::new();
        let found: Vec<String> = Vec::new();
        assert(str_views(names@).reverse() =~= Seq::empty());
        assert(str_views(found@) =~= Seq::empty());
        StickerSearch { kind, paged, phase: SearchPhase::Names, cursor: 0, names, inner: 0, found }
    }

    /// What the search asks next.
    pub fn request(&self) -> (r: SearchRequest<'_>)
        ensures
            r@ == search_request(self@),
    {
        proof {
            use_type_invariant(self);
            if self.names@.len() > 0 {
                lemma_reversed_last(self.names@);
            }
        }
        match self.phase {
            SearchPhase::Names => SearchRequest::Names(
                self.cursor,
                self.cursor + BATCH_SIZE as u32,
            ),
            SearchPhase::Songs => {
                let name: &str = self.names[self.names.len() - 1].as_str();
                match self.kind {
                    ObjectKind::Playlist => if self.paged {
                        SearchRequest::PlaylistRange(
                            name,
                            self.inner,
                            self.inner + BATCH_SIZE as u32,
                        )
                    } else {
                        SearchRequest::Playlist(name)
                    },
                    _ => SearchRequest::TagValue(name, self.inner, self.inner + BATCH_SIZE as u32),
                }
            },
            SearchPhase::Done => SearchRequest::Done,
        }
    }

    pub fn is_done(&self) -> (r: bool)
        ensures
            r == (self@.phase == SearchPhase::Done),
    {
        match self.phase {
            SearchPhase::Done => true,
            _ => false,
        }
    }

    /// The URIs that have been found.
    pub fn into_found(self) -> (r: Vec<String>)
        ensures
            str_views(r@) == self@.found,
    {
        self.found
    }
}

/// What the names of an object type stand for.
pub open spec fn kind_of(object: StickerObjectType) -> ObjectKind {
    match object {
        StickerObjectType::Song => ObjectKind::Song,
        StickerObjectType::Playlist => ObjectKind::Playlist,
        StickerObjectType::Tag(_) => ObjectKind::Tag,
    }
}

proof fn lemma_views_append(a: Seq<String>, b: Seq<String>)
    ensures
        str_views(a + b) == str_views(a) + str_views(b),
{
    assert(str_views(a + b) =~= str_views(a) + str_views(b));
}

/// The strings from the last to the first.
fn turned(v: Vec<String>) -> (r: Vec<String>)
    ensures
        str_views(r@).reverse() == str_views(v@),
        r@.len() == v@.len(),
{
    let ghost all = v@;
    let mut v = v;
    let mut r: Vec<String> = Vec::new();
    while v.len() > 0
        invariant
            all.reverse() =~= r@ + v@.reverse(),
        decreases v@.len(),
    {
        if let Some(x) = v.pop() {
            r.push(x);
        }
    }
    assert(r@ =~= all.reverse());
    assert(str_views(r@).reverse() =~= str_views(all));
    r
}

/// Takes the reply to what a search asked last: names of objects, or URIs of songs.
pub fn accept_reply(search: StickerSearch, reply: Vec<String>) -> (r: StickerSearch)
    ensures
        r@ == after_reply(search@, str_views(reply@)),
{
    proof {
        use_type_invariant(&search);
        law_search_stays_ok(search@, str_views(reply@));
        lemma_views_append(search.found@, reply@);
    }
    let ghost before = search@;
    let ghost answer = str_views(reply@);
    let kind: ObjectKind = search.kind;
    let paged: bool = search.paged;
    let cursor: u32 = search.cursor;
    let inner: u32 = search.inner;
    let batch: u32 = BATCH_SIZE as u32;
    let limit: u32 = FETCH_LIMIT as u32;
    let n: usize = reply.len();
    let mut names: Vec<String> = search.names;
    let mut found: Vec<String> = search.found;
    match search.phase {
        SearchPhase::Names => {
            if n == 0 {
                return StickerSearch {
                    kind,
                    paged,
                    phase: SearchPhase::Done,
                    cursor,
                    names,
                    inner,
                    found,
                };
            }
            match kind {
                ObjectKind::Song => {
                    let mut more: Vec<String> = reply;
                    found.append(&mut more);
                    let phase: SearchPhase = if cursor + batch < limit {
                        SearchPhase::Names
                    } else {
                        SearchPhase::Done
                    };
                    StickerSearch {
                        kind,
                        paged,
                        phase,
                        cursor: cursor + batch,
                        names,
                        inner,
                        found,
                    }
                },
                _ => {
                    let names: Vec<String> = turned(reply);
                    StickerSearch {
                        kind,
                        paged,
                        phase: SearchPhase::Songs,
                        cursor,
                        names,
                        inner: 0,
                        found,
                    }
                },
            }
        },
        SearchPhase::Songs => {
            let is_playlist: bool = match kind {
                ObjectKind::Playlist => true,
                _ => false,
            };
            let last: bool = if is_playlist {
                !paged || n < BATCH_SIZE || n >= (limit - inner) as usize
            } else {
                n == 0 || inner + batch >= limit
            };
            let mut more: Vec<String> = reply;
            found.append(&mut more);
            if !last {
                let inner: u32 = if is_playlist {
                    inner + n as u32
                } else {
                    inner + batch
                };
                return StickerSearch {
                    kind,
                    paged,
                    phase: SearchPhase::Songs,
                    cursor,
                    names,
                    inner,
                    found,
                };
            }
            proof {
                lemma_reversed_last(names@);
            }
            let ghost had = names@;
            let _ = names.pop();
            assert(names@ =~= had.drop_last());
            if names.len() == 0 {
                let phase: SearchPhase = if cursor + batch < limit {
                    SearchPhase::Names
                } else {
                    SearchPhase::Done
                };
                StickerSearch { kind, paged, phase, cursor: cursor + batch, names, inner: 0, found }
            } else {
                StickerSearch {
                    kind,
                    paged,
                    phase: SearchPhase::Songs,
                    cursor,
                    names,
                    inner: 0,
                    found,
                }
            }
        },
        SearchPhase::Done => StickerSearch {
            kind,
            paged,
            phase: SearchPhase::Done,
            cursor,
            names,
            inner,
            found,
        },
    }
}

/// Names are asked for in pages of 128. Songs of a playlist are asked for in such pages where the server can
/// give them, else at once, and songs of a tag in such pages always.
pub proof fn law_what_a_search_asks(search: StickerSearch, r: SearchRequest<'_>)
    requires
        call_ensures(StickerSearch::request, (&search,), r),
    ensures
        search@.phase == SearchPhase::Done ==> r@ == SearchRequestView::Done,
        search@.phase == SearchPhase::Names ==> r@ == SearchRequestView::Names(
            search@.cursor,
            search@.cursor + 128,
        ),
        search@.phase == SearchPhase::Songs && search@.kind == ObjectKind::Playlist && search@.paged
            ==> r@ == SearchRequestView::PlaylistRange(
            search@.names[0],
            search@.inner,
            search@.inner + 128,
        ),
        search@.phase == SearchPhase::Songs && search@.kind == ObjectKind::Playlist
            && !search@.paged ==> r@ == SearchRequestView::Playlist(search@.names[0]),
        search@.phase == SearchPhase::Songs && search@.kind == ObjectKind::Tag ==> r@
            == SearchRequestView::TagValue(search@.names[0], search@.inner, search@.inner + 128),
{
}

/// A search for songs takes the names as what it finds. Any other search goes through the songs of each name
/// in turn, and takes those.
pub proof fn law_what_a_search_finds(search: StickerSearch, reply: Vec<String>, r: StickerSearch)
    requires
        call_ensures(accept_reply, (search, reply), r),
    ensures
        search@.phase == SearchPhase::Names && reply@.len() == 0 ==> r@.phase == SearchPhase::Done
            && r@.found == search@.found,
        search@.phase == SearchPhase::Names && search@.kind == ObjectKind::Song && reply@.len() > 0
            ==> r@.found == search@.found + str_views(reply@) && r@.cursor == search@.cursor + 128,
        search@.phase == SearchPhase::Names && search@.kind != ObjectKind::Song && reply@.len() > 0
            ==> r@.phase == SearchPhase::Songs && r@.names == str_views(reply@) && r@.inner == 0
            && r@.found == search@.found && r@.cursor == search@.cursor,
        search@.phase == SearchPhase::Songs ==> r@.found == search@.found + str_views(reply@),
        search@.phase == SearchPhase::Done ==> r@ == search@,
        r@.kind == search@.kind && r@.paged == search@.paged,
{
}

/// The next page of the songs of a name is asked for while there may be more: of a playlist up to a page that
/// is not full, of a tag up to an empty one. Then the next name has its turn.
pub proof fn law_when_a_name_is_done(search: StickerSearch, reply: Vec<String>, r: StickerSearch)
    requires
        call_ensures(accept_reply, (search, reply), r),
        search@.phase == SearchPhase::Songs,
        search@.names.len() > 1,
        search@.inner + reply@.len() < 10_000_000,
        search@.inner + 128 < 10_000_000,
    ensures
        search@.kind == ObjectKind::Playlist && search@.paged && reply@.len() >= 128 ==> r@.names
            == search@.names && r@.inner == search@.inner + reply@.len(),
        search@.kind == ObjectKind::Playlist && (!search@.paged || reply@.len() < 128) ==> r@.names
            == search@.names.drop_first() && r@.inner == 0,
        search@.kind == ObjectKind::Tag && reply@.len() > 0 ==> r@.names == search@.names
            && r@.inner == search@.inner + 128,
        search@.kind == ObjectKind::Tag && reply@.len() == 0 ==> r@.names
            == search@.names.drop_first() && r@.inner == 0,
        r@.phase == SearchPhase::Songs && r@.cursor == search@.cursor,
{
}

/// A search starts with the names, and goes by the kind of what it searches.
pub proof fn law_how_a_search_starts(
    object: StickerObjectType,
    paged: bool,
    r: StickerSearch,
    done: bool,
    found: Vec<String>,
)
    requires
        call_ensures(StickerSearch::new, (&object, paged), r),
        call_ensures(StickerSearch::is_done, (&r,), done),
        call_ensures(StickerSearch::into_found, (r,), found),
    ensures
        !done,
        found@.len() == 0,
        r@.phase == SearchPhase::Names && r@.cursor == 0 && r@.paged == paged,
        r@.kind == ObjectKind::Song <==> object is Song,
        r@.kind == ObjectKind::Playlist <==> object is Playlist,
        r@.kind == ObjectKind::Tag <==> object is Tag,
{
    assert(str_views(found@).len() == found@.len());
}

}
