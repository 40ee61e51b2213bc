//! Requests of the library to the server, and which of its lists have to be fetched.
use vstd::prelude::*;

use super::history::{is_valid, FolderHistory};
use crate::client::adding::{
    add_multi, add_plan, in_folder, law_uris_keep_their_order, put, put_all, step_views, AddStep,
    AddStepView,
};
use crate::client::collect::{
    albums_of, artists_of, fresh_albums, fresh_artists, has_artist, has_genre, song_artists, songs_by,
    songs_of_genre,
};
use crate::client::query::{tag_contains, tag_is, FilterView, Operation, Query, Term, TermView};
use crate::client::wrapper::{
    album_filters, album_query, artist_tag, tag_part_query, tag_query, ALBUM, ALBUMARTIST,
    ALBUM_MBID, ARTIST, GENRE, TRACK,
};
use crate::client::{SaveMode, StickerSetMode};
use crate::common::album::{album_id, album_views, AlbumInfo, AlbumView};
use crate::common::artist::{artist_comp_id, ArtistInfo};
use crate::common::distinct::{extend_distinct, fresh, DistinctStrings};
use crate::common::song::SongInfo;
use crate::common::sticker::{rating_change, rating_sticker, StickerChange, StickerChangeView};
use crate::common::{opt_view, str_views};
use crate::player::status::only_if;
use crate::text::append;

verus! {

/// A request that changes what is played.
#[derive(Debug)]
pub enum QueueRequest {
    /// Empty the queue.
    Clear,
    /// Put songs into the queue.
    Put(AddStep),
    /// Append the songs that a query finds.
    FindAdd(Query),
    /// Append the songs that a query finds, in the ascending order of a tag.
    FindAddSorted(Query, &'static str),
    /// Append a playlist.
    Load(String),
    /// Append what a dynamic playlist last came to.
    AddCached(String),
    /// Play the entry at a place.
    PlayAt(u32),
}

/// What a `QueueRequest` says.
pub enum QueueRequestView {
    Clear,
    Put(AddStepView),
    FindAdd(Seq<FilterView>),
    FindAddSorted(Seq<FilterView>, Seq<char>),
    Load(Seq<char>),
    AddCached(Seq<char>),
    PlayAt(u32),
}

impl View for QueueRequest {
    type V = QueueRequestView;

    open spec fn view(&self) -> QueueRequestView {
        match *self {
            QueueRequest::Clear => QueueRequestView::Clear,
            QueueRequest::Put(step) => QueueRequestView::Put(step@),
            QueueRequest::FindAdd(query) => QueueRequestView::FindAdd(query@),
            QueueRequest::FindAddSorted(query, tag) => QueueRequestView::FindAddSorted(
                query@,
                tag@,
            ),
            QueueRequest::Load(name) => QueueRequestView::Load(name@),
            QueueRequest::AddCached(name) => QueueRequestView::AddCached(name@),
            QueueRequest::PlayAt(pos) => QueueRequestView::PlayAt(pos),
        }
    }
}

/// What each request says.
pub open spec fn request_views(s: Seq<QueueRequest>) -> Seq<QueueRequestView> {
    s.map_values(|r: QueueRequest| r@)
}

/// Requests that empty the queue where it is replaced, and play an entry of it in the end where that is
/// wanted.
pub open spec fn around(
    replace: bool,
    requests: Seq<QueueRequestView>,
    play: bool,
    from: u32,
) -> Seq<QueueRequestView> {
    only_if(replace, QueueRequestView::Clear) + requests + only_if(
        play,
        QueueRequestView::PlayAt(from),
    )
}

/// The request that a step of putting songs into the queue is.
pub open spec fn put_requests(steps: Seq<AddStepView>) -> Seq<QueueRequestView> {
    steps.map_values(|s: AddStepView| QueueRequestView::Put(s))
}

fn wrap(replace: bool, requests: Vec<QueueRequest>, play: bool, from: u32) -> (r: Vec<QueueRequest>)
    ensures
        request_views(r@) == around(replace, request_views(requests@), play, from),
{
    let mut requests = requests;
    let ghost inner = request_views(requests@);
    let mut r: Vec<QueueRequest> = Vec::new();
    if replace {
        r.push(QueueRequest::Clear);
    }
    assert(request_views(r@) =~= only_if(replace, QueueRequestView::Clear));
    let ghost head = r@;
    r.append(&mut requests);
    assert(request_views(r@) =~= only_if(replace, QueueRequestView::Clear) + inner);
    if play {
        r.push(QueueRequest::PlayAt(from));
    }
    assert(request_views(r@) =~= around(replace, inner, play, from));
    r
}

fn wrap_one(replace: bool, request: QueueRequest, play: bool, from: u32) -> (r: Vec<QueueRequest>)
    ensures
        request_views(r@) == around(replace, seq![request@], play, from),
{
    let mut requests: Vec<QueueRequest> = Vec::new();
    requests.push(request);
    assert(request_views(requests@) =~= seq![request@]);
    wrap(replace, requests, play, from)
}

fn as_requests(steps: Vec<AddStep>) -> (r: Vec<QueueRequest>)
    ensures
        request_views(r@) == put_requests(step_views(steps@)),
{
    let ghost all = steps@;
    let mut r: Vec<QueueRequest> = Vec::new();
    assert(request_views(r@) =~= put_requests(step_views(all.take(0))));
    for step in it: steps
        invariant
            it.seq() == all,
            request_views(r@) == put_requests(step_views(all.take(it.index()))),
    {
        let ghost before = r@;
        r.push(QueueRequest::Put(step));
        proof {
            assert(request_views(r@) =~= request_views(before).push(QueueRequestView::Put(step@)));
            assert(all.take(it.index() + 1) =~= all.take(it.index()).push(step));
            assert(put_requests(step_views(all.take(it.index() + 1))) =~= put_requests(
                step_views(all.take(it.index())),
            ).push(QueueRequestView::Put(step@)));
        }
    }
    assert(all.take(all.len() as int) =~= all);
    r
}

/// The requests that queue songs.
pub fn queue_songs(uris: Vec<String>, replace: bool, play: bool) -> (r: Vec<QueueRequest>)
    ensures
        request_views(r@) == around(
            replace,
            put_requests(add_plan(str_views(uris@), false, None)),
            play,
            0,
        ),
{
    wrap(replace, as_requests(add_multi(uris, false, None)), play, 0)
}

/// The requests that insert songs behind the current one, or at the start of the queue where there is
/// none.
pub fn insert_songs_next(uris: Vec<String>, current_pos: Option<u32>) -> (r: Vec<QueueRequest>)
    requires
        current_pos is Some ==> current_pos->0 < u32::MAX,
    ensures
        request_views(r@) == put_requests(
            add_plan(
                str_views(uris@),
                false,
                Some(
                    match current_pos {
                        Some(pos) => (pos + 1) as usize,
                        None => 0usize,
                    },
                ),
            ),
        ),
{
    let pos: u32 = match current_pos {
        Some(pos) => pos + 1,
        None => 0,
    };
    as_requests(add_multi(uris, false, Some(pos as usize)))
}

/// An optional string as a slice of it.
fn as_slice(s: &Option<String>) -> (r: Option<&str>)
    ensures
        match (*s, r) {
            (Some(t), Some(u)) => u@ == t@,
            (None, None) => true,
            _ => false,
        },
{
    match s {
        Some(t) => Some(t.as_str()),
        None => None,
    }
}

/// The requests that queue the songs of an album, by their tracks.
pub open spec fn album_requests(
    filters: Seq<FilterView>,
    replace: bool,
    play: bool,
    play_from: Option<u32>,
) -> Seq<QueueRequestView> {
    around(
        replace,
        seq![QueueRequestView::FindAddSorted(filters, TRACK@)],
        play,
        match play_from {
            Some(pos) => pos,
            None => 0,
        },
    )
}

/// The songs of an album, in whichever folder they lie.
pub open spec fn all_copies(album: AlbumView) -> Seq<FilterView> {
    album_filters(album.title, album.albumartist, album.mbid)
}

/// The songs of the copy of an album that lies in its folder.
pub open spec fn one_copy(album: AlbumView) -> Seq<FilterView> {
    all_copies(album).push(in_folder(album.folder_uri))
}

/// The requests that queue all songs of an album by their tracks, and play the one at a place of the queue
/// where that is wanted.
pub fn queue_album(album: &AlbumInfo, replace: bool, play: bool, play_from: Option<u32>) -> (r: Vec<
    QueueRequest,
>)
    ensures
        request_views(r@) == album_requests(all_copies(album@), replace, play, play_from),
{
    let query: Query = album_query(
        album.title.as_str(),
        as_slice(&album.albumartist),
        as_slice(&album.mbid),
    );
    wrap_one(replace, QueueRequest::FindAddSorted(query, TRACK), play, play_from.unwrap_or(0))
}

/// The requests that queue the songs of the copy of an album that lies in its folder, by their tracks, and
/// play the one at a place of the queue where that is wanted.
pub fn queue_copy(album: &AlbumInfo, replace: bool, play: bool, play_from: Option<u32>) -> (r: Vec<
    QueueRequest,
>)
    ensures
        request_views(r@) == album_requests(one_copy(album@), replace, play, play_from),
{
    let mut query: Query = album_query(
        album.title.as_str(),
        as_slice(&album.albumartist),
        as_slice(&album.mbid),
    );
    query.and(Term::Base, Operation::Equals, album.folder_uri.clone());
    wrap_one(replace, QueueRequest::FindAddSorted(query, TRACK), play, play_from.unwrap_or(0))
}

/// The songs of an album: by its MusicBrainz ID where it has one, else by its title and artist.
pub open spec fn album_song_filters(album: AlbumInfo) -> Seq<FilterView> {
    match album.mbid {
        Some(id) => seq![tag_is(ALBUM_MBID@, id@)],
        None => album_filters(album.title@, opt_view(album.albumartist), None),
    }
}

/// A query for the songs of an album.
pub fn album_songs_query(album: &AlbumInfo) -> (r: Query)
    ensures
        r@ == album_song_filters(*album),
{
    match &album.mbid {
        Some(id) => tag_query(ALBUM_MBID, id.as_str()),
        None => album_query(album.title.as_str(), as_slice(&album.albumartist), None),
    }
}

/// A query for the songs of the copy of an album that lies in a folder.
pub fn album_songs_at_query(album: &AlbumInfo, folder_uri: &str) -> (r: Query)
    ensures
        r@ == album_song_filters(*album).push(in_folder(folder_uri@)),
{
    let mut query: Query = album_songs_query(album);
    query.and(Term::Base, Operation::Equals, folder_uri.to_owned());
    query
}

/// The requests that queue the songs of an artist.
pub fn queue_artist(name: &str, use_albumartist: bool, replace: bool, play: bool) -> (r: Vec<
    QueueRequest,
>)
    ensures
        request_views(r@) == around(
            replace,
            seq![
                QueueRequestView::FindAdd(
                    seq![
                        tag_contains(
                            if use_albumartist {
                                ALBUMARTIST@
                            } else {
                                ARTIST@
                            },
                            name@,
                        ),
                    ],
                ),
            ],
            play,
            0,
        ),
{
    let query: Query = tag_part_query(artist_tag(use_albumartist), name);
    wrap_one(replace, QueueRequest::FindAdd(query), play, 0)
}

/// The requests that queue a song, or everything in a folder.
pub fn queue_uri(uri: String, replace: bool, play: bool, recursive: bool) -> (r: Vec<QueueRequest>)
    ensures
        request_views(r@) == around(
            replace,
            put_requests(add_plan(seq![uri@], recursive, None)),
            play,
            0,
        ),
{
    let mut uris: Vec<String> = Vec::new();
    uris.push(uri);
    assert(str_views(uris@) =~= seq![uri@]);
    wrap(replace, as_requests(add_multi(uris, recursive, None)), play, 0)
}

/// The requests that queue a playlist.
pub fn queue_playlist(name: String, replace: bool, play: bool) -> (r: Vec<QueueRequest>)
    ensures
        request_views(r@) == around(replace, seq![QueueRequestView::Load(name@)], play, 0),
{
    wrap_one(replace, QueueRequest::Load(name), play, 0)
}

/// The requests that queue what a dynamic playlist last came to.
pub fn queue_cached_dynamic_playlist(name: String, replace: bool, play: bool) -> (r: Vec<
    QueueRequest,
>)
    ensures
        request_views(r@) == around(replace, seq![QueueRequestView::AddCached(name@)], play, 0),
{
    wrap_one(replace, QueueRequest::AddCached(name), play, 0)
}

/// What is written about an album that gets a rating, or loses it: the kind of the object, its name, and
/// what is done to its sticker.
pub fn rate_album(album: &AlbumInfo, score: Option<i8>) -> (r: (&'static str, String, StickerChange))
    ensures
        r.0@ == ALBUM@,
        r.1@ == album.title@,
        r.2@ == rating_change(score),
{
    (ALBUM, album.title.clone(), rating_sticker(score))
}

/// An edit of a playlist.
#[derive(Debug)]
pub enum EditAction {
    /// Empty the playlist of this name.
    Clear(String),
    /// Append a URI to the playlist of this name.
    Add(String, String),
}

/// What an `EditAction` says.
pub enum EditActionView {
    Clear(Seq<char>),
    Add(Seq<char>, Seq<char>),
}

impl View for EditAction {
    type V = EditActionView;

    open spec fn view(&self) -> EditActionView {
        match *self {
            EditAction::Clear(name) => EditActionView::Clear(name@),
            EditAction::Add(name, uri) => EditActionView::Add(name@, uri@),
        }
    }
}

/// What each edit says.
pub open spec fn edit_views(s: Seq<EditAction>) -> Seq<EditActionView> {
    s.map_values(|e: EditAction| e@)
}

/// The edits that append URIs to a playlist.
pub open spec fn add_edits(name: Seq<char>, uris: Seq<Seq<char>>) -> Seq<EditActionView> {
    uris.map_values(|uri: Seq<char>| EditActionView::Add(name, uri))
}

fn push_edits(edits: &mut Vec<EditAction>, name: &str, uris: &Vec<String>)
    ensures
        edit_views(final(edits)@) == edit_views(old(edits)@) + add_edits(name@, str_views(uris@)),
{
    let ghost start = edit_views(edits@);
    let ghost all = str_views(uris@);
    let mut i: usize = 0;
    assert(start + add_edits(name@, all.take(0)) =~= start);
    while i < uris.len()
        invariant
            all == str_views(uris@),
            i <= uris@.len(),
            edit_views(edits@) == start + add_edits(name@, all.take(i as int)),
        decreases uris.len() - i,
    {
        let ghost before = edits@;
        edits.push(EditAction::Add(name.to_owned(), uris[i].clone()));
        proof {
            let edit = EditActionView::Add(name@, uris@[i as int]@);
            assert(edit_views(edits@) =~= edit_views(before).push(edit));
            assert(all.take(i + 1) =~= all.take(i as int).push(uris@[i as int]@));
            assert(start + add_edits(name@, all.take(i + 1)) =~= (start + add_edits(
                name@,
                all.take(i as int),
            )).push(edit));
        }
        i = i + 1;
    }
    assert(all.take(i as int) =~= all);
}

/// The edits that add songs to a playlist, or put them in place of what it holds.
pub fn add_songs_to_playlist(name: &str, uris: &Vec<String>, mode: SaveMode) -> (r: Vec<EditAction>)
    ensures
        edit_views(r@) == only_if(mode == SaveMode::Replace, EditActionView::Clear(name@))
            + add_edits(name@, str_views(uris@)),
{
    let mut edits: Vec<EditAction> = Vec::new();
    if mode == SaveMode::Replace {
        edits.push(EditAction::Clear(name.to_owned()));
    }
    assert(edit_views(edits@) =~= only_if(
        mode == SaveMode::Replace,
        EditActionView::Clear(name@),
    ));
    push_edits(&mut edits, name, uris);
    edits
}

/// How the moment is written at which the state of a dynamic playlist is saved.
pub const STAMP_FORMAT: &'static str = "%Y-%m-%d %H:%M:%S";

/// Whether two decimal digits stand at a place.
pub open spec fn two_digits(s: Seq<char>, i: int) -> bool {
    '0' <= s[i] <= '9' && '0' <= s[i + 1] <= '9'
}

/// Whether a text has the form of a moment: a year of four characters or more, then the month, the day,
/// the hour, the minute and the second with two digits each.
pub open spec fn is_stamp(s: Seq<char>) -> bool {
    let n = s.len() - 15;
    &&& n >= 4
    &&& s[n] == '-' && two_digits(s, n + 1)
    &&& s[n + 3] == '-' && two_digits(s, n + 4)
    &&& s[n + 6] == ' ' && two_digits(s, n + 7)
    &&& s[n + 9] == ':' && two_digits(s, n + 10)
    &&& s[n + 12] == ':' && two_digits(s, n + 13)
}

/// `chrono::Local::now` and `DateTime::format`: the time by the clock of the machine in a given form.
/// Of the time that the clock shows only the form is claimed.
#[verifier::external_body]
fn clock_stamp(format: &str) -> (r: String)
    requires
        format@ == STAMP_FORMAT@,
    ensures
        is_stamp(r@),
{
    chrono::Local::now().format(format).to_string()
}

/// The name that the state of a dynamic playlist is saved under: its name and the moment.
pub open spec fn saved_name(name: Seq<char>, stamp: Seq<char>) -> Seq<char> {
    name + seq![' '] + stamp
}

/// Saves the songs that a dynamic playlist last came to as a playlist: gives back its name, and the
/// edits that make it. Nothing where there are no songs.
pub fn save_state_at(name: &str, uris: &Vec<String>, stamp: &str) -> (r: Option<
    (String, Vec<EditAction>),
>)
    ensures
        r is Some <==> uris@.len() > 0,
        r is Some ==> (r->0).0@ == saved_name(name@, stamp@),
        r is Some ==> edit_views((r->0).1@) == add_edits(
            saved_name(name@, stamp@),
            str_views(uris@),
        ),
{
    if uris.len() == 0 {
        return None;
    }
    let mut saved: String = String::new();
    append(&mut saved, name);
    saved.push(' ');
    append(&mut saved, stamp);
    assert(saved@ =~= saved_name(name@, stamp@));
    let mut edits: Vec<EditAction> = Vec::new();
    assert(edit_views(edits@) + add_edits(saved@, str_views(uris@)) =~= add_edits(
        saved@,
        str_views(uris@),
    ));
    push_edits(&mut edits, saved.as_str(), uris);
    Some((saved, edits))
}

/// Saves the songs that a dynamic playlist last came to as a playlist that is named by the moment.
pub fn save_dynamic_playlist_state(name: &str, uris: &Vec<String>) -> (r: Option<
    (String, Vec<EditAction>),
>)
    ensures
        r is Some <==> uris@.len() > 0,
        r is Some ==> exists|stamp: Seq<char>|
            #![trigger saved_name(name@, stamp)]
            is_stamp(stamp) && (r->0).0@ == saved_name(name@, stamp) && edit_views(
                (r->0).1@,
            ) == add_edits(
                saved_name(name@, stamp),
                str_views(uris@),
            ),
{
    let stamp: String = clock_stamp(STAMP_FORMAT);
    let r: Option<(String, Vec<EditAction>)> = save_state_at(name, uris, stamp.as_str());
    assert(r is Some ==> (r->0).0@ == saved_name(name@, stamp@));
    r
}

/// The lists of the library.
#[derive(Debug, Clone, Copy, PartialEq, Eq, Structural)]
pub enum List {
    Recent,
    Playlists,
    DynPlaylists,
    Albums,
    Artists,
    Genres,
    FolderInodes,
}

/// Which lists have been fetched, and the folders that were gone through.
#[derive(Debug)]
pub struct Library {
    pub recent_initialized: bool,
    pub playlists_initialized: bool,
    pub dyn_playlists_initialized: bool,
    pub albums_initialized: bool,
    pub artists_initialized: bool,
    pub genres_initialized: bool,
    pub folder_inodes_initialized: bool,
    pub folder_history: FolderHistory,
}

/// Whether a list has been fetched.
pub open spec fn is_fetched(l: Library, list: List) -> bool {
    match list {
        List::Recent => l.recent_initialized,
        List::Playlists => l.playlists_initialized,
        List::DynPlaylists => l.dyn_playlists_initialized,
        List::Albums => l.albums_initialized,
        List::Artists => l.artists_initialized,
        List::Genres => l.genres_initialized,
        List::FolderInodes => l.folder_inodes_initialized,
    }
}

/// The library after a list counts as fetched.
pub open spec fn with_fetched(l: Library, list: List) -> Library {
    match list {
        List::Recent => Library { recent_initialized: true, ..l },
        List::Playlists => Library { playlists_initialized: true, ..l },
        List::DynPlaylists => Library { dyn_playlists_initialized: true, ..l },
        List::Albums => Library { albums_initialized: true, ..l },
        List::Artists => Library { artists_initialized: true, ..l },
        List::Genres => Library { genres_initialized: true, ..l },
        List::FolderInodes => Library { folder_inodes_initialized: true, ..l },
    }
}

impl Library {
    pub fn new() -> (r: Self)
        ensures
            forall|list: List| !is_fetched(r, list),
            is_valid(r.folder_history@),
            r.folder_history@.names == Seq::<Seq<char>>::empty(),
            r.folder_history@.current == 0,
    {
        Library {
            recent_initialized: false,
            playlists_initialized: false,
            dyn_playlists_initialized: false,
            albums_initialized: false,
            artists_initialized: false,
            genres_initialized: false,
            folder_inodes_initialized: false,
            folder_history: FolderHistory::new(),
        }
    }

    /// Whether a list is to be fetched now: it was not yet, or it is to be read again. It then counts as
    /// fetched.
    pub fn init(&mut self, list: List, refresh: bool) -> (r: bool)
        ensures
            r == (refresh || !is_fetched(*old(self), list)),
            *final(self) == with_fetched(*old(self), list),
    {
        let fetched: bool = match list {
            List::Recent => self.recent_initialized,
            List::Playlists => self.playlists_initialized,
            List::DynPlaylists => self.dyn_playlists_initialized,
            List::Albums => self.albums_initialized,
            List::Artists => self.artists_initialized,
            List::Genres => self.genres_initialized,
            List::FolderInodes => self.folder_inodes_initialized,
        };
        match list {
            List::Recent => {
                self.recent_initialized = true;
            },
            List::Playlists => {
                self.playlists_initialized = true;
            },
            List::DynPlaylists => {
                self.dyn_playlists_initialized = true;
            },
            List::Albums => {
                self.albums_initialized = true;
            },
            List::Artists => {
                self.artists_initialized = true;
            },
            List::Genres => {
                self.genres_initialized = true;
            },
            List::FolderInodes => {
                self.folder_inodes_initialized = true;
            },
        }
        refresh || !fetched
    }

    /// Forgets every list, and goes back to the root folder.
    pub fn clear(&mut self)
        ensures
            forall|list: List| !is_fetched(*final(self), list),
            is_valid(final(self).folder_history@),
            final(self).folder_history@.names == Seq::<Seq<char>>::empty(),
            final(self).folder_history@.current == 0,
    {
        self.recent_initialized = false;
        self.playlists_initialized = false;
        self.dyn_playlists_initialized = false;
        self.albums_initialized = false;
        self.artists_initialized = false;
        self.genres_initialized = false;
        self.folder_inodes_initialized = false;
        self.folder_history.clear();
    }

    pub fn folder_path(&self) -> (r: String)
        requires
            is_valid(self.folder_history@),
        ensures
            r@ == super::history::shown_path(self.folder_history@),
    {
        self.folder_history.folder_path()
    }

    /// Goes one folder up. Says whether another folder is then shown, which is yet to be fetched.
    pub fn folder_backward(&mut self) -> (r: bool)
        requires
            is_valid(old(self).folder_history@),
        ensures
            final(self).folder_history@ == super::history::back(old(self).folder_history@),
            is_valid(final(self).folder_history@),
            r == (old(self).folder_history@.current > 0),
            *final(self) == (Library {
                folder_history: final(self).folder_history,
                folder_inodes_initialized: !r && old(self).folder_inodes_initialized,
                ..*old(self)
            }),
    {
        let moved: bool = self.folder_history.folder_backward();
        if moved {
            self.folder_inodes_initialized = false;
        }
        moved
    }

    /// Goes one folder down again. Says whether another folder is then shown, which is yet to be
    /// fetched.
    pub fn folder_forward(&mut self) -> (r: bool)
        requires
            is_valid(old(self).folder_history@),
        ensures
            final(self).folder_history@ == super::history::forth(old(self).folder_history@),
            is_valid(final(self).folder_history@),
            r == (old(self).folder_history@.current < old(self).folder_history@.names.len()),
            *final(self) == (Library {
                folder_history: final(self).folder_history,
                folder_inodes_initialized: !r && old(self).folder_inodes_initialized,
                ..*old(self)
            }),
    {
        let moved: bool = self.folder_history.folder_forward();
        if moved {
            self.folder_inodes_initialized = false;
        }
        moved
    }

    /// Goes into a folder of the one that is shown, which is yet to be fetched.
    pub fn navigate_to(&mut self, name: &str)
        requires
            is_valid(old(self).folder_history@),
        ensures
            final(self).folder_history@ == super::history::into(old(self).folder_history@, name@),
            is_valid(final(self).folder_history@),
            *final(self) == (Library {
                folder_history: final(self).folder_history,
                folder_inodes_initialized: false,
                ..*old(self)
            }),
    {
        self.folder_history.navigate_to(name);
        self.folder_inodes_initialized = false;
    }
}

/// A query for songs that may be by an artist.
pub fn artist_query(name: &str) -> (r: Query)
    ensures
        r@ == seq![tag_contains(ARTIST@, name@)],
{
    tag_part_query(ARTIST, name)
}

/// A query for songs that may be of a genre.
pub fn genre_query(genre: &str) -> (r: Query)
    ensures
        r@ == seq![tag_contains(GENRE@, genre@)],
{
    tag_part_query(GENRE, genre)
}

/// Takes a batch of songs that may be by an artist: gives back those that are, and their albums that
/// were not seen before, which then count as seen.
pub fn get_artist_content(seen: DistinctStrings, batch: Vec<SongInfo>, id: &str) -> (r: (
    DistinctStrings,
    Vec<AlbumInfo>,
    Vec<SongInfo>,
))
    ensures
        r.2@ == batch@.filter(|s: SongInfo| has_artist(s, id@)),
        album_views(r.1@) == fresh(seen@, albums_of(r.2@), |a: AlbumView| album_id(a)),
        r.0@ == extend_distinct(
            seen@,
            albums_of(r.2@).map_values(|a: AlbumView| album_id(a)),
        ),
{
    let songs: Vec<SongInfo> = songs_by(batch, id);
    let (seen, albums): (DistinctStrings, Vec<AlbumInfo>) = fresh_albums(seen, &songs);
    (seen, albums, songs)
}

/// Takes a batch of songs that may be of a genre: gives back the albums of those that are which were not
/// seen before, and which then count as seen.
pub fn get_albums_by_genre(seen: DistinctStrings, batch: Vec<SongInfo>, genre: &str) -> (r: (
    DistinctStrings,
    Vec<AlbumInfo>,
))
    ensures
        ({
            let songs = batch@.filter(|s: SongInfo| has_genre(s, genre@));
            &&& album_views(r.1@) == fresh(seen@, albums_of(songs), |a: AlbumView| album_id(a))
            &&& r.0@ == extend_distinct(
                seen@,
                albums_of(songs).map_values(|a: AlbumView| album_id(a)),
            )
        }),
{
    let songs: Vec<SongInfo> = songs_of_genre(batch, genre);
    fresh_albums(seen, &songs)
}

/// Takes a batch of songs that may be of a genre: gives back the artists of those that are who were not
/// seen before, and who then count as seen.
pub fn get_artists_by_genre(seen: DistinctStrings, batch: Vec<SongInfo>, genre: &str) -> (r: (
    DistinctStrings,
    Vec<ArtistInfo>,
))
    ensures
        ({
            let songs = batch@.filter(|s: SongInfo| has_genre(s, genre@));
            &&& r.1@ == fresh(seen@, artists_of(songs), |a: ArtistInfo| artist_comp_id(a))
            &&& r.0@ == extend_distinct(
                seen@,
                artists_of(songs).map_values(|a: ArtistInfo| artist_comp_id(a)),
            )
        }),
{
    let songs: Vec<SongInfo> = songs_of_genre(batch, genre);
    fresh_artists(seen, song_artists(songs))
}

/// A list is fetched once: after it counts as fetched, only a wish to read it again fetches it.
pub proof fn law_lists_are_fetched_once(l: Library, list: List, other: List)
    ensures
        is_fetched(with_fetched(l, list), list),
        other != list ==> is_fetched(with_fetched(l, list), other) == is_fetched(l, other),
{
}

/// What the queue holds once requests are carried out that clear it or put songs into it.
pub open spec fn queue_after(queue: Seq<Seq<char>>, requests: Seq<QueueRequestView>) -> Seq<Seq<char>>
    decreases requests.len(),
{
    if requests.len() == 0 {
        queue
    } else {
        let before = queue_after(queue, requests.drop_last());
        match requests.last() {
            QueueRequestView::Clear => Seq::empty(),
            QueueRequestView::Put(step) => put(before, step),
            _ => before,
        }
    }
}

proof fn lemma_queue_after_both(
    queue: Seq<Seq<char>>,
    a: Seq<QueueRequestView>,
    b: Seq<QueueRequestView>,
)
    ensures
        queue_after(queue, a + b) == queue_after(queue_after(queue, a), b),
    decreases b.len(),
{
    if b.len() == 0 {
        assert(a + b =~= a);
    } else {
        assert((a + b).drop_last() =~= a + b.drop_last());
        lemma_queue_after_both(queue, a, b.drop_last());
    }
}

proof fn lemma_queue_after_steps(queue: Seq<Seq<char>>, steps: Seq<AddStepView>)
    ensures
        queue_after(queue, put_requests(steps)) == put_all(queue, steps),
    decreases steps.len(),
{
    let requests = put_requests(steps);
    if steps.len() > 0 {
        let first = seq![requests[0]];
        let rest = put_requests(steps.drop_first());
        assert(requests =~= first + rest);
        reveal_with_fuel(queue_after, 2);
        lemma_queue_after_both(queue, first, rest);
        lemma_queue_after_steps(put(queue, steps[0]), steps.drop_first());
    }
}

proof fn lemma_queue_after_around(
    queue: Seq<Seq<char>>,
    replace: bool,
    steps: Seq<AddStepView>,
    play: bool,
    from: u32,
)
    ensures
        queue_after(queue, around(replace, put_requests(steps), play, from)) == put_all(
            if replace {
                Seq::empty()
            } else {
                queue
            },
            steps,
        ),
{
    let clear = only_if(replace, QueueRequestView::Clear);
    let end = only_if(play, QueueRequestView::PlayAt(from));
    let requests = put_requests(steps);
    let start = queue_after(queue, clear);
    reveal_with_fuel(queue_after, 2);
    lemma_queue_after_both(queue, clear + requests, end);
    lemma_queue_after_both(queue, clear, requests);
    lemma_queue_after_steps(start, steps);
}

/// Queued songs come behind what the queue holds, in their order, or in its place; playing starts with the
/// first entry, where it is asked for.
pub proof fn law_songs_are_queued(
    queue: Seq<Seq<char>>,
    uris: Vec<String>,
    replace: bool,
    play: bool,
    r: Vec<QueueRequest>,
)
    requires
        call_ensures(queue_songs, (uris, replace, play), r),
    ensures
        replace ==> queue_after(queue, request_views(r@)) == str_views(uris@),
        !replace ==> queue_after(queue, request_views(r@)) == queue + str_views(uris@),
        play ==> r@.len() > 0 && r@.last() == QueueRequest::PlayAt(0),
        !play ==> forall|i: int| 0 <= i < r@.len() ==> !((#[trigger] r@[i]) is PlayAt),
        forall|i: int| 0 <= i < r@.len() - 1 ==> !((#[trigger] r@[i]) is PlayAt),
{
    let names = str_views(uris@);
    let steps = add_plan(names, false, None);
    let views = request_views(r@);
    lemma_queue_after_around(queue, replace, steps, play, 0);
    law_uris_keep_their_order(queue, names, None);
    law_uris_keep_their_order(Seq::empty(), names, None);
    assert(Seq::<Seq<char>>::empty() + names =~= names);
    assert(views.len() == r@.len());
    assert forall|i: int| 0 <= i < r@.len() implies views[i] == (#[trigger] r@[i])@ by {}
    if play {
        assert(views.last() == QueueRequestView::PlayAt(0));
        assert(r@.last()@ == QueueRequestView::PlayAt(0));
    }
    assert forall|i: int| 0 <= i < r@.len() && (!play || i < r@.len() - 1) implies !((
    #[trigger] r@[i]) is PlayAt) by {
        assert(!(views[i] is PlayAt));
    }
}

/// Songs to be played next come right behind the current entry, in their order, or first where there is none;
/// the rest of the queue stays.
pub proof fn law_songs_are_inserted_next(
    queue: Seq<Seq<char>>,
    uris: Vec<String>,
    current: u32,
    r: Vec<QueueRequest>,
    first: Vec<QueueRequest>,
)
    requires
        current < queue.len(),
        current < u32::MAX,
        call_ensures(insert_songs_next, (uris, Some(current)), r),
        call_ensures(insert_songs_next, (uris, None::<u32>), first),
    ensures
        queue_after(queue, request_views(r@)) == queue.take(current + 1) + str_views(uris@)
            + queue.skip(current + 1),
        queue_after(queue, request_views(first@)) == str_views(uris@) + queue,
{
    let names = str_views(uris@);
    let next = (current + 1) as usize;
    lemma_queue_after_steps(queue, add_plan(names, false, Some(next)));
    law_uris_keep_their_order(queue, names, Some(next));
    lemma_queue_after_steps(queue, add_plan(names, false, Some(0usize)));
    law_uris_keep_their_order(queue, names, Some(0usize));
    assert(queue.take(0) + names + queue.skip(0) =~= names + queue);
}

/// Of one song its URI is queued, and of a folder everything in it, at any depth.
pub proof fn law_uris_are_queued(uri: String, song: Vec<QueueRequest>, folder: Vec<QueueRequest>)
    requires
        call_ensures(queue_uri, (uri, false, false, false), song),
        call_ensures(queue_uri, (uri, false, false, true), folder),
    ensures
        song@.len() == 1,
        song@[0]@ == QueueRequestView::Put(AddStepView::Add(uri@)),
        folder@.len() == 1,
        folder@[0]@ == QueueRequestView::Put(
            AddStepView::FindAdd(
                seq![
                    FilterView { term: TermView::Base, op: Operation::Equals, value: uri@ },
                ],
            ),
        ),
{
    let a = request_views(song@);
    let b = request_views(folder@);
    assert(a.len() == song@.len() && b.len() == folder@.len());
    assert(a[0] == song@[0]@ && b[0] == folder@[0]@);
}

/// What comes before and behind one request: the queue is cleared first where it is replaced, and plays from
/// an entry at the end where that is asked for.
pub open spec fn is_framed(
    requests: Seq<QueueRequest>,
    replace: bool,
    middle: QueueRequestView,
    play: bool,
    from: u32,
) -> bool {
    let at: int = if replace {
        1
    } else {
        0
    };
    &&& requests.len() == at + 1 + (if play {
        1int
    } else {
        0int
    })
    &&& replace ==> requests[0]@ == QueueRequestView::Clear
    &&& requests[at]@ == middle
    &&& play ==> requests[at + 1]@ == QueueRequestView::PlayAt(from)
}

pub(crate) proof fn lemma_framed(
    requests: Seq<QueueRequest>,
    replace: bool,
    middle: QueueRequestView,
    play: bool,
    from: u32,
)
    requires
        request_views(requests) == around(replace, seq![middle], play, from),
    ensures
        is_framed(requests, replace, middle, play, from),
{
    let views = request_views(requests);
    assert(views.len() == requests.len());
    assert forall|i: int| 0 <= i < requests.len() implies views[i] == (#[trigger] requests[i])@ by {}
    let at: int = if replace {
        1
    } else {
        0
    };
    if replace {
        assert(views[0] == requests[0]@);
    }
    assert(views[at] == requests[at]@);
    if play {
        assert(views[at + 1] == requests[at + 1]@);
    }
}

/// An artist is queued by every song whose tag names them, a playlist by its name, and a dynamic playlist by
/// the songs that are cached for it.
pub proof fn law_lists_are_queued(
    name: String,
    by_albumartist: bool,
    replace: bool,
    play: bool,
    artist: Vec<QueueRequest>,
    playlist: Vec<QueueRequest>,
    cached: Vec<QueueRequest>,
    text: &str,
)
    requires
        text@ == name@,
        call_ensures(queue_artist, (text, by_albumartist, replace, play), artist),
        call_ensures(queue_playlist, (name, replace, play), playlist),
        call_ensures(queue_cached_dynamic_playlist, (name, replace, play), cached),
    ensures
        is_framed(
            artist@,
            replace,
            QueueRequestView::FindAdd(
                seq![
                    FilterView {
                        term: TermView::Tag(
                            if by_albumartist {
                                "albumartist"@
                            } else {
                                "artist"@
                            },
                        ),
                        op: Operation::Contains,
                        value: name@,
                    },
                ],
            ),
            play,
            0,
        ),
        is_framed(playlist@, replace, QueueRequestView::Load(name@), play, 0),
        is_framed(cached@, replace, QueueRequestView::AddCached(name@), play, 0),
{
    let filter = tag_contains(
        if by_albumartist {
            ALBUMARTIST@
        } else {
            ARTIST@
        },
        name@,
    );
    lemma_framed(artist@, replace, QueueRequestView::FindAdd(seq![filter]), play, 0);
    lemma_framed(playlist@, replace, QueueRequestView::Load(name@), play, 0);
    lemma_framed(cached@, replace, QueueRequestView::AddCached(name@), play, 0);
}

/// Whether filters ask that a tag has a value.
pub open spec fn asks_for(filters: Seq<FilterView>, tag: Seq<char>, value: Seq<char>) -> bool {
    filters.contains(
        FilterView { term: TermView::Tag(tag), op: Operation::Equals, value },
    )
}

/// Whether filters ask for a folder.
pub open spec fn asks_for_folder(filters: Seq<FilterView>) -> bool {
    exists|i: int| 0 <= i < filters.len() && (#[trigger] filters[i]).term == TermView::Base
}

pub(crate) proof fn lemma_album_filters(album: AlbumView)
    ensures
        asks_for(all_copies(album), "album"@, album.title),
        album.albumartist is Some ==> asks_for(
            all_copies(album),
            "albumartist"@,
            album.albumartist->0,
        ),
        album.mbid is Some ==> asks_for(all_copies(album), "musicbrainz_albumid"@, album.mbid->0),
        !asks_for_folder(all_copies(album)),
        asks_for(one_copy(album), "album"@, album.title),
        album.albumartist is Some ==> asks_for(
            one_copy(album),
            "albumartist"@,
            album.albumartist->0,
        ),
        album.mbid is Some ==> asks_for(one_copy(album), "musicbrainz_albumid"@, album.mbid->0),
        one_copy(album).contains(
            (FilterView { term: TermView::Base, op: Operation::Equals, value: album.folder_uri }),
        ),
{
    let all = all_copies(album);
    let one = one_copy(album);
    assert(all[0] == tag_is(ALBUM@, album.title));
    assert(one[0] == all[0]);
    if album.albumartist is Some {
        assert(all[1] == tag_is(ALBUMARTIST@, album.albumartist->0));
        assert(one[1] == all[1]);
    }
    if album.mbid is Some {
        let i = all.len() - 1;
        assert(all[i] == tag_is(ALBUM_MBID@, album.mbid->0));
        assert(one[i] == all[i]);
    }
    assert(one[one.len() - 1] == in_folder(album.folder_uri));
}

/// An album is queued in the order of its tracks, by its title and by its artist and identifier where they
/// are known: all of its copies, or the songs in one folder. Playing starts with the chosen entry, or with
/// the first.
pub proof fn law_albums_are_queued(
    album: AlbumInfo,
    replace: bool,
    play: bool,
    from: Option<u32>,
    all: Vec<QueueRequest>,
    one: Vec<QueueRequest>,
)
    requires
        call_ensures(queue_album, (&album, replace, play, from), all),
        call_ensures(queue_copy, (&album, replace, play, from), one),
    ensures
        ({
            let start = if from is Some {
                from->0
            } else {
                0
            };
            let at: int = if replace {
                1
            } else {
                0
            };
            let a = all@[at]@->FindAddSorted_0;
            let b = one@[at]@->FindAddSorted_0;
            &&& is_framed(all@, replace, QueueRequestView::FindAddSorted(a, "track"@), play, start)
            &&& is_framed(one@, replace, QueueRequestView::FindAddSorted(b, "track"@), play, start)
            &&& asks_for(a, "album"@, album.title@)
            &&& asks_for(b, "album"@, album.title@)
            &&& album.albumartist is Some ==> asks_for(a, "albumartist"@, album.albumartist->0@)
            &&& album.albumartist is Some ==> asks_for(b, "albumartist"@, album.albumartist->0@)
            &&& album.mbid is Some ==> asks_for(a, "musicbrainz_albumid"@, album.mbid->0@)
            &&& album.mbid is Some ==> asks_for(b, "musicbrainz_albumid"@, album.mbid->0@)
            &&& !asks_for_folder(a)
            &&& b.contains(
                (FilterView {
                    term: TermView::Base,
                    op: Operation::Equals,
                    value: album.folder_uri@,
                }),
            )
        }),
{
    let start = match from {
        Some(pos) => pos,
        None => 0,
    };
    lemma_framed(
        all@,
        replace,
        QueueRequestView::FindAddSorted(all_copies(album@), TRACK@),
        play,
        start,
    );
    lemma_framed(
        one@,
        replace,
        QueueRequestView::FindAddSorted(one_copy(album@), TRACK@),
        play,
        start,
    );
    lemma_album_filters(album@);
}

/// The songs of an album are found by its identifier alone where it has one, and by its title and artist
/// where it has none; those of a copy lie in its folder besides.
pub proof fn law_songs_of_albums_are_found(album: AlbumInfo, folder: &str, all: Query, one: Query)
    requires
        call_ensures(album_songs_query, (&album,), all),
        call_ensures(album_songs_at_query, (&album, folder), one),
    ensures
        album.mbid is Some ==> all@.len() == 1 && asks_for(
            all@,
            "musicbrainz_albumid"@,
            album.mbid->0@,
        ),
        album.mbid is None ==> asks_for(all@, "album"@, album.title@),
        album.mbid is None && album.albumartist is Some ==> asks_for(
            all@,
            "albumartist"@,
            album.albumartist->0@,
        ),
        album.mbid is None && album.albumartist is None ==> all@.len() == 1,
        !asks_for_folder(all@),
        one@ == all@.push(
            (FilterView { term: TermView::Base, op: Operation::Equals, value: folder@ }),
        ),
{
    if album.mbid is None {
        assert(all@[0] == tag_is(ALBUM@, album.title@));
        if album.albumartist is Some {
            assert(all@[1] == tag_is(ALBUMARTIST@, album.albumartist->0@));
        }
    } else {
        assert(all@[0] == tag_is(ALBUM_MBID@, album.mbid->0@));
    }
}

/// A rating is written about the album under its title, in place of the old one, and is deleted where it is
/// taken back.
pub proof fn law_albums_are_rated(
    album: AlbumInfo,
    n: i8,
    r: (&'static str, String, StickerChange),
    gone: (&'static str, String, StickerChange),
)
    requires
        call_ensures(rate_album, (&album, Some(n)), r),
        call_ensures(rate_album, (&album, None::<i8>), gone),
    ensures
        r.0@ == "album"@ && gone.0@ == "album"@,
        r.1@ == album.title@ && gone.1@ == album.title@,
        r.2@ == StickerChangeView::Write(
            "rating"@,
            crate::text::decimal(n as int),
            StickerSetMode::Overwrite,
        ),
        gone.2@ == StickerChangeView::Delete("rating"@),
{
}

/// Every song is added to a playlist, in its order; a playlist that is replaced is cleared first, and no
/// other is.
pub proof fn law_songs_are_added_to_playlists(
    name: &str,
    uris: Vec<String>,
    added: Vec<EditAction>,
    replaced: Vec<EditAction>,
    created: Vec<EditAction>,
)
    requires
        call_ensures(add_songs_to_playlist, (name, &uris, SaveMode::Append), added),
        call_ensures(add_songs_to_playlist, (name, &uris, SaveMode::Replace), replaced),
        call_ensures(add_songs_to_playlist, (name, &uris, SaveMode::Create), created),
    ensures
        added@.len() == uris@.len(),
        created@.len() == uris@.len(),
        replaced@.len() == uris@.len() + 1,
        replaced@[0]@ == EditActionView::Clear(name@),
        forall|i: int|
            0 <= i < uris@.len() ==> {
                let add = EditActionView::Add(name@, (#[trigger] uris@[i])@);
                added@[i]@ == add && created@[i]@ == add && replaced@[i + 1]@ == add
            },
{
    let a = edit_views(added@);
    let b = edit_views(created@);
    let c = edit_views(replaced@);
    assert(a.len() == added@.len() && b.len() == created@.len() && c.len() == replaced@.len());
    assert(c[0] == replaced@[0]@);
    assert forall|i: int| 0 <= i < uris@.len() implies ({
        let add = EditActionView::Add(name@, (#[trigger] uris@[i])@);
        added@[i]@ == add && created@[i]@ == add && replaced@[i + 1]@ == add
    }) by {
        assert(str_views(uris@)[i] == uris@[i]@);
        assert(a[i] == added@[i]@ && b[i] == created@[i]@ && c[i + 1] == replaced@[i + 1]@);
    }
}

/// The songs of a dynamic playlist are saved under its name and the time, every one of them in its order; where
/// there are none, nothing is saved.
pub proof fn law_states_are_saved(
    name: &str,
    uris: Vec<String>,
    stamp: &str,
    r: Option<(String, Vec<EditAction>)>,
)
    requires
        call_ensures(save_state_at, (name, &uris, stamp), r),
    ensures
        r is None <==> uris@.len() == 0,
        r is Some ==> (r->0).0@ == name@ + seq![' '] + stamp@,
        r is Some ==> (r->0).1@.len() == uris@.len(),
        r is Some ==> forall|i: int|
            0 <= i < uris@.len() ==> (r->0).1@[i]@ == EditActionView::Add(
                name@ + seq![' '] + stamp@,
                (#[trigger] uris@[i])@,
            ),
{
    if r is Some {
        let edits = edit_views((r->0).1@);
        assert(edits.len() == (r->0).1@.len());
        assert forall|i: int| 0 <= i < uris@.len() implies (r->0).1@[i]@ == EditActionView::Add(
            name@ + seq![' '] + stamp@,
            (#[trigger] uris@[i])@,
        ) by {
            assert(str_views(uris@)[i] == uris@[i]@);
            assert(edits[i] == (r->0).1@[i]@);
        }
    }
}

/// A list is fetched when it is asked for the first time, and again only to refresh it; each list is
/// remembered by itself.
pub proof fn law_lists_are_remembered(l: &mut Library, list: List, refresh: bool, r: bool)
    requires
        call_ensures(Library::init, (l, list, refresh), r),
    ensures
        refresh ==> r,
        list == List::Recent && !refresh ==> r == !old(l).recent_initialized,
        list == List::Playlists && !refresh ==> r == !old(l).playlists_initialized,
        list == List::DynPlaylists && !refresh ==> r == !old(l).dyn_playlists_initialized,
        list == List::Albums && !refresh ==> r == !old(l).albums_initialized,
        list == List::Artists && !refresh ==> r == !old(l).artists_initialized,
        list == List::Genres && !refresh ==> r == !old(l).genres_initialized,
        list == List::FolderInodes && !refresh ==> r == !old(l).folder_inodes_initialized,
        final(l).recent_initialized == (old(l).recent_initialized || list == List::Recent),
        final(l).playlists_initialized == (old(l).playlists_initialized || list
            == List::Playlists),
        final(l).dyn_playlists_initialized == (old(l).dyn_playlists_initialized || list
            == List::DynPlaylists),
        final(l).albums_initialized == (old(l).albums_initialized || list == List::Albums),
        final(l).artists_initialized == (old(l).artists_initialized || list == List::Artists),
        final(l).genres_initialized == (old(l).genres_initialized || list == List::Genres),
        final(l).folder_inodes_initialized == (old(l).folder_inodes_initialized || list
            == List::FolderInodes),
        final(l).folder_history == old(l).folder_history,
{
}

/// A library that is new or was cleared has fetched nothing, and shows the root.
pub proof fn law_cleared_libraries_are_new(new: Library, l: &mut Library)
    requires
        call_ensures(Library::new, (), new),
        call_ensures(Library::clear, (l,), ()),
    ensures
        !new.recent_initialized && !new.playlists_initialized && !new.dyn_playlists_initialized
            && !new.albums_initialized && !new.artists_initialized && !new.genres_initialized
            && !new.folder_inodes_initialized,
        new.folder_history@.current == 0 && new.folder_history@.names.len() == 0,
        !final(l).recent_initialized && !final(l).playlists_initialized
            && !final(l).dyn_playlists_initialized && !final(l).albums_initialized
            && !final(l).artists_initialized && !final(l).genres_initialized
            && !final(l).folder_inodes_initialized,
        final(l).folder_history@.current == 0 && final(l).folder_history@.names.len() == 0,
{
    assert(!is_fetched(new, List::Recent) && !is_fetched(new, List::Playlists));
    assert(!is_fetched(new, List::DynPlaylists) && !is_fetched(new, List::Albums));
    assert(!is_fetched(new, List::Artists) && !is_fetched(new, List::Genres));
    assert(!is_fetched(new, List::FolderInodes));
    assert(!is_fetched(*final(l), List::Recent) && !is_fetched(*final(l), List::Playlists));
    assert(!is_fetched(*final(l), List::DynPlaylists) && !is_fetched(*final(l), List::Albums));
    assert(!is_fetched(*final(l), List::Artists) && !is_fetched(*final(l), List::Genres));
    assert(!is_fetched(*final(l), List::FolderInodes));
}

/// The content of a folder is fetched anew once another folder is shown, and only then.
pub proof fn law_folders_are_fetched_anew(
    a: &mut Library,
    name: &str,
    b: &mut Library,
    up: bool,
    c: &mut Library,
    down: bool,
)
    requires
        is_valid(old(a).folder_history@),
        is_valid(old(b).folder_history@),
        is_valid(old(c).folder_history@),
        call_ensures(Library::navigate_to, (a, name), ()),
        call_ensures(Library::folder_backward, (b,), up),
        call_ensures(Library::folder_forward, (c,), down),
    ensures
        !final(a).folder_inodes_initialized,
        final(a).folder_history@.current == old(a).folder_history@.current + 1,
        final(a).folder_history@.names.last() == name@,
        up <==> old(b).folder_history@.current > 0,
        up ==> !final(b).folder_inodes_initialized && final(b).folder_history@.current == old(
            b,
        ).folder_history@.current - 1,
        !up ==> final(b).folder_inodes_initialized == old(b).folder_inodes_initialized,
        down <==> old(c).folder_history@.current < old(c).folder_history@.names.len(),
        down ==> !final(c).folder_inodes_initialized && final(c).folder_history@.current == old(
            c,
        ).folder_history@.current + 1,
        !down ==> final(c).folder_inodes_initialized == old(c).folder_inodes_initialized,
{
}

/// Artists and genres are looked for inside their tags, since one tag may name several.
pub proof fn law_parts_of_tags_are_found(name: &str, artist: Query, genre: Query)
    requires
        call_ensures(artist_query, (name,), artist),
        call_ensures(genre_query, (name,), genre),
    ensures
        artist@.len() == 1 && genre@.len() == 1,
        artist@[0] == (FilterView {
            term: TermView::Tag("artist"@),
            op: Operation::Contains,
            value: name@,
        }),
        genre@[0] == (FilterView {
            term: TermView::Tag("genre"@),
            op: Operation::Contains,
            value: name@,
        }),
{
}

/// Of the songs that a server finds for an artist those are kept that name the artist in full, in their
/// order.
pub proof fn law_songs_of_artists(
    seen: DistinctStrings,
    batch: Vec<SongInfo>,
    id: &str,
    r: (DistinctStrings, Vec<AlbumInfo>, Vec<SongInfo>),
    song: SongInfo,
)
    requires
        call_ensures(get_artist_content, (seen, batch, id), r),
        batch@.contains(song),
    ensures
        r.2@.contains(song) <==> exists|i: int|
            0 <= i < song.artists@.len() && artist_comp_id(#[trigger] song.artists@[i]) == id@,
        r.2@.len() <= batch@.len(),
{
    let keep = |s: SongInfo| has_artist(s, id@);
    assert(r.2@ == batch@.filter(keep));
    batch@.filter_lemma(keep);
    batch@.lemma_filter_len(keep);
    if keep(song) {
        batch@.lemma_filter_contains_rev(keep, song);
    }
    if r.2@.contains(song) {
        let i = choose|i: int| 0 <= i < r.2@.len() && r.2@[i] == song;
        assert(keep(batch@.filter(keep)[i]));
    }
}

/// The albums and artists of a genre are those of the songs that are tagged with it, each of them once over
/// all that is fetched.
pub proof fn law_content_of_genres(
    seen: DistinctStrings,
    batch: Vec<SongInfo>,
    genre: &str,
    albums: (DistinctStrings, Vec<AlbumInfo>),
    artists: (DistinctStrings, Vec<ArtistInfo>),
)
    requires
        seen@.no_duplicates(),
        call_ensures(get_albums_by_genre, (seen, batch, genre), albums),
        call_ensures(get_artists_by_genre, (seen, batch, genre), artists),
    ensures
        albums.0@.no_duplicates() && artists.0@.no_duplicates(),
        albums.0@.len() == seen@.len() + albums.1@.len(),
        artists.0@.len() == seen@.len() + artists.1@.len(),
        (forall|i: int|
            0 <= i < batch@.len() ==> !str_views((#[trigger] batch@[i]).genres@).contains(genre@))
            ==> albums.1@.len() == 0 && artists.1@.len() == 0,
{
    let keep = |s: SongInfo| has_genre(s, genre@);
    let songs = batch@.filter(keep);
    let album = |a: AlbumView| album_id(a);
    let artist = |a: ArtistInfo| artist_comp_id(a);
    crate::common::distinct::law_fresh(seen@, albums_of(songs), album);
    crate::common::distinct::law_fresh(seen@, artists_of(songs), artist);
    crate::common::distinct::law_extend_distinct(seen@, albums_of(songs).map_values(album));
    crate::common::distinct::law_extend_distinct(seen@, artists_of(songs).map_values(artist));
    assert(album_views(albums.1@).len() == albums.1@.len());
    batch@.filter_lemma(keep);
    if forall|i: int|
        0 <= i < batch@.len() ==> !str_views((#[trigger] batch@[i]).genres@).contains(genre@) {
        if songs.len() > 0 {
            assert(songs.contains(songs[0]));
            batch@.lemma_filter_contains_rev(keep, songs[0]);
            let i = choose|i: int| 0 <= i < batch@.len() && batch@[i] == songs[0];
            assert(keep(batch@.filter(keep)[0]));
            assert(!str_views(batch@[i].genres@).contains(genre@));
        }
    }
}

}
