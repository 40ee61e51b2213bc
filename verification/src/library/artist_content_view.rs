//! The page of one artist, which shows the albums or the songs.
use vstd::prelude::*;

use super::controller::{
    around, put_requests, queue_artist, queue_songs, request_views, QueueRequest, QueueRequestView,
};
use super::selection::{
    acts_on_all, are_labels, choose_songs, chosen_uris, fetched_state, selection_labels,
    ContentState, SelectionLabels,
};
use crate::client::adding::add_plan;
use crate::client::query::tag_contains;
use crate::client::wrapper::ARTIST;
use crate::common::album::AlbumInfo;
use crate::common::artist::ArtistInfo;
use crate::common::song::SongInfo;

verus! {

/// The page of one artist.
#[derive(Debug)]
pub struct ArtistContentView {
    pub artist: Option<ArtistInfo>,
    pub albums: Vec<AlbumInfo>,
    pub songs: Vec<SongInfo>,
    pub album_state: ContentState,
    pub song_state: ContentState,
    /// Whether the buttons act on all songs.
    pub selecting_all: bool,
}

/// What a place for a list of some length shows once the list was fetched.
pub open spec fn state_of_list(n_items: nat) -> ContentState {
    if n_items > 0 {
        ContentState::Content
    } else {
        ContentState::Placeholder
    }
}

impl ArtistContentView {
    pub fn new() -> (r: Self)
        ensures
            r.artist is None,
            r.albums@.len() == 0,
            r.songs@.len() == 0,
            r.album_state == ContentState::Placeholder,
            r.song_state == ContentState::Placeholder,
            r.selecting_all,
    {
        ArtistContentView {
            artist: None,
            albums: Vec::new(),
            songs: Vec::new(),
            album_state: ContentState::Placeholder,
            song_state: ContentState::Placeholder,
            selecting_all: true,
        }
    }

    /// Shows an artist, whose albums and songs are then fetched.
    pub fn bind(&mut self, artist: ArtistInfo)
        ensures
            final(self).artist == Some(artist),
            final(self).albums@.len() == 0,
            final(self).songs@.len() == 0,
            final(self).album_state == ContentState::Spinner,
            final(self).song_state == ContentState::Spinner,
            final(self).selecting_all == old(self).selecting_all,
    {
        self.artist = Some(artist);
        self.albums = Vec::new();
        self.songs = Vec::new();
        self.album_state = ContentState::Spinner;
        self.song_state = ContentState::Spinner;
    }

    /// Takes some albums and songs of the artist, as they come in.
    pub fn add_content(&mut self, albums: Vec<AlbumInfo>, songs: Vec<SongInfo>)
        ensures
            final(self).albums@ == old(self).albums@ + albums@,
            final(self).songs@ == old(self).songs@ + songs@,
            *final(self) == (ArtistContentView {
                albums: final(self).albums,
                songs: final(self).songs,
                ..*old(self)
            }),
    {
        let mut albums: Vec<AlbumInfo> = albums;
        let mut songs: Vec<SongInfo> = songs;
        self.albums.append(&mut albums);
        self.songs.append(&mut songs);
    }

    /// Takes note that all albums and songs of the artist have come in.
    pub fn finish_content(&mut self)
        ensures
            *final(self) == (ArtistContentView {
                album_state: state_of_list(old(self).albums@.len()),
                song_state: state_of_list(old(self).songs@.len()),
                ..*old(self)
            }),
    {
        self.album_state = fetched_state(self.albums.len());
        self.song_state = fetched_state(self.songs.len());
    }

    /// Shows no artist's content any more.
    pub fn unbind(&mut self)
        ensures
            final(self).albums@.len() == 0,
            final(self).songs@.len() == 0,
            final(self).album_state == ContentState::Placeholder,
            final(self).song_state == ContentState::Placeholder,
            final(self).artist == old(self).artist,
            final(self).selecting_all == old(self).selecting_all,
    {
        self.albums = Vec::new();
        self.songs = Vec::new();
        self.album_state = ContentState::Placeholder;
        self.song_state = ContentState::Placeholder;
    }

    /// Takes note that another number of songs is selected. Gives back what the buttons say.
    pub fn on_song_selection_changed(&mut self, n_selected: u32, n_items: u32) -> (r:
        SelectionLabels)
        ensures
            *final(self) == (ArtistContentView {
                selecting_all: acts_on_all(n_selected as int, n_items as int),
                ..*old(self)
            }),
            are_labels(r, n_selected as nat, n_items as nat),
    {
        let labels: SelectionLabels = selection_labels(n_selected, n_items);
        self.selecting_all = labels.selecting_all;
        labels
    }

    /// The requests that put the songs at the selected places into the queue, or all songs of the artist
    /// where the buttons act on all. `replace` empties the queue before, and plays it then. None where no
    /// artist is shown.
    pub fn queue(&self, places: &Vec<u32>, replace: bool) -> (r: Option<Vec<QueueRequest>>)
        requires
            forall|i: int| 0 <= i < places@.len() ==> (#[trigger] places@[i]) < self.songs@.len(),
        ensures
            r is Some <==> self.artist is Some,
            r is Some ==> request_views(r->0@) == around(
                replace,
                if self.selecting_all {
                    seq![
                        QueueRequestView::FindAdd(
                            seq![tag_contains(ARTIST@, self.artist->0.name@)],
                        ),
                    ]
                } else {
                    put_requests(add_plan(chosen_uris(self.songs@, false, places@), false, None))
                },
                replace,
                0,
            ),
    {
        match &self.artist {
            Some(artist) => if self.selecting_all {
                Some(queue_artist(artist.name.as_str(), false, replace, replace))
            } else {
                Some(queue_songs(choose_songs(&self.songs, false, places), replace, replace))
            },
            None => None,
        }
    }
}

/// The part of the page that is shown.
pub fn artist_subview(all_songs: bool) -> (r: &'static str)
    ensures
        r@ == (if all_songs {
            "songs"@
        } else {
            "albums"@
        }),
{
    if all_songs {
        "songs"
    } else {
        "albums"
    }
}

/// An artist that is shown starts without content. Albums and songs are added at the end, and each list is
/// shown by itself once it is there, or that it has nothing.
pub proof fn law_artists_are_shown(
    a: &mut ArtistContentView,
    artist: ArtistInfo,
    b: &mut ArtistContentView,
    albums: Vec<AlbumInfo>,
    songs: Vec<SongInfo>,
    c: &mut ArtistContentView,
    d: &mut ArtistContentView,
)
    requires
        call_ensures(ArtistContentView::bind, (a, artist), ()),
        call_ensures(ArtistContentView::add_content, (b, albums, songs), ()),
        call_ensures(ArtistContentView::finish_content, (c,), ()),
        call_ensures(ArtistContentView::unbind, (d,), ()),
    ensures
        final(a).artist == Some(artist),
        final(a).albums@.len() == 0 && final(a).songs@.len() == 0,
        final(a).album_state == ContentState::Spinner && final(a).song_state == ContentState::Spinner,
        final(b).albums@.len() == old(b).albums@.len() + albums@.len(),
        final(b).songs@.len() == old(b).songs@.len() + songs@.len(),
        old(b).albums@.is_prefix_of(final(b).albums@) && old(b).songs@.is_prefix_of(final(b).songs@),
        forall|i: int| 0 <= i < songs@.len() ==> final(b).songs@[old(b).songs@.len() + i] == #[trigger] songs@[i],
        forall|i: int| 0 <= i < albums@.len() ==> final(b).albums@[old(b).albums@.len() + i] == #[trigger] albums@[i],
        final(c).album_state == ContentState::Content <==> old(c).albums@.len() > 0,
        final(c).album_state == ContentState::Placeholder <==> old(c).albums@.len() == 0,
        final(c).song_state == ContentState::Content <==> old(c).songs@.len() > 0,
        final(c).song_state == ContentState::Placeholder <==> old(c).songs@.len() == 0,
        final(d).albums@.len() == 0 && final(d).songs@.len() == 0,
        final(d).album_state == ContentState::Placeholder && final(d).song_state
            == ContentState::Placeholder,
{
}

/// The buttons act on everything where nothing or everything is selected.
pub proof fn law_selections_are_followed(v: &mut ArtistContentView, n: u32, all: u32, r: SelectionLabels)
    requires
        call_ensures(ArtistContentView::on_song_selection_changed, (v, n, all), r),
    ensures
        final(v).selecting_all <==> n == 0 || n == all,
        r.selecting_all == final(v).selecting_all,
        final(v).songs == old(v).songs && final(v).albums == old(v).albums,
{
}

/// Everything by an artist is queued by their name; queueing in place of the queue plays it.
pub proof fn law_artists_are_queued(
    v: ArtistContentView,
    places: Vec<u32>,
    replace: bool,
    r: Option<Vec<QueueRequest>>,
)
    requires
        forall|i: int| 0 <= i < places@.len() ==> (#[trigger] places@[i]) < v.songs@.len(),
        call_ensures(ArtistContentView::queue, (&v, &places, replace), r),
        v.selecting_all,
    ensures
        r is Some <==> v.artist is Some,
        r is Some ==> super::controller::is_framed(
            r->0@,
            replace,
            super::controller::QueueRequestView::FindAdd(
                seq![
                    crate::client::query::FilterView {
                        term: crate::client::query::TermView::Tag("artist"@),
                        op: crate::client::query::Operation::Contains,
                        value: v.artist->0.name@,
                    },
                ],
            ),
            replace,
            0,
        ),
{
    if r is Some {
        super::controller::lemma_framed(
            r->0@,
            replace,
            super::controller::QueueRequestView::FindAdd(
                seq![tag_contains(ARTIST@, v.artist->0.name@)],
            ),
            replace,
            0,
        );
    }
}

/// The page shows all songs or the albums.
pub proof fn law_parts_of_the_page(songs: &'static str, albums: &'static str)
    requires
        call_ensures(artist_subview, (true,), songs),
        call_ensures(artist_subview, (false,), albums),
    ensures
        songs@ == "songs"@,
        albums@ == "albums"@,
{
}

}
