//! What the player keeps about one server: its state, its version, its mounts and the songs of its
//! queue.
use vstd::prelude::*;

use super::albums;
use super::albums::{album_groups, are_albums_of, by_folder};
use super::dedup::{album_copies, are_infos_of, build_dedup_album_infos, CopyRanks, RankingView};
use super::error::{Error, ErrorCode};
use super::mounts::{Mount, MountRegistry};
use super::paging::PageRule;
use super::query::{tag_contains, tag_is, Query};
use super::song_cache::SongCache;
use super::state::{probed_level, ClientState, ConnectionState};
use super::FETCH_LIMIT;
use crate::common::album::AlbumInfo;
use crate::common::joined;
use crate::common::song::SongInfo;
use crate::order::stable_sorted;
use crate::utils::{is_random_name, random_name};

verus! {

/// The tag that holds the title of an album.
pub const ALBUM: &'static str = "album";

/// The tag that holds the artist of an album.
pub const ALBUMARTIST: &'static str = "albumartist";

/// The tag that holds the MusicBrainz ID of an album.
pub const ALBUM_MBID: &'static str = "musicbrainz_albumid";

/// The tag that holds an artist.
pub const ARTIST: &'static str = "artist";

/// The tag that holds genres.
pub const GENRE: &'static str = "genre";

/// The tag that holds the number of a song on its medium.
pub const TRACK: &'static str = "track";

/// The version of a server.
#[derive(Debug, Clone, Copy, PartialEq, Eq, Structural)]
pub struct Version {
    pub major: u16,
    pub minor: u16,
    pub patch: u16,
}

/// A new name for the channel that wakes a connection up which idles.
pub fn wake_channel_name() -> (r: String)
    ensures
        is_random_name(r@),
{
    random_name()
}

/// What the player keeps about one server.
pub struct MpdWrapper {
    pub state: ClientState,
    pub client_version: Option<Version>,
    pub song_cache: SongCache,
    pub mount_registry: MountRegistry,
}

/// The condition that a song belongs to an album, and where it is known to one of an artist.
pub open spec fn album_filters(
    title: Seq<char>,
    albumartist: Option<Seq<char>>,
    mbid: Option<Seq<char>>,
) -> Seq<super::query::FilterView> {
    let by_title = seq![tag_is(ALBUM@, title)];
    let by_artist = match albumartist {
        Some(artist) => by_title.push(tag_is(ALBUMARTIST@, artist)),
        None => by_title,
    };
    match mbid {
        Some(id) => by_artist.push(tag_is(ALBUM_MBID@, id)),
        None => by_artist,
    }
}

/// Whether a server hands out the songs of a playlist in pages.
pub open spec fn has_paged_playlists(version: Version) -> bool {
    version.minor >= 24
}

/// Whether a server hands out the songs of a playlist in pages.
pub fn pages_playlists(version: Version) -> (r: bool)
    ensures
        r == has_paged_playlists(version),
{
    version.minor >= 24
}

/// A query for the songs of an album.
pub fn album_query(title: &str, albumartist: Option<&str>, mbid: Option<&str>) -> (r: Query)
    ensures
        r@ == album_filters(
            title@,
            match albumartist {
                Some(a) => Some(a@),
                None => None,
            },
            match mbid {
                Some(id) => Some(id@),
                None => None,
            },
        ),
{
    let mut query: Query = Query::new();
    query.and_tag(ALBUM, title);
    assert(query@ =~= seq![tag_is(ALBUM@, title@)]);
    if let Some(artist) = albumartist {
        query.and_tag(ALBUMARTIST, artist);
    }
    if let Some(id) = mbid {
        query.and_tag(ALBUM_MBID, id);
    }
    query
}

/// The songs of an album to ask for: all of them where its copies are told apart, else the first one.
pub fn album_window(dedup: bool) -> (r: (u32, u32))
    ensures
        r.0 == 0,
        r.1 == (if dedup {
            FETCH_LIMIT as int
        } else {
            1
        }),
{
    if dedup {
        (0, FETCH_LIMIT as u32)
    } else {
        (0, 1)
    }
}

/// The tag that artists are listed by.
pub fn artist_tag(use_album_artist: bool) -> (r: &'static str)
    ensures
        r@ == (if use_album_artist {
            ALBUMARTIST@
        } else {
            ARTIST@
        }),
{
    if use_album_artist {
        ALBUMARTIST
    } else {
        ARTIST
    }
}

/// A query for the songs that are tagged with a value.
pub fn tag_query(tag: &str, value: &str) -> (r: Query)
    ensures
        r@ == seq![tag_is(tag@, value@)],
{
    let mut query: Query = Query::new();
    query.and_tag(tag, value);
    assert(query@ =~= seq![tag_is(tag@, value@)]);
    query
}

/// A query for the songs that are tagged with something that a value is part of.
pub fn tag_part_query(tag: &str, value: &str) -> (r: Query)
    ensures
        r@ == seq![tag_contains(tag@, value@)],
{
    let mut query: Query = Query::new();
    query.and_tag_contains(tag, value);
    assert(query@ =~= seq![tag_contains(tag@, value@)]);
    query
}

/// Whether these are the albums to show for songs of one title and artist: where copies are told apart
/// the best copy of each album with the others as its alternates, else the album of the first song.
pub open spec fn shows_albums(
    infos: Seq<AlbumInfo>,
    songs: Seq<SongInfo>,
    dedup: bool,
    client: MpdWrapper,
) -> bool {
    if dedup {
        are_infos_of(
            infos,
            album_copies(songs),
            RankingView {
                songs,
                mounts: client.mount_registry.mounts(),
                order: client.mount_registry.order(),
            },
        )
    } else {
        infos == (if songs.len() > 0 && songs[0].album is Some {
            seq![songs[0].album->0]
        } else {
            Seq::empty()
        })
    }
}

impl MpdWrapper {
    pub fn new(state: ClientState) -> (r: Self)
        ensures
            r.state == state,
            r.client_version is None,
            r.song_cache.wf(),
            r.song_cache@.len() == 0,
            r.mount_registry.mounts() == Seq::<Mount>::empty(),
            r.mount_registry.order() == Seq::<String>::empty(),
    {
        MpdWrapper {
            state,
            client_version: None,
            song_cache: SongCache::new(),
            mount_registry: MountRegistry::new(),
        }
    }

    /// The mounts of the server.
    pub fn mounts(&self) -> (r: &MountRegistry)
        ensures
            *r == self.mount_registry,
    {
        &self.mount_registry
    }

    /// Takes over the mounts that the server has reported, and the user's order of them.
    pub fn refresh_mounts(&mut self, mounts: Vec<Mount>, priority: Vec<String>)
        ensures
            *final(self) == (MpdWrapper {
                mount_registry: final(self).mount_registry,
                ..*old(self)
            }),
            final(self).mount_registry.mounts() == mounts@.filter(|m: Mount| m.name@.len() > 0),
            final(self).mount_registry.order() == priority@,
    {
        self.mount_registry.set_known(mounts);
        self.mount_registry.set_priority(priority);
    }

    /// Takes over the user's order of the mounts.
    pub fn reload_mount_priority(&mut self, priority: Vec<String>)
        ensures
            *final(self) == (MpdWrapper {
                mount_registry: final(self).mount_registry,
                ..*old(self)
            }),
            final(self).mount_registry.mounts() == old(self).mount_registry.mounts(),
            final(self).mount_registry.order() == priority@,
    {
        self.mount_registry.set_priority(priority);
    }

    /// Takes note that both connections were closed.
    pub fn handle_disconnected(&mut self, end_state: ConnectionState)
        ensures
            *final(self) == (MpdWrapper {
                state: ClientState { connection_state: end_state, ..old(self).state },
                client_version: None,
                ..*old(self)
            }),
    {
        self.state.connection_state = end_state;
        self.client_version = None;
    }

    /// Takes over the version of a server that was connected to, and with it what it answered to a
    /// question about a sticker.
    pub fn accept_version(&mut self, version: Version, answer: Option<ErrorCode>)
        ensures
            *final(self) == (MpdWrapper {
                state: ClientState {
                    stickers_support_level: probed_level(version.minor as int, answer),
                    ..old(self).state
                },
                client_version: Some(version),
                ..*old(self)
            }),
    {
        self.state.set_probed_level(version.minor as u32, answer);
        self.client_version = Some(version);
    }

    /// Takes note that both connections stand.
    pub fn handle_connected(&mut self)
        ensures
            *final(self) == (MpdWrapper {
                state: ClientState {
                    connection_state: ConnectionState::Connected,
                    ..old(self).state
                },
                ..*old(self)
            }),
    {
        self.state.connection_state = ConnectionState::Connected;
    }

    /// How the songs of a playlist are fetched: in pages by servers that can, and at once by others.
    pub fn playlist_paging(&self) -> (r: Result<Option<PageRule>, Error>)
        ensures
            match (self.client_version, r) {
                (None, Err(e)) => e is NotConnected,
                (Some(version), Ok(rule)) => rule == (if has_paged_playlists(version) {
                    Some(PageRule::UntilShort)
                } else {
                    None
                }),
                _ => false,
            },
    {
        match self.client_version {
            None => Err(Error::NotConnected),
            Some(version) => if pages_playlists(version) {
                Ok(Some(PageRule::UntilShort))
            } else {
                Ok(None)
            },
        }
    }

    /// The albums to show for songs of one title and artist: where copies are told apart the best copy
    /// of each album with the others as its alternates, else the album of the first song.
    pub fn album_infos(&self, songs: Vec<SongInfo>, dedup: bool) -> (r: Vec<AlbumInfo>)
        ensures
            shows_albums(r@, songs@, dedup, *self),
    {
        if dedup {
            let ranks: CopyRanks = CopyRanks::new(&songs, &self.mount_registry);
            build_dedup_album_infos(songs, &ranks)
        } else {
            let mut out: Vec<AlbumInfo> = Vec::new();
            let mut songs = songs;
            if songs.len() > 0 {
                if let Some(album) = songs.swap_remove(0).into_album_info() {
                    out.push(album);
                }
            }
            out
        }
    }

    /// The albums that songs belong to, in the order of their folders.
    pub fn dedup_album_infos_from_songs(&self, songs: Vec<SongInfo>) -> (r: Vec<AlbumInfo>)
        ensures
            exists|parts: Seq<Seq<AlbumInfo>>|
                #![trigger joined(parts)]
                are_albums_of(
                    parts,
                    album_groups(songs@),
                    self.mount_registry.mounts(),
                    self.mount_registry.order(),
                ) && r@ == stable_sorted(joined(parts), by_folder()),
    {
        albums::dedup_album_infos_from_songs(songs, &self.mount_registry)
    }
}

/// Playlists come in pages from version 0.24 of the server on; before the version is known there is no
/// connection to ask.
pub proof fn law_playlists_in_pages(
    client: MpdWrapper,
    version: Version,
    paged: bool,
    r: Result<Option<PageRule>, Error>,
)
    requires
        call_ensures(pages_playlists, (version,), paged),
        call_ensures(MpdWrapper::playlist_paging, (&client,), r),
    ensures
        paged <==> version.minor >= 24,
        client.client_version is None ==> r is Err && r->Err_0 is NotConnected,
        client.client_version is Some ==> r is Ok,
        client.client_version is Some && client.client_version->0.minor >= 24 ==> r->Ok_0 == Some(
            PageRule::UntilShort,
        ),
        client.client_version is Some && client.client_version->0.minor < 24 ==> r->Ok_0 is None,
{
}

/// One song tells an album, unless its copies are to be told apart, which takes all of them.
pub proof fn law_songs_that_tell_an_album(one: (u32, u32), all: (u32, u32))
    requires
        call_ensures(album_window, (false,), one),
        call_ensures(album_window, (true,), all),
    ensures
        one == (0u32, 1u32),
        all == (0u32, 10_000_000u32),
{
}

/// Artists stand in the tag of the song or in that of the album. A tag is asked for in full, or by a part of
/// it.
pub proof fn law_tags_are_asked_for(
    song: &'static str,
    album: &'static str,
    tag: &str,
    value: &str,
    whole: Query,
    part: Query,
)
    requires
        call_ensures(artist_tag, (false,), song),
        call_ensures(artist_tag, (true,), album),
        call_ensures(tag_query, (tag, value), whole),
        call_ensures(tag_part_query, (tag, value), part),
    ensures
        song@ == "artist"@,
        album@ == "albumartist"@,
        whole@.len() == 1 && part@.len() == 1,
        whole@[0].term == super::query::TermView::Tag(tag@) && part@[0].term
            == super::query::TermView::Tag(tag@),
        whole@[0].value == value@ && part@[0].value == value@,
        whole@[0].op == super::query::Operation::Equals,
        part@[0].op == super::query::Operation::Contains,
{
}

/// An album is asked for by its title, and by its artist and identifier where they are given, each in full.
pub proof fn law_albums_are_asked_for(title: &str, artist: &str, mbid: &str, full: Query, bare: Query)
    requires
        call_ensures(album_query, (title, Some(artist), Some(mbid)), full),
        call_ensures(album_query, (title, None::<&str>, None::<&str>), bare),
    ensures
        bare@.len() == 1 && full@.len() == 3,
        bare@[0] == full@[0],
        full@[0].term == super::query::TermView::Tag("album"@) && full@[0].value == title@,
        full@[1].term == super::query::TermView::Tag("albumartist"@) && full@[1].value == artist@,
        full@[2].term == super::query::TermView::Tag("musicbrainz_albumid"@) && full@[2].value
            == mbid@,
        full@[0].op == super::query::Operation::Equals && full@[1].op
            == super::query::Operation::Equals && full@[2].op == super::query::Operation::Equals,
{
}

/// Where copies are not told apart, an album is what its first song is tagged with.
pub proof fn law_the_first_song_tells_the_album(
    client: MpdWrapper,
    songs: Vec<SongInfo>,
    r: Vec<AlbumInfo>,
)
    requires
        call_ensures(MpdWrapper::album_infos, (&client, songs, false), r),
    ensures
        songs@.len() == 0 ==> r@.len() == 0,
        songs@.len() > 0 && songs@[0].album is None ==> r@.len() == 0,
        songs@.len() > 0 && songs@[0].album is Some ==> r@.len() == 1 && r@[0]
            == songs@[0].album->0,
{
}

/// A connection that stands is called connected; one that ends forgets the version of the server, and is
/// called as it ended. Everything else stays.
pub proof fn law_connections_come_and_go(
    a: &mut MpdWrapper,
    b: &mut MpdWrapper,
    end: ConnectionState,
    c: &mut MpdWrapper,
    version: Version,
    answer: Option<ErrorCode>,
)
    requires
        call_ensures(MpdWrapper::handle_connected, (a,), ()),
        call_ensures(MpdWrapper::handle_disconnected, (b, end), ()),
        call_ensures(MpdWrapper::accept_version, (c, version, answer), ()),
    ensures
        final(a).state.connection_state == ConnectionState::Connected,
        final(a).client_version == old(a).client_version,
        final(a).mount_registry == old(a).mount_registry,
        final(b).state.connection_state == end,
        final(b).client_version is None,
        final(b).mount_registry == old(b).mount_registry,
        final(c).client_version == Some(version),
        final(c).state.connection_state == old(c).state.connection_state,
        final(c).mount_registry == old(c).mount_registry,
{
}

/// Mounts are known as the server reports them and rank as the user has put them; a new order leaves them
/// known.
pub proof fn law_mounts_are_refreshed(
    a: &mut MpdWrapper,
    mounts: Vec<Mount>,
    order: Vec<String>,
    b: &mut MpdWrapper,
)
    requires
        call_ensures(MpdWrapper::refresh_mounts, (a, mounts, order), ()),
        call_ensures(MpdWrapper::reload_mount_priority, (b, order), ()),
        forall|i: int| 0 <= i < mounts@.len() ==> (#[trigger] mounts@[i]).name@.len() > 0,
    ensures
        final(a).mount_registry.mounts() == mounts@,
        final(a).mount_registry.order() == order@,
        final(a).state == old(a).state,
        final(b).mount_registry.mounts() == old(b).mount_registry.mounts(),
        final(b).mount_registry.order() == order@,
        final(b).state == old(b).state,
{
    let keep = |m: Mount| m.name@.len() > 0;
    assert(final(a).mount_registry.mounts() == mounts@.filter(keep));
    lemma_all_kept(mounts@, keep);
}

proof fn lemma_all_kept(mounts: Seq<Mount>, keep: spec_fn(Mount) -> bool)
    requires
        forall|i: int| 0 <= i < mounts.len() ==> keep(#[trigger] mounts[i]),
    ensures
        mounts.filter(keep) == mounts,
    decreases mounts.len(),
{
    reveal(Seq::filter);
    if mounts.len() > 0 {
        lemma_all_kept(mounts.drop_last(), keep);
        assert(mounts.drop_last().push(mounts.last()) =~= mounts);
    } else {
        assert(mounts.filter(keep) =~= mounts);
    }
}

}
