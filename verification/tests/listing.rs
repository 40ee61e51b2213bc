use euphonica::client::connecting::{ConnectEvent, ConnectStep};
use euphonica::client::error::{Error, ErrorCode, MpdError};
use euphonica::client::listing::{
    AlbumListing, ArtistListing, ChangesRequest, QueueChanges, QueuePages,
};
use euphonica::client::mounts::Mount;
use euphonica::client::query::{Query, Term};
use euphonica::client::song_cache::SongCache;
use euphonica::client::state::{ClientState, ConnectionState, StickersSupportLevel};
use euphonica::client::wrapper::{MpdWrapper, Version};
use euphonica::client::{BATCH_SIZE, FETCH_LIMIT};
use euphonica::common::album::AlbumInfo;
use euphonica::common::artist::ArtistInfo;
use euphonica::common::quality::QualityGrade;
use euphonica::common::song::SongInfo;

fn client() -> MpdWrapper {
    MpdWrapper::new(ClientState {
        connection_state: ConnectionState::NotConnected,
        stickers_support_level: StickersSupportLevel::Disabled,
        supports_playlists: true,
    })
}

fn song(uri: &str, id: Option<u32>) -> SongInfo {
    let mut s = SongInfo::default();
    s.uri = uri.to_string();
    s.queue_id = id;
    s
}

fn album(title: &str) -> AlbumInfo {
    AlbumInfo {
        title: title.to_string(),
        folder_uri: String::new(),
        artists: Vec::new(),
        albumartist: None,
        release_date: None,
        mbid: None,
        mount_name: None,
        quality_grade: QualityGrade::Unknown,
        alternates: Vec::new(),
    }
}

fn conditions(query: &Query) -> Vec<(String, String)> {
    query
        .filters
        .iter()
        .map(|f| match &f.term {
            Term::Tag(tag) => (tag.clone(), f.value.clone()),
            _ => (String::new(), f.value.clone()),
        })
        .collect()
}

fn pair(a: &str, b: &str) -> (String, String) {
    (a.to_string(), b.to_string())
}

#[test]
fn albums_are_gone_through_in_order() {
    let groups = vec![
        ("A".to_string(), vec!["one".to_string(), "two".to_string()]),
        ("B".to_string(), vec!["three".to_string()]),
    ];
    let mut listing = AlbumListing::new(groups, false);
    let mut asked = Vec::new();
    let mut shown = Vec::new();
    while let Some((query, window)) = listing.request() {
        assert_eq!(window, (0, 1));
        asked.push(conditions(&query));
        let mut s = song("x/y.flac", None);
        s.album = Some(album(&asked.len().to_string()));
        let (next, infos) = listing.accept(vec![s], &client());
        listing = next;
        shown.extend(infos.into_iter().map(|i| i.title));
    }
    assert_eq!(
        asked,
        vec![
            vec![pair("album", "one"), pair("albumartist", "A")],
            vec![pair("album", "two"), pair("albumartist", "A")],
            vec![pair("album", "three"), pair("albumartist", "B")],
        ]
    );
    assert_eq!(shown, vec!["1", "2", "3"]);
    let apart = AlbumListing::new(vec![("A".to_string(), vec!["one".to_string()])], true);
    assert_eq!(apart.request().unwrap().1, (0, FETCH_LIMIT as u32));
    let (done, infos) = apart.accept(Vec::new(), &client());
    assert!(infos.is_empty());
    assert!(done.request().is_none());
}

fn song_by(names: &[&str]) -> SongInfo {
    let mut s = song("x.flac", None);
    s.artists = names
        .iter()
        .map(|n| ArtistInfo { name: n.to_string(), mbid: None })
        .collect();
    s
}

#[test]
fn artists_come_once() {
    let names = vec!["A".to_string(), "A; B".to_string(), "C".to_string()];
    let listing = ArtistListing::new(true, names);
    assert_eq!(conditions(&listing.request().unwrap()), vec![pair("albumartist", "A")]);
    let (listing, found) = listing.accept(vec![song_by(&["A"])]);
    assert_eq!(found.len(), 1);
    assert_eq!(conditions(&listing.request().unwrap()), vec![pair("albumartist", "A; B")]);
    let (listing, found) = listing.accept(vec![song_by(&["A", "B"])]);
    assert_eq!(found.iter().map(|a| a.name.as_str()).collect::<Vec<_>>(), vec!["B"]);
    let (listing, found) = listing.accept(Vec::new());
    assert!(found.is_empty());
    assert!(listing.request().is_none());
}

#[test]
fn recent_artists_are_those_that_are_named() {
    let listing = ArtistListing::recent(vec!["B".to_string()]);
    assert_eq!(conditions(&listing.request().unwrap()), vec![pair("artist", "B")]);
    let (listing, found) = listing.accept(vec![song_by(&["A", "B"])]);
    assert_eq!(found.iter().map(|a| a.name.as_str()).collect::<Vec<_>>(), vec!["B"]);
    assert!(listing.request().is_none());
}

#[test]
fn the_queue_ends_with_an_empty_page_or_an_error() {
    let mut cache = SongCache::new();
    let pages = QueuePages::new(&mut cache);
    assert_eq!(pages.request(), Some((0, BATCH_SIZE as u32)));
    let page = vec![song("a", Some(1)), song("b", None)];
    let (pages, songs) = pages.accept(Ok(page), &mut cache);
    assert_eq!(songs.unwrap().len(), 1);
    assert_eq!(pages.request(), Some((BATCH_SIZE as u32, 2 * BATCH_SIZE as u32)));
    assert_eq!(cache.lookup(1, 7).unwrap().queue_pos, Some(7));
    let end = Error::Mpd(MpdError::Server(ErrorCode::Argument, "Bad song index".to_string()));
    let (pages, songs) = pages.accept(Err(end), &mut cache);
    assert!(songs.unwrap().is_empty());
    assert!(pages.request().is_none());
    let pages = QueuePages::new(&mut cache);
    assert!(cache.lookup(1, 7).is_none());
    let (pages, songs) = pages.accept(Err(Error::NotConnected), &mut cache);
    assert!(matches!(songs, Err(Error::NotConnected)));
    let (pages, songs) = pages.accept(Ok(Vec::new()), &mut cache);
    assert!(songs.unwrap().is_empty());
    assert!(pages.request().is_none());
}

#[test]
fn changes_become_songs_in_order() {
    let mut cache = SongCache::new();
    let _ = cache.store_page(vec![song("a", Some(1)), song("c", Some(3))]);
    let fetch = QueueChanges::new(10);
    assert_eq!(fetch.request(), ChangesRequest::Page(0, BATCH_SIZE as u32));
    let (fetch, songs) = fetch.accept_page(vec![(4, 1), (5, 2), (6, 3), (7, 9)], &mut cache);
    assert!(songs.is_none());
    assert_eq!(fetch.request(), ChangesRequest::Song(2));
    let (fetch, songs) = fetch.accept_song(Some(song("b", Some(2))), &mut cache);
    assert!(songs.is_none());
    assert_eq!(fetch.request(), ChangesRequest::Song(9));
    let (fetch, songs) = fetch.accept_song(None, &mut cache);
    let songs = songs.unwrap();
    let uris: Vec<&str> = songs.iter().map(|s| s.uri.as_str()).collect();
    assert_eq!(uris, vec!["a", "b", "c", ""]);
    assert_eq!(songs[0].queue_pos, Some(4));
    assert_eq!(songs[2].queue_pos, Some(6));
    assert_eq!((songs[3].queue_id, songs[3].queue_pos), (Some(9), Some(7)));
    assert_eq!(fetch.request(), ChangesRequest::Done);
    assert_eq!(cache.lookup(2, 0).unwrap().uri, "b");
    let fetch = QueueChanges::new(200);
    let (fetch, songs) = fetch.accept_page(Vec::new(), &mut cache);
    assert!(songs.is_none());
    assert_eq!(
        fetch.request(),
        ChangesRequest::Page(BATCH_SIZE as u32, 2 * BATCH_SIZE as u32)
    );
}

#[test]
fn connecting_goes_through_its_steps() {
    let mut c = client();
    let version = Version { major: 0, minor: 24, patch: 1 };
    let step = c.connect(ConnectStep::Disconnect, ConnectEvent::Closed(true)).unwrap();
    assert_eq!(step, Some(ConnectStep::Foreground));
    assert_eq!(c.state.connection_state, ConnectionState::Connecting);
    let step = c.connect(ConnectStep::Foreground, ConnectEvent::Opened(Ok(version))).unwrap();
    assert_eq!(step, Some(ConnectStep::Probe(version)));
    assert_eq!(c.state.connection_state, ConnectionState::NotConnected);
    assert!(c.client_version.is_none());
    let probed = ConnectEvent::Probed(Some(ErrorCode::NoExist));
    let step = c.connect(ConnectStep::Probe(version), probed).unwrap();
    assert_eq!(step, Some(ConnectStep::Background));
    assert_eq!(c.state.stickers_support_level, StickersSupportLevel::All);
    assert_eq!(c.client_version, Some(version));
    let step = c.connect(ConnectStep::Background, ConnectEvent::Opened(Ok(version))).unwrap();
    assert_eq!(step, Some(ConnectStep::Mounts));
    assert_eq!(c.state.connection_state, ConnectionState::Connected);
    let root = Mount { name: String::new(), storage: "/music".to_string() };
    let nas = Mount { name: "nas".to_string(), storage: "nfs://nas".to_string() };
    let listed = ConnectEvent::Listed(Some((vec![root, nas], vec!["nas".to_string()])));
    assert_eq!(c.connect(ConnectStep::Mounts, listed).unwrap(), None);
    assert_eq!(c.mounts().known().len(), 1);
    assert_eq!(c.mounts().rank(Some("nas")), 0);
}

#[test]
fn a_failed_connection_ends_the_steps() {
    let mut c = client();
    let step = c.connect(ConnectStep::Disconnect, ConnectEvent::Closed(false)).unwrap();
    assert_eq!(step, Some(ConnectStep::Foreground));
    assert_eq!(c.state.connection_state, ConnectionState::NotConnected);
    let refused = c.connect(ConnectStep::Background, ConnectEvent::Opened(Err(Error::Tcp)));
    assert!(matches!(refused, Err(Error::Tcp)));
    assert_eq!(c.state.connection_state, ConnectionState::ConnectionRefused);
}
