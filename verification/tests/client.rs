use euphonica::client::adding::{add_multi, AddStep};
use euphonica::client::collect::{
    fresh_albums, fresh_artists, is_by, is_of_genre, named_artists, song_artists, songs_by,
    songs_of_genre,
};
use euphonica::client::connection::{
    build_comparator, cmp_options_nulls_last, reverse_cmp_options_nulls_last,
};
use euphonica::client::error::{Error, ErrorCode, MpdError};
use euphonica::client::mounts::{Mount, MountRegistry};
use euphonica::client::paging::{PageRule, Pager};
use euphonica::client::query::{Operation, Query, Term};
use euphonica::client::resolve::{
    accept_clock, accept_song, accept_stickers, accept_strings, accept_tags, arrange_songs, can_arrange,
    read_clock, relative_value, split_rules, split_rules_now, start_resolving, tag_types, take_first,
    ResolveRequest,
};
use euphonica::client::session::{
    answer_idle, connect_error, download_failure, image_source, max_retries, next_stage,
    ConnectStage, Connection, IdleAnswer, ImageSource, NextAction, Recovery,
};
use euphonica::client::song_cache::{is_end_of_queue, SongCache};
use euphonica::client::state::{
    handle_idle_changes, ClientState, ConnectionState, StickersSupportLevel, Subsystem,
};
use euphonica::client::sticker_search::{accept_reply, SearchRequest, StickerSearch};
use euphonica::client::wrapper::{
    album_query, album_window, artist_tag, pages_playlists, tag_part_query, tag_query,
    wake_channel_name, MpdWrapper, Version,
};
use euphonica::client::{get_past_unix_timestamp, past_timestamp, FETCH_LIMIT};
use euphonica::common::album::AlbumInfo;
use euphonica::common::artist::ArtistInfo;
use euphonica::common::date::Date;
use euphonica::common::distinct::{insert_all, insert_distinct, retain_common, DistinctStrings};
use euphonica::common::dynamic_playlist::{
    QueryClause, QueryLhs, Rule, SongOrder, StickerClause, StickerObjectType,
};
use euphonica::common::quality::QualityGrade;
use euphonica::common::song::{SongInfo, SongStickers};
use euphonica::common::sticker::Stickers;
use std::cmp::Ordering;

fn strings(xs: &[&str]) -> Vec<String> {
    xs.iter().map(|s| s.to_string()).collect()
}

fn album(title: &str) -> AlbumInfo {
    AlbumInfo {
        title: title.to_string(),
        folder_uri: String::new(),
        artists: Vec::new(),
        albumartist: None,
        release_date: None,
        mbid: None,
        mount_name: None,
        quality_grade: QualityGrade::Unknown,
        alternates: Vec::new(),
    }
}

fn artist(name: &str) -> ArtistInfo {
    ArtistInfo { name: name.to_string(), mbid: None }
}

fn song(uri: &str) -> SongInfo {
    let mut s = SongInfo::default();
    s.uri = uri.to_string();
    s
}

fn no_stickers() -> Stickers {
    Stickers { rating: None, play_count: None, skip_count: None, last_played: None, last_skipped: None }
}

fn refusal(code: ErrorCode, detail: &str) -> Error {
    Error::Mpd(MpdError::Server(code, detail.to_string()))
}

fn filters(q: &Query) -> Vec<(String, Operation, String)> {
    q.filters
        .iter()
        .map(|f| {
            let term = match &f.term {
                Term::Tag(tag) => tag.clone(),
                Term::Base => "base".to_string(),
                Term::AddedSince => "added-since".to_string(),
                Term::LastModified => "modified-since".to_string(),
                Term::File => "file".to_string(),
            };
            (term, f.op, f.value.clone())
        })
        .collect()
}

#[test]
fn mounts_are_classified_and_ranked() {
    let mut registry = MountRegistry::new();
    registry.set_known(vec![
        Mount { name: "".to_string(), storage: "/music".to_string() },
        Mount { name: "nas".to_string(), storage: "nfs://nas".to_string() },
        Mount { name: "usb".to_string(), storage: "/usb".to_string() },
    ]);
    assert_eq!(registry.known().len(), 2);
    registry.set_priority(strings(&["usb", "gone", "nas"]));
    assert_eq!(registry.priority().len(), 3);
    assert_eq!(registry.classify("nas/Rock/Album"), Some("nas"));
    assert_eq!(registry.classify("nas"), Some("nas"));
    assert_eq!(registry.classify("nasty/Album"), None);
    assert_eq!(registry.classify(""), None);
    assert_eq!(registry.rank(Some("usb")), 0);
    assert_eq!(registry.rank(Some("nas")), 2);
    assert_eq!(registry.rank(Some("other")), usize::MAX);
    assert_eq!(registry.rank(None), usize::MAX);
}

#[test]
fn the_longest_mount_holds_a_folder() {
    let mount = |name: &str| Mount { name: name.to_string(), storage: "s".to_string() };
    for names in [["nas", "nas/jazz"], ["nas/jazz", "nas"]] {
        let mut registry = MountRegistry::new();
        registry.set_known(names.iter().map(|n| mount(n)).collect());
        assert_eq!(registry.classify("nas/jazz/A"), Some("nas/jazz"));
        assert_eq!(registry.classify("nas/jazz"), Some("nas/jazz"));
        assert_eq!(registry.classify("nas/jazzy/A"), Some("nas"));
        assert_eq!(registry.classify("nas/rock/A"), Some("nas"));
        assert_eq!(registry.classify("na"), None);
        assert_eq!(registry.classify("/nas"), None);
    }
}

#[test]
fn mounts_are_equal_by_their_fields() {
    let a = Mount { name: "a".to_string(), storage: "x".to_string() };
    assert!(a == a.clone());
    assert!(a != Mount { name: "a".to_string(), storage: "y".to_string() });
}

#[test]
fn absent_values_compare_as_the_last() {
    let values = [Some(1u64), Some(2), None];
    for a in &values {
        for b in &values {
            let r = cmp_options_nulls_last(a, b);
            assert_eq!(r, (a.is_none(), a).cmp(&(b.is_none(), b)));
            assert_eq!(cmp_options_nulls_last(b, a), r.reverse());
            let expected = if a.is_some() && b.is_some() { r.reverse() } else { r };
            assert_eq!(reverse_cmp_options_nulls_last(a, b), expected);
        }
    }
}

#[test]
fn single_uri_is_added_or_inserted() {
    assert!(add_multi(Vec::new(), false, None).is_empty());
    let steps = add_multi(strings(&["a"]), false, None);
    assert!(matches!(&steps[..], [AddStep::Add(uri)] if uri == "a"));
    let steps = add_multi(strings(&["a"]), false, Some(3));
    assert!(matches!(&steps[..], [AddStep::Insert(uri, 3)] if uri == "a"));
    let steps = add_multi(strings(&["dir"]), true, None);
    match &steps[..] {
        [AddStep::FindAdd(q)] => {
            assert_eq!(filters(q), vec![("base".to_string(), Operation::Equals, "dir".to_string())])
        }
        _ => panic!(),
    }
}

#[test]
fn many_uris_come_in_batches() {
    let uris: Vec<String> = (0..300).map(|i| i.to_string()).collect();
    let steps = add_multi(uris.clone(), false, Some(5));
    let mut queue: Vec<String> = (0..10).map(|i| format!("old {i}")).collect();
    let mut wanted = queue.clone();
    wanted.splice(5..5, uris.clone());
    for step in &steps {
        match step {
            AddStep::InsertMultiple(batch, 5) => {
                queue.splice(5..5, batch.clone());
            }
            _ => panic!(),
        }
    }
    assert_eq!(steps.len(), 3);
    assert_eq!(queue, wanted);
    let steps = add_multi(uris, true, None);
    assert!(matches!(&steps[0], AddStep::AddMultiple(batch) if batch.len() == 128));
}

#[test]
fn pages_follow_their_rules() {
    let mut p = Pager::new(PageRule::UntilEmpty);
    assert_eq!(p.request(), Some((0, 128)));
    p.accept(5);
    assert_eq!(p.request(), Some((128, 256)));
    p.accept(0);
    assert_eq!(p.request(), None);

    let mut p = Pager::new(PageRule::UntilShort);
    p.accept(128);
    assert_eq!(p.request(), Some((128, 256)));
    p.accept(127);
    assert_eq!(p.request(), None);

    let mut p = Pager::new(PageRule::UpTo(200));
    p.accept(0);
    assert_eq!(p.request(), Some((128, 256)));
    p.accept(128);
    assert_eq!(p.request(), None);

    let mut p = Pager::new(PageRule::UntilEmpty);
    p.finish();
    assert_eq!(p.request(), None);
}

#[test]
fn retries_run_out() {
    assert_eq!(max_retries(true), 3);
    assert_eq!(max_retries(false), 0);
    let mut c = Connection::new(true, 3);
    assert!(matches!(c.require_client(), Err(Error::NotConnected)));
    c.handle_connect(true);
    assert!(c.require_client().is_ok());
    for _ in 0..3 {
        assert_eq!(c.handle_failure(&Error::Mpd(MpdError::Io)), Recovery::Reconnect);
        assert!(!c.connected);
        c.handle_connect(false);
    }
    assert_eq!(c.handle_failure(&Error::NotConnected), Recovery::GiveUp);
    c.handle_connect(true);
    assert_eq!(c.retries_left, 3);
    assert_eq!(c.handle_failure(&refusal(ErrorCode::NoExist, "")), Recovery::GiveUp);
    assert!(c.connected);
}

#[test]
fn only_a_listening_connection_idles() {
    let mut c = Connection::new(true, 3);
    assert_eq!(c.next_action(false), NextAction::TakeTask);
    c.handle_connect(true);
    assert_eq!(c.next_action(false), NextAction::Idle);
    assert_eq!(c.next_action(true), NextAction::TakeTask);
    assert!(!c.handle_disconnect(false, true));
    assert!(!c.connected);
    assert!(c.handle_disconnect(true, true));
    assert_eq!(answer_idle(Subsystem::Message), IdleAnswer::ReadMessages);
    assert_eq!(answer_idle(Subsystem::Queue), IdleAnswer::Forward);
}

#[test]
fn each_stage_of_connecting_has_its_error() {
    assert!(matches!(connect_error(ConnectStage::OpenSocket, MpdError::Io), Error::Socket));
    assert!(matches!(connect_error(ConnectStage::OpenTcp, MpdError::Io), Error::Tcp));
    assert!(matches!(
        connect_error(ConnectStage::ReadPassword, MpdError::Io),
        Error::CredentialStore
    ));
    assert!(matches!(
        connect_error(ConnectStage::LogIn, MpdError::Parse),
        Error::Mpd(MpdError::Parse)
    ));
    assert_eq!(next_stage(ConnectStage::OpenTcp, false), Some(ConnectStage::Greet));
    assert_eq!(next_stage(ConnectStage::ReadPassword, true), Some(ConnectStage::LogIn));
    assert_eq!(next_stage(ConnectStage::ReadPassword, false), Some(ConnectStage::Subscribe));
    assert_eq!(next_stage(ConnectStage::Subscribe, true), None);
}

#[test]
fn images_are_downloaded_unless_both_are_stored() {
    assert!(matches!(
        image_source(Some("a".to_string()), Some("b".to_string())),
        ImageSource::Stored(_, _)
    ));
    assert!(matches!(image_source(Some("a".to_string()), None), ImageSource::Download));
    assert!(download_failure(MpdError::Proto(true)).is_ok());
    assert!(download_failure(MpdError::Proto(false)).is_err());
    assert!(download_failure(MpdError::Server(ErrorCode::NoExist, String::new())).is_ok());
    assert!(download_failure(MpdError::Io).is_err());
}

fn client_state() -> ClientState {
    ClientState {
        connection_state: ConnectionState::Connected,
        stickers_support_level: StickersSupportLevel::All,
        supports_playlists: true,
    }
}

#[test]
fn errors_change_what_is_known_of_the_server() {
    let mut s = client_state();
    s.handle_error(&refusal(ErrorCode::NoExist, ""));
    assert_eq!(s.connection_state, ConnectionState::Connected);
    s.handle_error(&refusal(ErrorCode::Password, ""));
    assert_eq!(s.connection_state, ConnectionState::WrongPassword);
    s.handle_error(&refusal(ErrorCode::Permission, ""));
    assert_eq!(s.connection_state, ConnectionState::Unauthenticated);
    s.handle_error(&Error::Mpd(MpdError::Io));
    assert_eq!(s.connection_state, ConnectionState::NotConnected);

    s.handle_connect_error(Some(&Error::Socket));
    assert_eq!(s.connection_state, ConnectionState::SocketNotFound);
    s.handle_connect_error(Some(&Error::Tcp));
    assert_eq!(s.connection_state, ConnectionState::ConnectionRefused);
    s.handle_connect_error(Some(&Error::CredentialStore));
    assert_eq!(s.connection_state, ConnectionState::CredentialStoreError);
    s.handle_connect_error(None);
    assert_eq!(s.connection_state, ConnectionState::NotConnected);

    s.handle_sticker_error(&refusal(ErrorCode::Argument, ""));
    assert_eq!(s.stickers_support_level, StickersSupportLevel::SongsOnly);
    assert!(s.check_stickers("song").is_ok());
    assert!(matches!(
        s.check_stickers("playlist"),
        Err(Error::InsufficientStickersSupportLevel)
    ));
    s.handle_sticker_error(&refusal(ErrorCode::UnknownCmd, ""));
    assert_eq!(s.stickers_support_level, StickersSupportLevel::Disabled);
    assert!(s.check_stickers("song").is_err());
}

#[test]
fn sticker_support_is_probed() {
    let mut s = client_state();
    s.set_probed_level(23, Some(ErrorCode::UnknownCmd));
    assert_eq!(s.stickers_support_level, StickersSupportLevel::Disabled);
    s.set_probed_level(23, Some(ErrorCode::NoExist));
    assert_eq!(s.stickers_support_level, StickersSupportLevel::SongsOnly);
    s.set_probed_level(24, Some(ErrorCode::Argument));
    assert_eq!(s.stickers_support_level, StickersSupportLevel::SongsOnly);
    s.set_probed_level(24, None);
    assert_eq!(s.stickers_support_level, StickersSupportLevel::All);
    let plan = handle_idle_changes(Subsystem::Mount);
    assert!(plan.refresh_mounts);
    assert!(!handle_idle_changes(Subsystem::Player).refresh_mounts);
}

#[test]
fn errors_name_their_codes() {
    assert_eq!(refusal(ErrorCode::Exist, "x").code(), Some(ErrorCode::Exist));
    assert_eq!(Error::Socket.code(), None);
    assert!(Error::NotConnected.is_connection_lost());
    assert!(Error::Mpd(MpdError::Io).is_connection_lost());
    assert!(!Error::Internal.is_connection_lost());
}

#[test]
fn songs_of_the_queue_are_cached() {
    let mut cache = SongCache::new();
    let mut a = song("a.flac");
    a.queue_id = Some(7);
    let stray = song("b.flac");
    let kept = cache.store_page(vec![a, stray]);
    assert_eq!(kept.len(), 1);
    let found = cache.lookup(7, 3).unwrap();
    assert_eq!(found.uri, "a.flac");
    assert_eq!(found.queue_pos, Some(3));
    assert!(cache.lookup(8, 0).is_none());

    let fetched = cache.adopt(8, 4, Some(song("c.flac")));
    assert_eq!(fetched.uri, "c.flac");
    assert_eq!(cache.lookup(8, 1).unwrap().uri, "c.flac");
    let blank = cache.adopt(9, 5, None);
    assert_eq!((blank.queue_id, blank.queue_pos), (Some(9), Some(5)));
    assert!(cache.lookup(9, 5).is_none());

    cache.clear();
    assert!(cache.lookup(7, 0).is_none());
}

#[test]
fn the_song_used_longest_ago_is_forgotten() {
    let mut cache = SongCache::new();
    for id in 0..16384u32 {
        cache.adopt(id, id, Some(song(&id.to_string())));
    }
    assert!(cache.lookup(0, 0).is_some());
    cache.adopt(20000, 0, Some(song("new")));
    assert!(cache.lookup(1, 0).is_none());
    assert!(cache.lookup(0, 0).is_some());
    assert!(cache.lookup(20000, 0).is_some());
}

#[test]
fn end_of_queue_is_told_from_other_errors() {
    assert!(is_end_of_queue(&refusal(ErrorCode::Argument, "Bad song index")));
    assert!(!is_end_of_queue(&refusal(ErrorCode::Argument, "Bad")));
    assert!(!is_end_of_queue(&Error::NotConnected));
}

#[test]
fn sticker_search_of_songs_takes_every_page() {
    let mut search = StickerSearch::new(&StickerObjectType::Song, true);
    assert!(matches!(search.request(), SearchRequest::Names(0, 128)));
    search = accept_reply(search, strings(&["a", "b"]));
    assert!(matches!(search.request(), SearchRequest::Names(128, 256)));
    search = accept_reply(search, Vec::new());
    assert!(search.is_done());
    assert!(matches!(search.request(), SearchRequest::Done));
    assert_eq!(search.into_found(), strings(&["a", "b"]));
}

#[test]
fn sticker_search_resolves_playlists_and_tags() {
    let mut search = StickerSearch::new(&StickerObjectType::Playlist, false);
    search = accept_reply(search, strings(&["one", "two"]));
    assert!(matches!(search.request(), SearchRequest::Playlist("one")));
    search = accept_reply(search, strings(&["a"]));
    assert!(matches!(search.request(), SearchRequest::Playlist("two")));
    search = accept_reply(search, strings(&["b"]));
    assert!(matches!(search.request(), SearchRequest::Names(128, 256)));
    search = accept_reply(search, Vec::new());
    assert_eq!(search.into_found(), strings(&["a", "b"]));

    let mut search = StickerSearch::new(&StickerObjectType::Playlist, true);
    search = accept_reply(search, strings(&["one"]));
    assert!(matches!(search.request(), SearchRequest::PlaylistRange("one", 0, 128)));

    let mut search = StickerSearch::new(&StickerObjectType::Tag("album".to_string()), true);
    search = accept_reply(search, strings(&["Blue"]));
    assert!(matches!(search.request(), SearchRequest::TagValue("Blue", 0, 128)));
    search = accept_reply(search, strings(&["a"]));
    assert!(matches!(search.request(), SearchRequest::TagValue("Blue", 128, 256)));
    search = accept_reply(search, Vec::new());
    assert!(matches!(search.request(), SearchRequest::Names(128, 256)));
}

fn clause(object: StickerObjectType, key: &str, rhs: &str) -> StickerClause {
    StickerClause { object, key: key.to_string(), op: "gt".to_string(), rhs: rhs.to_string() }
}

#[test]
fn rules_are_split_by_what_they_are_about() {
    let rules = vec![
        Rule::Sticker(clause(StickerObjectType::Song, "rating", "4")),
        Rule::Query(QueryClause {
            lhs: QueryLhs::Other(Term::Tag("genre".to_string()), Operation::Contains),
            rhs: "Rock".to_string(),
        }),
        Rule::LastModified(100),
    ];
    let (query, clauses) = split_rules(rules, 1000).unwrap();
    assert_eq!(
        filters(&query),
        vec![
            ("genre".to_string(), Operation::Contains, "Rock".to_string()),
            ("modified-since".to_string(), Operation::Equals, "900".to_string()),
        ]
    );
    assert_eq!(clauses.len(), 1);

    let (query, clauses) = split_rules(Vec::new(), 0).unwrap();
    assert_eq!(filters(&query)[0].0, "added-since");
    assert!(clauses.is_empty());
    assert!(split_rules(vec![Rule::LastModified(i64::MAX)], i64::MIN).is_none());
}

#[test]
fn moments_are_relative_to_now() {
    assert_eq!(relative_value("60", 1000), Some("940".to_string()));
    assert_eq!(relative_value("x", 1000), None);
    assert_eq!(relative_value("1", i64::MIN), None);
    assert_eq!(past_timestamp(10, 3), Some(7));
    assert_eq!(past_timestamp(i64::MIN, 1), None);
    assert!(get_past_unix_timestamp(i64::MAX / 2).is_some());
    assert!(get_past_unix_timestamp(i64::MIN / 2).is_some());
    assert!(get_past_unix_timestamp(i64::MIN).is_none());
    let then = get_past_unix_timestamp(60).unwrap();
    let now = get_past_unix_timestamp(0).unwrap();
    assert!(now - then >= 60);
}

#[test]
fn tags_are_asked_for_as_needed() {
    assert_eq!(
        tag_types(&vec![SongOrder::Track, SongOrder::AscReleaseDate, SongOrder::AscRating]),
        vec!["title", "album", "artist", "albumartist", "track", "originaldate"]
    );
}

#[test]
fn playlist_is_resolved_step_by_step() {
    let clauses = vec![
        clause(StickerObjectType::Song, "rating", "4"),
        clause(StickerObjectType::Song, "lastPlayed", "60"),
    ];
    let mut state = start_resolving(clauses, true);
    assert!(matches!(state.request(), ResolveRequest::ClearTags));
    state = accept_tags(state);
    assert!(matches!(state.request(), ResolveRequest::Find(0, 128)));
    state = accept_strings(state, strings(&["a", "b", "a", "c"]));
    assert!(matches!(state.request(), ResolveRequest::Find(128, 256)));
    state = accept_strings(state, Vec::new());
    match state.request() {
        ResolveRequest::Search(c, "4", SearchRequest::Names(0, 128)) => assert_eq!(c.key, "rating"),
        _ => panic!(),
    }
    state = accept_strings(state, strings(&["c", "b", "z"]));
    state = accept_strings(state, Vec::new());
    assert!(matches!(state.request(), ResolveRequest::Clock));
    state = accept_clock(state, 1000).unwrap();
    assert!(matches!(state.request(), ResolveRequest::Search(_, "940", _)));
    state = accept_strings(state, strings(&["b", "c"]));
    state = accept_strings(state, Vec::new());
    assert!(matches!(state.request(), ResolveRequest::EnableTags));
    state = accept_tags(state);
    assert!(matches!(state.request(), ResolveRequest::Song("b")));
    state = accept_song(state, Some(song("b")));
    assert!(matches!(state.request(), ResolveRequest::Stickers("b")));
    state = accept_stickers(state, no_stickers());
    assert!(matches!(state.request(), ResolveRequest::Song("c")));
    state = accept_song(state, None);
    assert!(matches!(state.request(), ResolveRequest::Collected));
    let songs = state.into_songs();
    assert_eq!(songs.len(), 1);
    assert_eq!(songs[0].0.uri, "b");
}

#[test]
fn playlist_ends_early_where_nothing_is_left() {
    let mut state = start_resolving(vec![clause(StickerObjectType::Song, "rating", "4")], true);
    state = accept_tags(state);
    state = accept_strings(state, strings(&["a"]));
    state = accept_strings(state, Vec::new());
    state = accept_strings(state, Vec::new());
    assert!(matches!(state.request(), ResolveRequest::Empty));
}

fn rated(uri: &str, rating: Option<i8>) -> SongStickers {
    let mut stickers = no_stickers();
    stickers.rating = rating;
    (song(uri), stickers)
}

fn uris(songs: &[SongInfo]) -> Vec<&str> {
    songs.iter().map(|s| s.uri.as_str()).collect()
}

#[test]
fn songs_are_arranged_and_cut_off() {
    let songs = || {
        vec![rated("a", Some(2)), rated("b", None), rated("c", Some(8)), rated("d", Some(2))]
    };
    let by_rating = arrange_songs(songs(), &vec![SongOrder::AscRating], None);
    assert_eq!(uris(&by_rating), vec!["a", "d", "c", "b"]);
    let best = arrange_songs(songs(), &vec![SongOrder::DescRating], Some(2));
    assert_eq!(uris(&best), vec!["c", "a"]);
    let first = take_first(songs(), Some(1));
    assert_eq!(uris(&first), vec!["a"]);
    assert!(can_arrange(&songs(), &vec![SongOrder::Random]));
    assert!(!can_arrange(&songs(), &vec![SongOrder::Random, SongOrder::Track]));
    let shuffled = arrange_songs(songs(), &vec![SongOrder::Random], None);
    let mut names = uris(&shuffled);
    names.sort();
    assert_eq!(names, vec!["a", "b", "c", "d"]);
}

#[test]
fn shuffling_changes_the_order() {
    let songs: Vec<SongStickers> = (0..200).map(|i| rated(&i.to_string(), None)).collect();
    let before: Vec<String> = songs.iter().map(|s| s.0.uri.clone()).collect();
    let after = arrange_songs(songs, &vec![SongOrder::Random], None);
    let after: Vec<String> = after.into_iter().map(|s| s.uri).collect();
    assert_ne!(before, after);
}

#[test]
fn comparators_take_the_first_criterion_that_tells() {
    let mut a = rated("a", Some(1));
    let mut b = rated("b", Some(1));
    a.0.track = Some(2);
    let c = build_comparator(&[SongOrder::AscRating, SongOrder::Track]);
    assert_eq!(c.compare(&a, &b), Ordering::Less);
    assert_eq!(c.compare(&b, &a), Ordering::Greater);
    let mixed = build_comparator(&[SongOrder::Track, SongOrder::Random]);
    assert!(!mixed.needs_chance(&a, &b));
    assert_eq!(mixed.compare(&a, &b), Ordering::Less);
    assert!(mixed.needs_chance(&a, &a));
    b.0.track = Some(1);
    assert_eq!(c.compare(&a, &b), Ordering::Greater);
    a.0.album = Some(album("A"));
    assert_eq!(build_comparator(&[SongOrder::DescAlbumTitle]).compare(&a, &b), Ordering::Less);
    b.0.album = Some(album("B"));
    assert_eq!(build_comparator(&[SongOrder::DescAlbumTitle]).compare(&a, &b), Ordering::Greater);
    a.0.release_date = Some(Date { year: 2000, month: 1, day: 2 });
    b.0.release_date = Some(Date { year: 2000, month: 1, day: 1 });
    assert_eq!(build_comparator(&[SongOrder::AscReleaseDate]).compare(&a, &b), Ordering::Greater);
    a.1.play_count = Some(3);
    b.1.play_count = Some(3);
    assert_eq!(build_comparator(&[SongOrder::DescPlayCount]).compare(&a, &b), Ordering::Equal);
}

#[test]
fn queries_name_what_they_look_for() {
    let q = album_query("Blue", Some("Joni"), Some("id"));
    assert_eq!(
        filters(&q),
        vec![
            ("album".to_string(), Operation::Equals, "Blue".to_string()),
            ("albumartist".to_string(), Operation::Equals, "Joni".to_string()),
            ("musicbrainz_albumid".to_string(), Operation::Equals, "id".to_string()),
        ]
    );
    assert_eq!(filters(&album_query("Blue", None, None)).len(), 1);
    assert_eq!(album_window(true), (0, FETCH_LIMIT as u32));
    assert_eq!(album_window(false), (0, 1));
    assert_eq!(artist_tag(true), "albumartist");
    assert_eq!(artist_tag(false), "artist");
    assert_eq!(filters(&tag_query("genre", "Rock"))[0].1, Operation::Equals);
    assert_eq!(filters(&tag_part_query("genre", "Rock"))[0].1, Operation::Contains);
}

#[test]
fn wrapper_follows_the_connection() {
    let mut w = MpdWrapper::new(client_state());
    assert!(matches!(w.playlist_paging(), Err(Error::NotConnected)));
    assert!(!pages_playlists(Version { major: 0, minor: 23, patch: 5 }));
    assert!(pages_playlists(Version { major: 0, minor: 24, patch: 0 }));
    w.accept_version(Version { major: 0, minor: 23, patch: 5 }, None);
    assert!(matches!(w.playlist_paging(), Ok(None)));
    w.accept_version(Version { major: 0, minor: 24, patch: 0 }, None);
    assert!(matches!(w.playlist_paging(), Ok(Some(PageRule::UntilShort))));
    w.handle_connected();
    assert_eq!(w.state.connection_state, ConnectionState::Connected);
    w.refresh_mounts(
        vec![Mount { name: "nas".to_string(), storage: "x".to_string() }],
        strings(&["nas"]),
    );
    assert_eq!(w.mounts().known().len(), 1);
    w.reload_mount_priority(Vec::new());
    assert_eq!(w.mounts().rank(Some("nas")), usize::MAX);
    w.handle_disconnected(ConnectionState::NotConnected);
    assert_eq!(w.state.connection_state, ConnectionState::NotConnected);
}

#[test]
fn albums_of_songs_without_telling_copies_apart() {
    let w = MpdWrapper::new(client_state());
    let mut s = song("x/a.flac");
    s.album = Some(album("Blue"));
    let infos = w.album_infos(vec![s, song("y")], false);
    assert_eq!(infos.len(), 1);
    assert_eq!(infos[0].title, "Blue");
    assert!(w.album_infos(vec![song("y")], false).is_empty());
    assert!(w.album_infos(Vec::new(), false).is_empty());
}

#[test]
fn strings_are_kept_once() {
    let list = insert_all(DistinctStrings::new(), strings(&["a", "b", "a"]));
    assert!(list.contains("a") && !list.contains("c"));
    let (list, new) = insert_distinct(list, "c".to_string());
    assert!(new);
    let (list, new) = insert_distinct(list, "b".to_string());
    assert!(!new);
    let other = insert_all(DistinctStrings::new(), strings(&["c", "a", "x"]));
    let common = retain_common(list, &other);
    assert_eq!(common.strings(), &strings(&["a", "c"]));
    assert!(!common.is_empty());
    assert_eq!(common.into_strings(), strings(&["a", "c"]));
}

#[test]
fn artists_and_albums_come_up_once() {
    let (seen, first) = fresh_artists(DistinctStrings::new(), vec![artist("A"), artist("A")]);
    assert_eq!(first.len(), 1);
    let (_, second) = fresh_artists(seen, vec![artist("A"), artist("B")]);
    assert_eq!(second.len(), 1);
    assert_eq!(second[0].name, "B");
    let names = insert_all(DistinctStrings::new(), strings(&["B"]));
    assert_eq!(named_artists(vec![artist("A"), artist("B")], &names).len(), 1);

    let mut s = song("a");
    s.album = Some(album("Blue"));
    s.artists = vec![artist("A")];
    s.genres = strings(&["Rock"]);
    let (_, albums) = fresh_albums(DistinctStrings::new(), &vec![s.clone(), s.clone()]);
    assert_eq!(albums.len(), 1);
    assert!(is_by(&s, "A") && !is_by(&s, "B"));
    assert!(is_of_genre(&s, "Rock") && !is_of_genre(&s, "Pop"));
    assert_eq!(songs_by(vec![s.clone(), song("b")], "A").len(), 1);
    assert_eq!(songs_of_genre(vec![s.clone(), song("b")], "Rock").len(), 1);
    assert_eq!(song_artists(vec![s]).len(), 1);
}

#[test]
fn the_clock_is_read_for_relative_rules() {
    let (query, _) = split_rules_now(vec![Rule::LastModified(60)]).unwrap();
    let then: i64 = filters(&query)[0].2.parse().unwrap();
    let now = get_past_unix_timestamp(0).unwrap();
    assert!(then <= now - 60 && then > now - 600);

    let mut state =
        start_resolving(vec![clause(StickerObjectType::Song, "lastPlayed", "60")], true);
    state = accept_tags(state);
    state = accept_strings(state, strings(&["a"]));
    state = accept_strings(state, Vec::new());
    state = read_clock(state).unwrap();
    match state.request() {
        ResolveRequest::Search(_, rhs, _) => {
            let then: i64 = rhs.parse().unwrap();
            assert!(then <= now - 59 && then > now - 600);
        }
        _ => panic!(),
    }
}

#[test]
fn channels_have_names_of_their_own() {
    assert_ne!(wake_channel_name(), wake_channel_name());
    assert_eq!(wake_channel_name().len(), 32);
}

#[test]
fn playlists_may_not_be_supported() {
    let mut s = client_state();
    s.handle_playlist_error(&Error::NotConnected);
    assert!(s.supports_playlists);
    s.handle_playlist_error(&refusal(ErrorCode::System, "stored playlists are disabled"));
    assert!(!s.supports_playlists);
}
