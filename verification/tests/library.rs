use euphonica::client::adding::AddStep;
use euphonica::client::query::{Operation, Query, Term};
use euphonica::client::state::StickersSupportLevel;
use euphonica::client::SaveMode;
use euphonica::common::album::{AlbumCopy, AlbumInfo};
use euphonica::common::artist::ArtistInfo;
use euphonica::common::distinct::DistinctStrings;
use euphonica::common::quality::QualityGrade;
use euphonica::common::song::SongInfo;
use euphonica::common::sticker::StickerChange;
use euphonica::library::album_content_view::{
    album_for_action, album_genres, finish_article, has_alternates, name_or_placeholder,
    rating_from_stars, rating_is_visible, rating_readout, refresh_source_picker, source_label,
    start_article, AlbumContentView, Article, InfoBox,
};
use euphonica::library::artist_content_view::{artist_subview, ArtistContentView};
use euphonica::library::browse::{
    direction_icon, flip_direction, is_found, order_names, search_change, should_push_content,
    FilterChange, LazyList,
};
use euphonica::library::controller::{
    add_songs_to_playlist, album_songs_query, artist_query, genre_query, get_albums_by_genre,
    get_artist_content, get_artists_by_genre, insert_songs_next, queue_album, queue_artist,
    queue_cached_dynamic_playlist, queue_playlist, queue_songs, queue_uri, rate_album,
    save_dynamic_playlist_state, save_state_at, EditAction, Library, List, QueueRequest,
};
use euphonica::library::genre_content_view::{count_label, GenreContentView};
use euphonica::library::history::FolderHistory;
use euphonica::library::selection::{
    choose_songs, fetched_state, runtime, selection_labels, ContentState,
};
use euphonica::utils::ListOrder;

fn words(xs: &[&str]) -> Vec<String> {
    xs.iter().map(|s| s.to_string()).collect()
}

fn album() -> AlbumInfo {
    AlbumInfo {
        title: "Blue".to_string(),
        folder_uri: "usb/Blue".to_string(),
        artists: Vec::new(),
        albumartist: Some("Joni".to_string()),
        release_date: None,
        mbid: None,
        mount_name: Some("usb".to_string()),
        quality_grade: QualityGrade::CD,
        alternates: vec![AlbumCopy {
            folder_uri: "nas/Blue".to_string(),
            mount_name: None,
            quality_grade: QualityGrade::Lossy,
        }],
    }
}

fn song(uri: &str) -> SongInfo {
    let mut s = SongInfo::default();
    s.uri = uri.to_string();
    s
}

fn tags(q: &Query) -> Vec<(String, Operation, String)> {
    q.filters
        .iter()
        .map(|f| match &f.term {
            Term::Tag(t) => (t.clone(), f.op, f.value.clone()),
            _ => panic!(),
        })
        .collect()
}

#[test]
fn songs_replace_the_queue_and_play() {
    let requests = queue_songs(words(&["a", "b"]), true, true);
    assert!(matches!(
        &requests[..],
        [
            QueueRequest::Clear,
            QueueRequest::Put(AddStep::AddMultiple(uris)),
            QueueRequest::PlayAt(0)
        ] if uris == &words(&["a", "b"])
    ));
    let requests = queue_songs(words(&["a"]), false, false);
    assert!(matches!(&requests[..], [QueueRequest::Put(AddStep::Add(_))]));
    let requests = insert_songs_next(words(&["a"]), Some(4));
    assert!(matches!(&requests[..], [QueueRequest::Put(AddStep::Insert(_, 5))]));
    let requests = insert_songs_next(words(&["a"]), None);
    assert!(matches!(&requests[..], [QueueRequest::Put(AddStep::Insert(_, 0))]));
}

#[test]
fn albums_and_artists_are_queued_by_query() {
    match &queue_album(&album(), true, true, Some(2))[..] {
        [QueueRequest::Clear, QueueRequest::FindAddSorted(q, "track"), QueueRequest::PlayAt(2)] => {
            assert_eq!(tags(q).len(), 2)
        }
        _ => panic!(),
    }
    let q = album_songs_query(&album());
    assert_eq!(
        tags(&q),
        vec![
            ("album".to_string(), Operation::Equals, "Blue".to_string()),
            ("albumartist".to_string(), Operation::Equals, "Joni".to_string()),
        ]
    );
    let mut with_id = album();
    with_id.mbid = Some("id".to_string());
    assert_eq!(tags(&album_songs_query(&with_id))[0].0, "musicbrainz_albumid");
    match &queue_artist("Joni", false, false, false)[..] {
        [QueueRequest::FindAdd(q)] => {
            assert_eq!(tags(q), vec![("artist".to_string(), Operation::Contains, "Joni".to_string())])
        }
        _ => panic!(),
    }
    assert!(matches!(
        &queue_uri("dir".to_string(), false, false, true)[..],
        [QueueRequest::Put(AddStep::FindAdd(_))]
    ));
    assert!(matches!(
        &queue_playlist("p".to_string(), true, false)[..],
        [QueueRequest::Clear, QueueRequest::Load(_)]
    ));
    assert!(matches!(
        &queue_cached_dynamic_playlist("p".to_string(), false, true)[..],
        [QueueRequest::AddCached(_), QueueRequest::PlayAt(0)]
    ));
    assert_eq!(tags(&artist_query("J"))[0].1, Operation::Contains);
    assert_eq!(tags(&genre_query("Rock"))[0].0, "genre");
}

#[test]
fn albums_are_rated() {
    let (kind, _, change) = rate_album(&album(), Some(8));
    assert!(!kind.is_empty());
    assert!(matches!(change, StickerChange::Write("rating", v, _) if v == "8"));
    assert_eq!(rating_readout(-1), "Unrated");
    assert_eq!(rating_readout(7), "3.5");
    assert_eq!(rating_readout(10), "5.0");
    assert_eq!(rating_from_stars(0), None);
    assert_eq!(rating_from_stars(3), Some(3));
    assert!(rating_is_visible(StickersSupportLevel::All));
    assert!(!rating_is_visible(StickersSupportLevel::SongsOnly));
}

#[test]
fn playlists_are_edited() {
    let edits = add_songs_to_playlist("p", &words(&["a"]), SaveMode::Replace);
    assert!(matches!(&edits[..], [EditAction::Clear(_), EditAction::Add(_, uri)] if uri == "a"));
    let edits = add_songs_to_playlist("p", &words(&["a"]), SaveMode::Append);
    assert_eq!(edits.len(), 1);
    let (name, edits) = save_state_at("mix", &words(&["a", "b"]), "2024-01-01 00:00:00").unwrap();
    assert_eq!(name, "mix 2024-01-01 00:00:00");
    assert_eq!(edits.len(), 2);
    assert!(save_state_at("mix", &Vec::new(), "now").is_none());
    let (name, _) = save_dynamic_playlist_state("mix", &words(&["a"])).unwrap();
    assert_eq!(name.len(), "mix 2024-01-01 00:00:00".len());
    assert!(name.starts_with("mix 2"));
    assert!(save_dynamic_playlist_state("mix", &Vec::new()).is_none());
}

#[test]
fn lists_are_fetched_once() {
    let mut library = Library::new();
    for list in [
        List::Recent,
        List::Playlists,
        List::DynPlaylists,
        List::Albums,
        List::Artists,
        List::Genres,
        List::FolderInodes,
    ] {
        assert!(library.init(list, false));
        assert!(!library.init(list, false));
    }
    library.clear();
    assert!(library.init(List::Albums, false));
}

#[test]
fn folders_are_walked_back_and_forth() {
    let mut h = FolderHistory::new();
    assert_eq!(h.folder_path(), "");
    h.navigate_to("nas");
    h.navigate_to("Rock");
    assert_eq!(h.folder_path(), "nas/Rock");
    assert!(h.folder_backward());
    assert_eq!(h.folder_path(), "nas");
    assert!(h.folder_forward());
    assert!(!h.folder_forward());
    assert!(h.folder_backward());
    h.navigate_to("Pop");
    assert_eq!(h.folder_path(), "nas/Pop");
    assert_eq!((h.folder_curr_idx(), h.folder_history_len()), (2, 2));
    h.clear();
    assert_eq!(h.folder_path(), "");
    assert!(!h.folder_backward());

    let mut library = Library::new();
    library.navigate_to("usb");
    assert_eq!(library.folder_path(), "usb");
    assert!(library.folder_backward());
    assert!(library.folder_forward());
}

#[test]
fn content_of_artists_and_genres_is_collected() {
    let mut s = song("a");
    s.artists = vec![ArtistInfo { name: "Joni".to_string(), mbid: None }];
    s.genres = words(&["Folk"]);
    s.album = Some(album());
    let (seen, albums, songs) =
        get_artist_content(DistinctStrings::new(), vec![s.clone(), song("b")], "Joni");
    assert_eq!((albums.len(), songs.len()), (1, 1));
    let (_, albums, songs) = get_artist_content(seen, vec![s.clone()], "Joni");
    assert_eq!((albums.len(), songs.len()), (0, 1));
    let (_, albums) = get_albums_by_genre(DistinctStrings::new(), vec![s.clone()], "Folk");
    assert_eq!(albums.len(), 1);
    let (_, artists) = get_artists_by_genre(DistinctStrings::new(), vec![s.clone(), s], "Folk");
    assert_eq!(artists.len(), 1);
}

#[test]
fn selections_are_labelled_and_acted_on() {
    let all = selection_labels(0, 9);
    assert!(all.selecting_all);
    assert_eq!(all.play, "Play all");
    assert_eq!(selection_labels(9, 9).queue, "Queue all");
    let some = selection_labels(2, 9);
    assert!(!some.selecting_all);
    assert_eq!(some.play, "Play 2");
    assert_eq!(some.queue, "Queue 2");
    assert_eq!(some.queue_next, "Queue 2 next");
    let songs = vec![song("a"), song("b"), song("c")];
    assert_eq!(choose_songs(&songs, false, &vec![0, 2]), words(&["a", "c"]));
    assert_eq!(choose_songs(&songs, true, &vec![0]), words(&["a", "b", "c"]));
    assert_eq!(fetched_state(0), ContentState::Placeholder);
    assert_eq!(fetched_state(1), ContentState::Content);
    let mut long = song("a");
    long.duration = Some(60);
    assert_eq!(runtime(&vec![long.clone(), song("b")]), Some(60));
    long.duration = Some(u64::MAX);
    assert_eq!(runtime(&vec![long.clone(), long]), None);
}

#[test]
fn page_of_an_album_switches_copies() {
    let mut v = AlbumContentView::new();
    assert!(!v.switch_to_copy("nas/Blue".to_string()));
    v.bind(album());
    assert_eq!(v.content, ContentState::Spinner);
    v.add_songs(vec![song("a")]);
    v.finish_songs(true);
    assert_eq!(v.content, ContentState::Content);
    assert!(v.shows_cover_of("usb/Blue"));
    assert!(v.switch_to_copy("nas/Blue".to_string()));
    assert_eq!(v.active_copy_folder.as_deref(), Some("nas/Blue"));
    assert!(v.songs.is_empty());
    v.finish_songs(false);
    assert_eq!(v.content, ContentState::Placeholder);
    assert!(v.switch_to_copy("usb/Blue".to_string()));
    assert!(v.active_copy_folder.is_none());
    v.unbind();
    assert!(v.album.is_none());
}

#[test]
fn copies_are_listed_with_the_chosen_one_marked() {
    assert!(has_alternates(&album()));
    let (label, menu) = refresh_source_picker(&album(), &None);
    assert_eq!(label, "usb \u{b7} CD");
    assert_eq!(menu.len(), 2);
    assert_eq!(menu[0], ("\u{2713} usb \u{b7} CD".to_string(), "usb/Blue".to_string()));
    assert_eq!(menu[1], ("   nas \u{b7} Lossy".to_string(), "nas/Blue".to_string()));
    let (label, menu) = refresh_source_picker(&album(), &Some("nas/Blue".to_string()));
    assert_eq!(label, "nas \u{b7} Lossy");
    assert!(menu[1].0.starts_with('\u{2713}'));
    assert_eq!(source_label(None, QualityGrade::HiRes, ""), "Root \u{b7} Hi-Res");
    let acted = album_for_action(&album(), &Some("nas/Blue".to_string()));
    assert_eq!(acted.folder_uri, "nas/Blue");
    assert!(acted.alternates.is_empty());
    assert_eq!(album_for_action(&album(), &None).alternates.len(), 1);
}

#[test]
fn genres_of_an_album_are_those_of_its_songs() {
    let mut a = song("a");
    a.genres = words(&["Folk", "Rock"]);
    let mut b = song("b");
    b.genres = words(&["Rock", "Jazz"]);
    let genres = album_genres(&vec![a, b]);
    assert_eq!(genres.len(), 3);
}

#[test]
fn articles_are_shown_when_found() {
    assert!(matches!(start_article(""), InfoBox::Hidden));
    assert!(matches!(start_article("Blue"), InfoBox::Spinner));
    assert!(matches!(finish_article(None), InfoBox::Hidden));
    let article =
        Article { content: "x".to_string(), url: None, attribution: "y".to_string() };
    assert!(matches!(finish_article(Some(article)), InfoBox::Shown(a) if a.content == "x"));
    assert_eq!(name_or_placeholder(Some(""), "(untitled)"), "(untitled)");
    assert_eq!(name_or_placeholder(Some("x"), "(untitled)"), "x");
    assert_eq!(name_or_placeholder(None, "(untitled)"), "(untitled)");
}

#[test]
fn page_of_an_album_queues() {
    let mut v = AlbumContentView::new();
    assert!(v.queue(true, &Vec::new(), true).is_none());
    assert!(v.activate(0).is_none());
    assert!(v.copy_songs_query().is_none());
    v.bind(album());
    v.add_songs(vec![song("a"), song("b")]);
    match &v.queue(true, &Vec::new(), true).unwrap()[..] {
        [QueueRequest::Clear, QueueRequest::FindAddSorted(q, "track"), QueueRequest::PlayAt(0)] => {
            assert_eq!(tags(q).len(), 2)
        }
        _ => panic!(),
    }
    assert!(matches!(
        &v.queue(true, &Vec::new(), false).unwrap()[..],
        [QueueRequest::FindAddSorted(_, "track")]
    ));
    assert!(matches!(
        &v.queue(false, &vec![1], false).unwrap()[..],
        [QueueRequest::Put(AddStep::Add(uri))] if uri == "b"
    ));
    assert!(matches!(
        &v.activate(1).unwrap()[..],
        [QueueRequest::Clear, QueueRequest::FindAddSorted(_, "track"), QueueRequest::PlayAt(1)]
    ));
    // A copy that was chosen is fetched and queued alone.
    assert_eq!(v.copy_songs_query().unwrap().filters.last().unwrap().value, "usb/Blue");
    assert!(v.switch_to_copy("nas/Blue".to_string()));
    let query = v.copy_songs_query().unwrap();
    assert_eq!(query.filters.len(), 3);
    assert_eq!(query.filters[0].value, "Blue");
    assert!(matches!(query.filters[2].term, Term::Base));
    assert_eq!(query.filters[2].value, "nas/Blue");
    match &v.activate(0).unwrap()[..] {
        [QueueRequest::Clear, QueueRequest::FindAddSorted(q, "track"), QueueRequest::PlayAt(0)] => {
            let last = q.filters.last().unwrap();
            assert!(matches!(last.term, Term::Base));
            assert_eq!(last.value, "nas/Blue");
        }
        _ => panic!(),
    }
}

#[test]
fn page_of_an_artist_collects_and_queues() {
    let mut v = ArtistContentView::new();
    assert!(v.queue(&Vec::new(), true).is_none());
    v.bind(ArtistInfo { name: "Joni".to_string(), mbid: None });
    assert_eq!(v.song_state, ContentState::Spinner);
    v.add_content(vec![album()], vec![song("a"), song("b")]);
    v.finish_content();
    assert_eq!((v.album_state, v.song_state), (ContentState::Content, ContentState::Content));
    assert!(matches!(
        &v.queue(&Vec::new(), true).unwrap()[..],
        [QueueRequest::Clear, QueueRequest::FindAdd(_), QueueRequest::PlayAt(0)]
    ));
    let labels = v.on_song_selection_changed(1, 2);
    assert_eq!(labels.play, "Play 1");
    assert!(matches!(
        &v.queue(&vec![1], false).unwrap()[..],
        [QueueRequest::Put(AddStep::Add(uri))] if uri == "b"
    ));
    v.unbind();
    assert!(v.songs.is_empty());
    assert_eq!(artist_subview(true), "songs");
    assert_eq!(artist_subview(false), "albums");
}

#[test]
fn page_of_a_genre_remembers_the_choice() {
    let mut v = GenreContentView {
        albums_active: true,
        last_subview_albums: true,
        artists_initialized: false,
    };
    let fetch = v.bind();
    assert!(fetch.albums && !fetch.artists);
    assert!(v.toggle(false));
    assert!(!v.toggle(false));
    assert_eq!(v.subview(), "artists");
    v.unbind();
    let fetch = v.bind();
    assert!(fetch.artists);
    assert_eq!(v.subview(), "artists");
    assert_eq!(count_label(true, 1), "1 album");
    assert_eq!(count_label(false, 3), "3 artists");
}

#[test]
fn lists_are_sorted_searched_and_filled() {
    assert_eq!(flip_direction("asc"), "desc");
    assert_eq!(flip_direction("desc"), "asc");
    assert_eq!(direction_icon("asc"), "view-sort-ascending-symbolic");
    assert_eq!(order_names("a", "B", 1, false, false), ListOrder::Smaller);
    assert_eq!(order_names("a", "B", 0, false, false), ListOrder::Larger);
    assert_eq!(search_change(1, 2), FilterChange::MoreStrict);
    assert_eq!(search_change(2, 1), FilterChange::LessStrict);
    assert_eq!(search_change(2, 2), FilterChange::Different);
    assert!(is_found("Rock", "", true));
    assert!(is_found("Rock", "ro", false));
    assert!(should_push_content(None));
    assert!(!should_push_content(Some("content")));
    let mut list = LazyList::new();
    assert!(list.populate());
    assert!(!list.populate());
    list.finish(3);
    assert_eq!(list.content, ContentState::Content);
    assert!(list.populate());
}
