use euphonica::client::albums::dedup_album_infos_from_songs;
use euphonica::client::dedup::{
    build_dedup_album_infos, folders_are_numeric_siblings, is_sibling, CopyRanks,
};
use euphonica::client::mounts::{Mount, MountRegistry};
use euphonica::common::album::AlbumInfo;
use euphonica::common::quality::QualityGrade;
use euphonica::common::song::{song_cluster_id, SongInfo};

fn registry() -> MountRegistry {
    let mut r = MountRegistry::new();
    r.set_known(vec![
        Mount { name: "nas".to_string(), storage: "nfs://nas".to_string() },
        Mount { name: "usb".to_string(), storage: "/usb".to_string() },
    ]);
    r.set_priority(vec!["usb".to_string(), "nas".to_string()]);
    r
}

fn track(uri: &str, title: &str, mbid: Option<&str>, grade: QualityGrade) -> SongInfo {
    let folder = match uri.rfind('/') {
        Some(i) => uri[..i].to_string(),
        None => String::new(),
    };
    let mut s = SongInfo::default();
    s.uri = uri.to_string();
    s.quality_grade = grade;
    s.album = Some(AlbumInfo {
        title: title.to_string(),
        folder_uri: folder,
        artists: Vec::new(),
        albumartist: None,
        release_date: None,
        mbid: mbid.map(|s| s.to_string()),
        mount_name: None,
        quality_grade: grade,
        alternates: Vec::new(),
    });
    s
}

fn dedup(songs: Vec<SongInfo>) -> Vec<AlbumInfo> {
    let r = registry();
    let ranks = CopyRanks::new(&songs, &r);
    build_dedup_album_infos(songs, &ranks)
}

#[test]
fn siblings_share_a_parent() {
    assert!(is_sibling("music/Album/Disc 1", "music/Album/Disc 2"));
    assert!(!is_sibling("music/Album/Disc 1", "music/Album/Disc 1"));
    assert!(!is_sibling("music/Album", "music/Album/Disc 2"));
    assert!(!is_sibling("Disc 1", "Disc 2"));
}

#[test]
fn numbered_folders_are_told_by_their_numbers() {
    assert!(folders_are_numeric_siblings("a/Vol 01", "a/Vol 02"));
    assert!(folders_are_numeric_siblings("a/CD1", "b/CD2"));
    assert!(folders_are_numeric_siblings("a/CD1", "a/CD01"));
    assert!(!folders_are_numeric_siblings("a/CD1", "a/CD1"));
    assert!(folders_are_numeric_siblings("x/CD4294967296", "x/CD4294967297"));
    assert!(!folders_are_numeric_siblings("a/CD", "a/CD2"));
    assert!(!folders_are_numeric_siblings("a/CD1", "a/Disc2"));
}

#[test]
fn the_other_copy_is_an_alternate() {
    let albums = dedup(vec![
        track("nas/Blue/1.mp3", "Blue", None, QualityGrade::Lossy),
        track("usb/Blue/1.flac", "Blue", None, QualityGrade::CD),
    ]);
    assert_eq!(albums.len(), 1);
    assert_eq!(albums[0].folder_uri, "usb/Blue");
    assert_eq!(albums[0].mount_name.as_deref(), Some("usb"));
    assert_eq!(albums[0].alternates.len(), 1);
    assert_eq!(albums[0].alternates[0].folder_uri, "nas/Blue");
    assert_eq!(albums[0].alternates[0].mount_name.as_deref(), Some("nas"));
}

#[test]
fn the_better_copy_is_shown_whatever_the_mount() {
    let albums = dedup(vec![
        track("usb/Blue/1.mp3", "Blue", None, QualityGrade::Lossy),
        track("nas/Blue/1.flac", "Blue", None, QualityGrade::CD),
    ]);
    assert_eq!(albums[0].folder_uri, "nas/Blue");
    assert_eq!(albums[0].quality_grade, QualityGrade::CD);
}

#[test]
fn the_preferred_mount_decides_between_equal_copies() {
    let albums = dedup(vec![
        track("nas/Blue/1.flac", "Blue", None, QualityGrade::CD),
        track("usb/Blue/1.flac", "Blue", None, QualityGrade::CD),
    ]);
    assert_eq!(albums.len(), 1);
    assert_eq!(albums[0].folder_uri, "usb/Blue");
}

#[test]
fn albums_with_different_ids_are_different() {
    let albums = dedup(vec![
        track("nas/A/1.flac", "Blue", Some("one"), QualityGrade::CD),
        track("usb/B/1.flac", "Blue", Some("two"), QualityGrade::CD),
    ]);
    assert_eq!(albums.len(), 2);
    assert!(albums[0].folder_uri <= albums[1].folder_uri);
}

#[test]
fn discs_of_one_album_are_one_copy() {
    let albums = dedup(vec![
        track("nas/Blue/CD1/1.flac", "Blue", None, QualityGrade::CD),
        track("nas/Blue/CD2/1.flac", "Blue", None, QualityGrade::CD),
    ]);
    assert_eq!(albums.len(), 1);
    assert!(albums[0].alternates.is_empty());
}

#[test]
fn ranks_of_folders_are_looked_up() {
    let songs = vec![track("usb/Blue/1.flac", "Blue", None, QualityGrade::HiRes)];
    let r = registry();
    let ranks = CopyRanks::new(&songs, &r);
    let (grade, rank, mount) = ranks.rank_for_uri("usb/Blue");
    assert_eq!(grade, QualityGrade::HiRes);
    assert_eq!(rank, 0);
    assert_eq!(mount.as_deref(), Some("usb"));
    assert_eq!(ranks.rank_for_uri("usb").0, QualityGrade::Unknown);
    assert_eq!(ranks.rank_for_uri("usb/Blue/Bonus").0, QualityGrade::Unknown);
    let (grade, rank, mount) = ranks.rank_for_uri("elsewhere/x.flac");
    assert_eq!((grade, rank, mount), (QualityGrade::Unknown, usize::MAX, None));
}

#[test]
fn albums_have_the_best_grade_of_their_songs() {
    let songs = vec![track("nas/X/1.flac", "X", None, QualityGrade::HiRes)];
    let albums = dedup_album_infos_from_songs(songs, &registry());
    assert_eq!(albums.len(), 1);
    assert_eq!(albums[0].folder_uri, "nas/X");
    assert_eq!(albums[0].quality_grade, QualityGrade::HiRes);
    // The better copy is shown, though the mount of the other one is preferred.
    let albums = dedup(vec![
        track("usb/X/1.mp3", "X", None, QualityGrade::Lossy),
        track("usb/X/2.flac", "X", None, QualityGrade::CD),
        track("nas/X//1.flac", "X", None, QualityGrade::HiRes),
    ]);
    assert_eq!(albums.len(), 1);
    assert_eq!(albums[0].folder_uri, "nas/X");
    assert_eq!(albums[0].quality_grade, QualityGrade::HiRes);
    assert_eq!(albums[0].alternates[0].folder_uri, "usb/X");
    assert_eq!(albums[0].alternates[0].quality_grade, QualityGrade::CD);
}

#[test]
fn albums_of_many_songs_are_grouped() {
    let songs = vec![
        track("z/Red/1.flac", "Red", None, QualityGrade::CD),
        track("a/Blue/1.flac", "Blue", None, QualityGrade::CD),
        track("z/Red/2.flac", "Red", None, QualityGrade::CD),
    ];
    let albums = dedup_album_infos_from_songs(songs, &registry());
    let titles: Vec<&str> = albums.iter().map(|a| a.title.as_str()).collect();
    assert_eq!(titles, vec!["Blue", "Red"]);
}

#[test]
fn grades_are_ordered() {
    assert!(QualityGrade::DSD.better_than(QualityGrade::HiRes));
    assert!(QualityGrade::Lossy.better_than(QualityGrade::Unknown));
    assert!(!QualityGrade::CD.better_than(QualityGrade::CD));
    assert!(QualityGrade::HiRes.as_level() > QualityGrade::CD.as_level());
}

#[test]
fn songs_belong_to_the_run_of_their_album() {
    let mut s = track("a/1.flac", "Blue", None, QualityGrade::CD);
    assert_eq!(song_cluster_id(&s), "Blue");
    s.album = None;
    assert_eq!(song_cluster_id(&s), "a/1.flac");
    s.mbid = Some("id".to_string());
    assert_eq!(s.get_comp_id(), "id");
    assert!(s.clone().into_album_info().is_none());
    assert!(s.into_artist_infos().is_empty());
}
