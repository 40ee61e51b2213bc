use euphonica::client::error::{Error, ErrorCode, MpdError};
use euphonica::client::state::Subsystem;
use euphonica::client::{SaveMode, StickerSetMode};
use euphonica::common::album::AlbumInfo;
use euphonica::common::quality::QualityGrade;
use euphonica::common::song::{SongInfo, SongStickers};
use euphonica::common::sticker::{
    played_sticker, rating_sticker, skipped_stickers, started_sticker, StickerChange, Stickers,
};
use euphonica::player::controller::{
    lyric_line_index, nearest_millis, update_for, PlayerUpdate, QueueFetch, Toggle,
};
use euphonica::player::flow::{
    cycle_replaygain, get_replaygain_icon_name, FftSource, FftStatus, PlaybackFlow, PlaybackState,
    ReplayGain, ShuffleMode, SwapDirection,
};
use euphonica::player::queue::{
    flatten, move_to, remove_pos, shuffle_queue, swap_dir, update_queue_internal, ShufflePlan,
};
use euphonica::player::queue_view::{
    consume_label, drop_position, format_song_count, is_song_found, populate, row_to_show,
    save_answer, save_outcome, save_question, shuffle_tooltip, QueueContent, SaveOutcome,
    ScrollKeeper,
};
use euphonica::player::status::{
    Effect, FftReader, MprisChange, Player, Property, SongStep, Status,
};

fn song(id: u32, uri: &str) -> SongStickers {
    let mut s = SongInfo::default();
    s.uri = uri.to_string();
    s.title = uri.to_string();
    s.queue_id = Some(id);
    s.queue_pos = Some(0);
    s.duration = Some(200);
    let stickers = Stickers {
        rating: None,
        play_count: None,
        skip_count: None,
        last_played: None,
        last_skipped: None,
    };
    (s, stickers)
}

fn playing(id: u32, elapsed_secs: u64) -> Status {
    let mut s = Status::default();
    s.state = PlaybackState::Playing;
    s.song = Some(id);
    s.elapsed = Some(elapsed_secs * 1_000_000_000);
    s
}

const SECOND: u64 = 1_000_000_000;

#[test]
fn changed_options_are_told() {
    let mut p = Player::new();
    p.mpris_enabled = true;
    let mut s = playing(1, 0);
    s.repeat = true;
    s.single = true;
    s.random = true;
    s.volume = 30;
    let (effects, mpris) = p.update_options(&s);
    assert!(effects.contains(&Effect::StartPolling));
    assert!(effects.contains(&Effect::Notify(Property::PlaybackState)));
    assert!(effects.contains(&Effect::Notify(Property::PlaybackFlow)));
    assert!(effects.contains(&Effect::Notify(Property::Random)));
    assert!(effects.contains(&Effect::VolumeChanged(30)));
    assert!(mpris.contains(&MprisChange::PlaybackStatus(PlaybackState::Playing)));
    assert!(mpris.contains(&MprisChange::Shuffle(true)));
    assert_eq!(p.options.flow, PlaybackFlow::RepeatSingle);

    let (effects, mpris) = p.update_options(&s);
    assert_eq!(effects, vec![Effect::StartPolling]);
    assert!(mpris.is_empty());
    assert!(p.polls_status());
    let (effects, _) = p.update_options(&Status::default());
    assert!(effects.contains(&Effect::StopPolling));
}

#[test]
fn own_volume_changes_are_not_told() {
    let mut p = Player::new();
    assert!(p.set_volume(40));
    assert!(!p.set_volume(40));
    p.expect_volume_change();
    let mut s = playing(1, 0);
    s.volume = 41;
    let (effects, _) = p.update_options(&s);
    assert!(!effects.contains(&Effect::VolumeChanged(41)));
    assert!(p.maybe_emit_volume_changed());
    p.expect_volume_change();
    assert!(!p.maybe_emit_volume_changed());
}

#[test]
fn songs_are_fetched_counted_and_skipped() {
    let mut p = Player::new();
    p.mpris_enabled = true;
    let s = playing(1, 0);
    assert_eq!(p.next_song_step(&s, false), SongStep::Fetch(1, false));
    let (effects, mpris) = p.adopt_song(song(1, "a"), None);
    assert!(effects.contains(&Effect::RefreshLyrics));
    assert!(effects.contains(&Effect::CoverChanged));
    assert!(mpris.contains(&MprisChange::Metadata));
    assert_eq!(p.next_song_step(&s, false), SongStep::Keep);
    assert_eq!(p.next_song_step(&playing(1, 99), false), SongStep::Keep);
    assert_eq!(p.next_song_step(&playing(1, 100), false), SongStep::Record);
    let mut short = Player::new();
    for (seconds, step) in [(10, SongStep::Keep), (11, SongStep::Record)] {
        let mut brief = song(1, "a");
        brief.0.duration = Some(seconds);
        short.adopt_song(brief, None);
        assert_eq!(short.next_song_step(&playing(1, 9), false), step);
    }
    assert_eq!(p.next_song_step(&playing(1, 100), true), SongStep::Keep);
    p.update_position(&playing(1, 50), None);
    assert_eq!(p.next_song_step(&playing(2, 0), false), SongStep::Fetch(2, true));
    p.mark_recorded();
    assert_eq!(p.next_song_step(&playing(1, 150), false), SongStep::Keep);
    assert_eq!(p.next_song_step(&playing(2, 0), false), SongStep::Fetch(2, false));
    assert_eq!(p.duration(), 200);
    assert_eq!(p.title(), Some("a"));
    assert_eq!(p.queue_id(), Some(1));
}

#[test]
fn a_stop_is_announced_once() {
    let mut p = Player::new();
    p.mpris_enabled = true;
    p.adopt_song(song(1, "a"), None);
    let mut s = playing(1, 5);
    s.queue_len = 4;
    let (effects, _) = p.update_position(&s, None);
    assert!(effects.contains(&Effect::Notify(Property::Position)));
    assert!(effects.contains(&Effect::Notify(Property::QueueLen)));
    s.state = PlaybackState::Stopped;
    let (effects, mpris) = p.update_position(&s, None);
    assert!(effects.contains(&Effect::Notify(Property::Title)));
    assert!(mpris.contains(&MprisChange::NoTrack));
    assert!(p.current_song.is_none());
    let (effects, _) = p.update_position(&s, None);
    assert!(effects.is_empty());
}

#[test]
fn pipewire_makes_way_for_the_next_song() {
    let mut p = Player::new();
    let reader = FftReader { is_pipewire: true, status: FftStatus::Reading };
    assert!(!p.pipewire_must_pause(Some(reader)));
    assert!(p.set_pipewire_restart(true));
    assert!(!p.set_pipewire_restart(true));
    assert!(p.pipewire_must_pause(Some(reader)));
    assert!(!p.pipewire_must_pause(None));
    p.adopt_song(song(1, "a"), None);
    let (effects, _) = p.update_position(&playing(1, 199), Some(reader));
    assert!(effects.contains(&Effect::StopFft));
    let (effects, _) = p.update_position(&playing(1, 100), Some(reader));
    assert!(!effects.contains(&Effect::StopFft));
}

#[test]
fn versions_of_the_queue_are_followed() {
    let mut p = Player::new();
    assert_eq!(p.update_queue_version(5), QueueFetch::Whole);
    assert_eq!(p.update_queue_version(5), QueueFetch::Nothing);
    p.register_local_queue_changes(1);
    assert_eq!(p.update_queue_version(6), QueueFetch::Nothing);
    assert_eq!(p.update_queue_version(8), QueueFetch::Changes(6));
    p.mark_queue_initialized();
    assert!(p.queue_is_initialized());
    p.clear();
    assert!(!p.queue_is_initialized());
    assert_eq!(p.update_queue_version(2), QueueFetch::Whole);
}

fn uris(p: &Player) -> Vec<&str> {
    p.queue.iter().map(|s| s.0.uri.as_str()).collect()
}

fn three() -> Player {
    let mut p = Player::new();
    p.extend_queue(vec![song(1, "a"), song(2, "b"), song(3, "c")]);
    p
}

#[test]
fn the_queue_is_edited() {
    let mut p = three();
    assert_eq!(p.swap_dir(0, SwapDirection::Up), None);
    assert_eq!(p.swap_dir(0, SwapDirection::Down), Some(1));
    assert_eq!(uris(&p), vec!["b", "a", "c"]);
    assert_eq!(p.swap_dir(1, SwapDirection::Up), Some(0));
    assert_eq!(uris(&p), vec!["a", "b", "c"]);
    p.move_to(0, 3);
    assert_eq!(uris(&p), vec!["b", "c", "a"]);
    p.move_to(2, 0);
    assert_eq!(uris(&p), vec!["a", "b", "c"]);
    p.remove_pos(1);
    assert_eq!(uris(&p), vec!["a", "c"]);
}

#[test]
fn changes_from_the_server_are_applied() {
    let mut p = three();
    let mut new = song(9, "x");
    new.0.queue_pos = Some(1);
    assert!(p.can_update_queue(&vec![new.clone()]));
    p.update_queue_internal(vec![new]);
    assert_eq!(uris(&p), vec!["a", "x", "c"]);
    let mut far = song(9, "y");
    far.0.queue_pos = Some(10);
    let mut near = song(8, "z");
    near.0.queue_pos = Some(1);
    assert!(!p.can_update_queue(&vec![far, near]));

    assert_eq!(update_queue_internal(vec![1, 2, 3], vec![(3, 4)]), Some(vec![1, 2, 3, 4]));
    assert_eq!(update_queue_internal(vec![1, 2, 3], vec![(0, 7), (2, 8)]), Some(vec![7, 2, 8]));
    assert_eq!(update_queue_internal(vec![1], vec![(0, 7), (4, 8)]), None);
}

#[test]
fn lists_are_edited_like_the_queue() {
    let mut q = vec![1, 2, 3];
    remove_pos(&mut q, 0);
    assert_eq!(q, vec![2, 3]);
    assert_eq!(swap_dir(&mut q, 1, SwapDirection::Down), None);
    move_to(&mut q, 1, 0);
    assert_eq!(q, vec![3, 2]);
    let groups = vec![vec!["a".to_string()], vec!["b".to_string(), "c".to_string()]];
    assert_eq!(flatten(groups), vec!["a", "b", "c"]);
}

fn words(xs: &[&str]) -> Vec<String> {
    xs.iter().map(|s| s.to_string()).collect()
}

#[test]
fn shuffles_leave_the_current_album() {
    let ids = words(&["A", "A", "B", "B", "C"]);
    let uris = words(&["1", "2", "3", "4", "5"]);
    match shuffle_queue(&ids, &uris, Some(0), ShuffleMode::Tracks) {
        ShufflePlan::Range(2) => {}
        _ => panic!(),
    }
    match shuffle_queue(&ids, &uris, Some(1), ShuffleMode::Album) {
        ShufflePlan::Replace(2, 5, new) => {
            assert!(new == words(&["3", "4", "5"]) || new == words(&["5", "3", "4"]));
        }
        _ => panic!(),
    }
    assert!(matches!(
        shuffle_queue(&ids, &uris, Some(4), ShuffleMode::Album),
        ShufflePlan::Nothing
    ));
    assert!(matches!(
        shuffle_queue(&ids, &uris, Some(3), ShuffleMode::Album),
        ShufflePlan::Nothing
    ));
    assert!(matches!(
        shuffle_queue(&ids, &uris, None, ShuffleMode::Tracks),
        ShufflePlan::Range(0)
    ));
}

#[test]
fn shuffled_player_plans_from_its_queue() {
    let mut p = three();
    p.adopt_song(song(1, "a"), None);
    assert!(matches!(p.shuffle_queue(ShuffleMode::Tracks), ShufflePlan::Range(1)));
}

#[test]
fn playback_is_toggled() {
    let mut p = Player::new();
    assert_eq!(p.toggle_playback(), Toggle::Nothing);
    p.extend_queue(vec![song(1, "a")]);
    assert_eq!(p.toggle_playback(), Toggle::PlayFirst);
    p.update_options(&playing(1, 0));
    assert_eq!(p.toggle_playback(), Toggle::Pause);
    assert_eq!(p.set_position(3 * SECOND), (0, true));
    assert_eq!(p.set_position(3 * SECOND), (3 * SECOND, false));
    assert_eq!(p.seek_target(-1000), 2 * SECOND as i128);
    assert_eq!(p.cycle_playback_flow(), PlaybackFlow::Repeat);
}

#[test]
fn tracks_are_told_by_their_last_component() {
    let mut p = Player::new();
    assert!(!p.is_current_track("/org/mpris/1"));
    p.adopt_song(song(12, "a"), None);
    assert!(p.is_current_track("/org/mpris/12"));
    assert!(!p.is_current_track("/org/mpris/112"));
    assert!(p.is_current_track("12"));
}

#[test]
fn lyrics_follow_the_song() {
    let mut p = Player::new();
    p.adopt_song(song(12, "a"), None);
    assert!(p.wants_lyrics_of(&song(1, "a").0));
    assert!(!p.wants_lyrics_of(&song(12, "b").0));
    assert!(p.update_lyric_line(3));
    assert!(!p.update_lyric_line(3));
    p.update_lyrics();
    assert_eq!(p.current_lyric_line, 0);
    assert_eq!(lyric_line_index(true, 5, 4), Some(4));
    assert_eq!(lyric_line_index(true, 5, 5), None);
    assert_eq!(lyric_line_index(true, 5, -1), None);
    assert_eq!(lyric_line_index(false, 5, 1), None);
    assert_eq!(nearest_millis(1_500_000), 2);
    assert_eq!(nearest_millis(1_499_999), 1);
}

#[test]
fn the_current_song_is_rated() {
    let mut p = Player::new();
    assert!(p.rate_current_song(Some(7)).is_none());
    p.adopt_song(song(1, "a"), None);
    let (uri, change) = p.rate_current_song(Some(7)).unwrap();
    assert_eq!(uri, "a");
    match change {
        StickerChange::Write("rating", v, StickerSetMode::Overwrite) => assert_eq!(v, "7"),
        _ => panic!(),
    }
    assert_eq!(p.rating(), Some(7));
    let (_, change) = p.rate_current_song(None).unwrap();
    assert!(matches!(change, StickerChange::Delete("rating")));
    assert_eq!(p.album(), None);
    assert_eq!(p.quality_grade(), QualityGrade::Unknown);
    assert_eq!(p.queue_pos(), Some(0));
}

#[test]
fn stickers_record_what_happened() {
    let (count, last) = skipped_stickers(99);
    assert!(matches!(count, StickerChange::Write("skipCount", v, StickerSetMode::Inc) if v == "1"));
    assert!(matches!(last, StickerChange::Write(_, v, StickerSetMode::Overwrite) if v == "99"));
    assert!(matches!(started_sticker(5), StickerChange::Write(_, v, _) if v == "5"));
    assert!(matches!(
        played_sticker(),
        StickerChange::Write("playCount", v, StickerSetMode::Inc) if v == "1"
    ));
    assert!(matches!(rating_sticker(None), StickerChange::Delete("rating")));
}

#[test]
fn the_visualiser_runs_in_the_foreground_only() {
    let mut p = Player::new();
    p.set_use_visualizer(true);
    p.set_is_foreground(true);
    assert!(p.may_start_fft());
    p.set_is_foreground(false);
    assert!(!p.may_start_fft());
    assert!(p.set_fft_status(FftStatus::Reading) || p.fft_status == FftStatus::Reading);
    assert!(!p.set_fft_status(FftStatus::Reading));
    let other = match p.fft_source {
        FftSource::Fifo => FftSource::PipeWire,
        FftSource::PipeWire => FftSource::Fifo,
    };
    assert!(p.set_fft_source(other));
    assert!(!p.set_fft_source(other));
}

#[test]
fn flows_cycle_and_come_from_options() {
    for flow in [
        PlaybackFlow::Sequential,
        PlaybackFlow::Repeat,
        PlaybackFlow::Single,
        PlaybackFlow::RepeatSingle,
    ] {
        let (repeat, single) = flow.options();
        assert_eq!(PlaybackFlow::from_status(repeat, single), flow);
        let mut f = flow;
        for _ in 0..4 {
            f = f.next_in_cycle();
        }
        assert_eq!(f, flow);
        assert!(!flow.icon_name().is_empty() && !flow.description().is_empty());
    }
    let mut gain = ReplayGain::Off;
    for _ in 0..4 {
        assert!(!get_replaygain_icon_name(gain).is_empty());
        gain = cycle_replaygain(gain);
    }
    assert_eq!(gain, ReplayGain::Off);
}

#[test]
fn names_of_sources_and_modes_are_read_back() {
    for source in [FftSource::Fifo, FftSource::PipeWire] {
        assert_eq!(FftSource::from_name(source.name()), Some(source));
        assert_eq!(FftSource::from_index(source.index()), Some(source));
        assert!(source.is_addressed(None) && source.is_addressed(Some(source.name())));
        assert!(!source.is_addressed(Some("other")));
    }
    assert_eq!(FftSource::from_index(7), None);
    for mode in [ShuffleMode::Tracks, ShuffleMode::Album] {
        assert_eq!(ShuffleMode::from_str(mode.as_str()), mode);
    }
    assert_eq!(ShuffleMode::from_str("?"), ShuffleMode::Tracks);
    assert!(!FftStatus::Invalid.get_description().is_empty());
}

#[test]
fn changes_on_the_server_are_looked_into() {
    assert_eq!(update_for(Subsystem::Player), Some(PlayerUpdate::Status));
    assert_eq!(update_for(Subsystem::Options), Some(PlayerUpdate::Status));
    assert_eq!(update_for(Subsystem::Queue), Some(PlayerUpdate::Queue));
    assert_eq!(update_for(Subsystem::Output), Some(PlayerUpdate::Outputs));
    assert_eq!(update_for(Subsystem::Mixer), Some(PlayerUpdate::Volume));
    assert_eq!(update_for(Subsystem::Database), None);
}

#[test]
fn the_queue_is_searched() {
    assert!(is_song_found("Blue", None, "", 2, true));
    assert!(is_song_found("Blue", Some("Joni"), "jon", 0, false));
    assert!(is_song_found("Blue", Some("Joni"), "blu", 0, false));
    assert!(!is_song_found("Blue", Some("Joni"), "jon", 1, false));
    assert!(is_song_found("Blue", Some("Joni"), "jon", 2, false));
    assert!(!is_song_found("Blue", None, "blu", 2, false));
    assert!(is_song_found("Blue", None, "xyz", 3, false));
}

#[test]
fn labels_of_the_queue() {
    assert_eq!(format_song_count(0), "Empty");
    assert_eq!(format_song_count(1), "1 song");
    assert_eq!(format_song_count(12), "12 songs");
    assert_eq!(shuffle_tooltip("album"), "Shuffle queue \u{b7} by album");
    assert_eq!(shuffle_tooltip("tracks"), "Shuffle queue \u{b7} tracks");
    assert_eq!(consume_label(true).0, "consume-on-symbolic");
    assert_eq!(consume_label(false).1, "Consume mode: off");
}

#[test]
fn the_queue_is_fetched_when_first_shown() {
    assert_eq!(populate(false, false, 0), (QueueContent::Spinner, true));
    assert_eq!(populate(false, true, 0), (QueueContent::Spinner, false));
    assert_eq!(populate(true, false, 0), (QueueContent::Empty, false));
    assert_eq!(populate(true, false, 2), (QueueContent::Songs, false));
    assert_eq!(row_to_show(2, 5, true, false), Some(2));
    assert_eq!(row_to_show(2, 5, false, false), None);
    assert_eq!(row_to_show(5, 5, true, true), None);
    assert_eq!(drop_position(3, true), 4);
    assert_eq!(drop_position(3, false), 3);
}

#[test]
fn saving_asks_before_overwriting() {
    let exists = Error::Mpd(MpdError::Server(ErrorCode::Exist, String::new()));
    assert_eq!(save_outcome(None), SaveOutcome::Saved);
    assert_eq!(save_outcome(Some(&exists)), SaveOutcome::Ask);
    assert_eq!(save_outcome(Some(&Error::NotConnected)), SaveOutcome::Failed);
    assert_eq!(save_answer("append"), Some(SaveMode::Append));
    assert_eq!(save_answer("overwrite"), Some(SaveMode::Replace));
    assert_eq!(save_answer("cancel"), None);
    assert_eq!(
        save_question("x"),
        "A playlist named \"x\" already exists. Would you like to overwrite or append to it?"
    );
}

#[test]
fn the_place_of_the_list_is_kept() {
    let mut k = ScrollKeeper { checks_left: 0 };
    assert!(!k.place_changed(true));
    k.watch();
    assert!(k.place_changed(true));
    assert!(!k.place_changed(false));
    assert!(k.place_changed(true));
    assert!(!k.place_changed(false));
    assert!(!k.place_changed(true));
}

#[test]
fn album_titles_are_shown() {
    let mut p = Player::new();
    let mut s = song(1, "a");
    s.0.album = Some(AlbumInfo {
        title: "Blue".to_string(),
        folder_uri: String::new(),
        artists: Vec::new(),
        albumartist: None,
        release_date: None,
        mbid: None,
        mount_name: None,
        quality_grade: QualityGrade::Unknown,
        alternates: Vec::new(),
    });
    p.adopt_song(s, None);
    assert_eq!(p.album(), Some("Blue"));
}

#[test]
fn shuffling_albums_keeps_every_song() {
    let ids: Vec<String> = ["a", "b", "b", "c", "d", "d"].iter().map(|s| s.to_string()).collect();
    let uris: Vec<String> = ["0", "1", "2", "3", "4", "5"].iter().map(|s| s.to_string()).collect();
    for _ in 0..20 {
        match shuffle_queue(&ids, &uris, Some(0), ShuffleMode::Album) {
            ShufflePlan::Replace(from, to, mut new) => {
                assert_eq!((from, to), (1, 6));
                let one = new.iter().position(|u| u == "1").unwrap();
                assert_eq!(new[one + 1], "2");
                new.sort();
                assert_eq!(new, uris[1..].to_vec());
            }
            other => panic!("{other:?}"),
        }
    }
}
