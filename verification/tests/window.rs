use euphonica::background::{newest, Background, BlurConfig, WindowMessage};
use euphonica::client::mounts::Mount;
use euphonica::client::state::{ConnectionState, Subsystem};
use euphonica::preferences::{
    drop_row, image_cache_label, join_lines, mount_list, split_lines, CacheStats,
};
use euphonica::window::{
    accent_css, goto_album, goto_artist, goto_pane, goto_playlist, has_no_shading,
    has_no_shading_over, idle_toast, player_bar_visibility, task_count_label, task_stack_name,
    AccentChange, ColorScheme, LazyView, ServerAddress, Window,
};

fn words(xs: &[&str]) -> Vec<String> {
    xs.iter().map(|s| s.to_string()).collect()
}

fn config(width: u32, height: u32, fade: bool) -> BlurConfig {
    BlurConfig { width, height, radius: 4, is_dark: true, fade }
}

#[test]
fn pictures_are_loaded_once() {
    let mut b = Background::new();
    let work = b.handle(WindowMessage::UpdateBackground(config(10, 10, true)));
    assert!(work.blur.is_none() && !work.wait);
    let work = b.handle(WindowMessage::NewBackground("a.png".to_string(), config(10, 10, false)));
    assert!(work.load && work.wait);
    assert_eq!(work.blur, Some(config(10, 10, true)));
    let work = b.handle(WindowMessage::NewBackground("a.png".to_string(), config(20, 20, true)));
    assert!(!work.load && work.blur.is_none());
    let work = b.handle(WindowMessage::UpdateBackground(config(20, 20, false)));
    assert_eq!(work.blur, Some(config(20, 20, false)));
    assert!(!work.wait);
    let work = b.handle(WindowMessage::UpdateAccent(false));
    assert_eq!(work.accent, Some(false));
    b.handle(WindowMessage::ClearBackground);
    assert!(b.handle(WindowMessage::UpdateAccent(false)).accent.is_none());
    let work = b.handle(WindowMessage::NewBackground("a.png".to_string(), config(0, 10, true)));
    assert!(work.load && work.blur.is_none() && !work.wait);
    assert!(b.handle(WindowMessage::Stop).stop);
}

#[test]
fn only_the_newest_message_counts() {
    assert!(newest(Vec::new()).is_none());
    let last = newest(vec![WindowMessage::Stop, WindowMessage::ClearBackground]);
    assert!(matches!(last, Some(WindowMessage::ClearBackground)));
}

#[test]
fn schemes_are_saved_by_name() {
    for scheme in [
        ColorScheme::Follow,
        ColorScheme::ForceDark,
        ColorScheme::ForceLight,
        ColorScheme::PreferDark,
        ColorScheme::PreferLight,
    ] {
        assert_eq!(ColorScheme::from_name(scheme.name()), scheme);
    }
    assert_eq!(ColorScheme::from_name("?"), ColorScheme::Follow);
}

#[test]
fn connection_changes_are_shown() {
    let address = ServerAddress {
        host: "localhost".to_string(),
        port: 6600,
        socket: "/run/mpd".to_string(),
    };
    let mut w = Window::new();
    assert_eq!(w.maybe_populate_visible(Some("albums")), None);
    let n = w.handle_connection_state(ConnectionState::ConnectionRefused, &address, false);
    assert_eq!(n.subtitle, Some("Not connected"));
    let d = n.dialog.unwrap();
    assert_eq!(d.heading, "Connection refused");
    assert!(d.body.contains("localhost:6600."));
    assert!(d.suggest_open_preferences);
    let n = w.handle_connection_state(ConnectionState::SocketNotFound, &address, false);
    assert!(n.dialog.unwrap().body.contains("/run/mpd."));
    let n = w.handle_connection_state(ConnectionState::WrongPassword, &address, true);
    assert_eq!(n.subtitle, Some("Unauthenticated"));
    assert!(n.dialog.is_none());
    let n = w.handle_connection_state(ConnectionState::CredentialStoreError, &address, false);
    assert!(!n.dialog.unwrap().suggest_open_preferences);
    let n = w.handle_connection_state(ConnectionState::Unauthenticated, &address, false);
    assert_eq!(n.dialog.unwrap().heading, "Authentication Failed");
    let n = w.handle_connection_state(ConnectionState::Connected, &address, false);
    assert!(n.populate && n.dialog.is_none());
    assert_eq!(w.maybe_populate_visible(Some("albums")), Some(LazyView::Albums));
    assert_eq!(w.maybe_populate_visible(Some("queue")), Some(LazyView::Queue));
    assert_eq!(w.maybe_populate_visible(Some("playlists")), None);
    assert_eq!(w.maybe_populate_visible(None), None);
    w.handle_connection_state(ConnectionState::Connecting, &address, false);
    assert!(!w.should_populate_visible);
    let n = w.handle_connection_state(ConnectionState::NotConnected, &address, false);
    assert!(n.subtitle.is_none() && n.dialog.is_none());
}

#[test]
fn accent_colour_follows_the_setting() {
    let mut w = Window::new();
    assert_eq!(w.set_auto_accent(false), AccentChange::NoChange);
    assert_eq!(w.set_auto_accent(true), AccentChange::Compute);
    assert_eq!(w.set_auto_accent(false), AccentChange::Revert);
    let css = accent_css(1, 22, 255, false);
    assert_eq!(
        css,
        "\n:root {\n    --accent-bg-color: rgb(1, 22, 255);\n}\n.fg-auto-accent {\n    color: rgb(1, 22, 255);\n}\n"
    );
    assert!(accent_css(1, 2, 3, true).contains("--accent-fg-color: rgb(0 0 0 / 80%);"));
}

#[test]
fn parts_of_the_window_are_shown_as_needed() {
    assert!(has_no_shading(true, false) && !has_no_shading(false, false));
    assert!(has_no_shading_over(true, true) && !has_no_shading_over(true, false));
    assert!(player_bar_visibility(false, false, false));
    assert!(!player_bar_visibility(true, false, true));
    assert!(player_bar_visibility(true, true, true));
    assert!(!player_bar_visibility(true, true, false));
    assert_eq!(goto_pane(true).show_sidebar, Some(false));
    assert_eq!(goto_pane(true).view, "queue");
    assert_eq!(goto_album(true, true).show_sidebar, Some(false));
    assert_eq!(goto_artist(false, true).show_sidebar, None);
    assert_eq!(goto_playlist(true, false).view, "playlists");
    assert_eq!(task_count_label(3, 12), "3/12");
    assert_eq!(task_stack_name(0), "idle");
    assert_eq!(task_stack_name(1), "pending");
    assert!(idle_toast(Subsystem::Database).is_some());
    assert!(idle_toast(Subsystem::Queue).is_none());
}

fn mount(name: &str) -> Mount {
    Mount { name: name.to_string(), storage: "x".to_string() }
}

#[test]
fn mounts_are_listed_in_the_order_of_the_user() {
    let known = [mount("a"), mount("b"), mount("c")];
    let list = mount_list(&known, &words(&["c", "gone", "a"]));
    let names: Vec<&str> = list.iter().map(|m| m.name.as_str()).collect();
    assert_eq!(names, vec!["c", "a", "b"]);
    assert!(mount_list(&[], &words(&["c"])).is_empty());
}

#[test]
fn rows_are_dropped_before_others() {
    let mut rows = words(&["a", "b", "c"]);
    assert!(drop_row(&mut rows, "a", 2));
    assert_eq!(rows, words(&["b", "a", "c"]));
    assert!(drop_row(&mut rows, "c", 0));
    assert_eq!(rows, words(&["c", "b", "a"]));
    assert!(!drop_row(&mut rows, "c", 0));
    assert!(!drop_row(&mut rows, "x", 0));
    assert_eq!(rows, words(&["c", "b", "a"]));
}

#[test]
fn lines_are_split_as_std_does() {
    for text in ["", "a", "a\n", "a\nb", "a\r\nb\r", "\n", "\n\n", "a\n\nb\n"] {
        let expected: Vec<String> = text.lines().map(|s| s.to_string()).collect();
        assert_eq!(split_lines(text), expected);
    }
    let lines = words(&[",", ";", "/"]);
    assert_eq!(join_lines(&lines), ",\n;\n/");
    assert_eq!(split_lines(&join_lines(&lines)), lines);
    assert_eq!(join_lines(&Vec::new()), "");
}

#[test]
fn caches_are_measured_once_at_a_time() {
    let mut stats = CacheStats::new();
    assert!(stats.refresh_cache_stats());
    assert!(!stats.refresh_cache_stats());
    stats.measured();
    assert!(!stats.refresh_cache_stats());
    stats.measured();
    assert_eq!(stats.n_async_in_progress, 0);
    assert!(stats.refresh_cache_stats());
    assert_eq!(image_cache_label(3, "1.2 MB"), "3 file(s) (1.2 MB)");
}
