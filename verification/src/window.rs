//! What the window shows of the server and of the player, and where its buttons lead.
use vstd::prelude::*;

use crate::client::state::{ConnectionState, Subsystem};
use crate::text::{append, digits, numbered, push_digits, same};

verus! {

/// Whether the window is dark.
#[derive(Debug, Clone, Copy, PartialEq, Eq, Structural)]
pub enum ColorScheme {
    /// As the desktop is.
    Follow,
    ForceLight,
    PreferLight,
    PreferDark,
    ForceDark,
}

/// The name of a colour scheme in the settings.
pub open spec fn scheme_name(scheme: ColorScheme) -> Seq<char> {
    match scheme {
        ColorScheme::ForceDark => "dark"@,
        ColorScheme::PreferDark => "prefer-dark"@,
        ColorScheme::PreferLight => "prefer-light"@,
        ColorScheme::ForceLight => "light"@,
        ColorScheme::Follow => "follow"@,
    }
}

/// The colour scheme of a name in the settings.
pub open spec fn scheme_of(name: Seq<char>) -> ColorScheme {
    if name == "dark"@ {
        ColorScheme::ForceDark
    } else if name == "prefer-dark"@ {
        ColorScheme::PreferDark
    } else if name == "prefer-light"@ {
        ColorScheme::PreferLight
    } else if name == "light"@ {
        ColorScheme::ForceLight
    } else {
        ColorScheme::Follow
    }
}

impl ColorScheme {
    /// The name in the settings.
    pub fn name(self) -> (r: &'static str)
        ensures
            r@ == scheme_name(self),
    {
        match self {
            ColorScheme::ForceDark => "dark",
            ColorScheme::PreferDark => "prefer-dark",
            ColorScheme::PreferLight => "prefer-light",
            ColorScheme::ForceLight => "light",
            ColorScheme::Follow => "follow",
        }
    }

    /// The one of a name in the settings; an unknown name is that of `Follow`.
    pub fn from_name(name: &str) -> (r: Self)
        ensures
            r == scheme_of(name@),
    {
        if same(name, "dark") {
            ColorScheme::ForceDark
        } else if same(name, "prefer-dark") {
            ColorScheme::PreferDark
        } else if same(name, "prefer-light") {
            ColorScheme::PreferLight
        } else if same(name, "light") {
            ColorScheme::ForceLight
        } else {
            ColorScheme::Follow
        }
    }
}

/// A colour scheme that was saved is read back.
pub proof fn law_scheme_is_read_back(scheme: ColorScheme)
    ensures
        scheme_of(scheme_name(scheme)) == scheme,
{
    reveal_strlit("dark");
    reveal_strlit("prefer-dark");
    reveal_strlit("prefer-light");
    reveal_strlit("light");
    reveal_strlit("follow");
    assert("light"@[0] != "follow"@[0]);
    assert("prefer-light"@.len() != "prefer-dark"@.len());
}

/// Whether the sidebars have no colour of their own: something is drawn behind them.
pub fn has_no_shading(use_album_art_bg: bool, use_visualizer: bool) -> (r: bool)
    ensures
        r == (use_album_art_bg || use_visualizer),
{
    use_album_art_bg || use_visualizer
}

/// Whether the sidebars have no colour of their own once a picture was put behind them, or taken away.
pub fn has_no_shading_over(use_album_art_bg: bool, has_picture: bool) -> (r: bool)
    ensures
        r == (use_album_art_bg && has_picture),
{
    use_album_art_bg && has_picture
}

/// Whether the player bar is shown: not beside the queue, where the player itself is.
pub open spec fn shows_player_bar(showing_queue: bool, pane_collapsed: bool, show_content: bool) -> bool {
    !showing_queue || (pane_collapsed && show_content)
}

/// Whether the player bar is shown.
pub fn player_bar_visibility(
    showing_queue: bool,
    pane_collapsed: bool,
    show_content: bool,
) -> (r: bool)
    ensures
        r == shows_player_bar(showing_queue, pane_collapsed, show_content),
{
    if showing_queue {
        !((pane_collapsed && !show_content) || !pane_collapsed)
    } else {
        true
    }
}

/// What the window changes to show something.
#[derive(Debug, Clone, Copy)]
pub struct Navigation {
    /// The view that the sidebar switches to.
    pub view: &'static str,
    /// Whether the sidebar is shown from now on, where that changes.
    pub show_sidebar: Option<bool>,
    /// Whether the list of the queue is shown from now on, where that changes.
    pub show_content: Option<bool>,
}

/// Whether the sidebar is shown once the user has gone somewhere: one that lies over the content goes.
pub open spec fn sidebar_after(shown: bool, collapsed: bool) -> Option<bool> {
    if shown {
        Some(!collapsed)
    } else {
        None
    }
}

/// Goes to the pane of the player.
pub fn goto_pane(collapsed: bool) -> (r: Navigation)
    ensures
        r.view@ == "queue"@,
        r.show_sidebar == Some(!collapsed),
        r.show_content == Some(false),
{
    Navigation { view: "queue", show_sidebar: Some(!collapsed), show_content: Some(false) }
}

fn goto_view(view: &'static str, shows_sidebar: bool, collapsed: bool) -> (r: Navigation)
    ensures
        r.view@ == view@,
        r.show_sidebar == sidebar_after(shows_sidebar, collapsed),
        r.show_content is None,
{
    Navigation {
        view,
        show_sidebar: if shows_sidebar {
            Some(!collapsed)
        } else {
            None
        },
        show_content: None,
    }
}

/// Goes to an album.
pub fn goto_album(shows_sidebar: bool, collapsed: bool) -> (r: Navigation)
    ensures
        r.view@ == "albums"@,
        r.show_sidebar == sidebar_after(shows_sidebar, collapsed),
        r.show_content is None,
{
    goto_view("albums", shows_sidebar, collapsed)
}

/// Goes to an artist.
pub fn goto_artist(shows_sidebar: bool, collapsed: bool) -> (r: Navigation)
    ensures
        r.view@ == "artists"@,
        r.show_sidebar == sidebar_after(shows_sidebar, collapsed),
        r.show_content is None,
{
    goto_view("artists", shows_sidebar, collapsed)
}

/// Goes to a playlist.
pub fn goto_playlist(shows_sidebar: bool, collapsed: bool) -> (r: Navigation)
    ensures
        r.view@ == "playlists"@,
        r.show_sidebar == sidebar_after(shows_sidebar, collapsed),
        r.show_content is None,
{
    goto_view("playlists", shows_sidebar, collapsed)
}

/// The views that are filled when they are first shown.
#[derive(Debug, Clone, Copy, PartialEq, Eq, Structural)]
pub enum LazyView {
    Recent,
    Albums,
    Artists,
    Genres,
    Folders,
    Queue,
}

/// The view of a name that is filled when it is first shown.
pub open spec fn lazy_view(name: Seq<char>) -> Option<LazyView> {
    if name == "recent"@ {
        Some(LazyView::Recent)
    } else if name == "albums"@ {
        Some(LazyView::Albums)
    } else if name == "artists"@ {
        Some(LazyView::Artists)
    } else if name == "genres"@ {
        Some(LazyView::Genres)
    } else if name == "folders"@ {
        Some(LazyView::Folders)
    } else if name == "queue"@ {
        Some(LazyView::Queue)
    } else {
        None
    }
}

/// A message for the user.
#[derive(Debug)]
pub struct Dialog {
    pub heading: &'static str,
    pub body: String,
    /// Whether the user can go to the settings from it.
    pub suggest_open_preferences: bool,
}

/// What a `Dialog` says.
pub struct DialogView {
    pub heading: Seq<char>,
    pub body: Seq<char>,
    pub suggest_open_preferences: bool,
}

impl View for Dialog {
    type V = DialogView;

    open spec fn view(&self) -> DialogView {
        DialogView {
            heading: self.heading@,
            body: self.body@,
            suggest_open_preferences: self.suggest_open_preferences,
        }
    }
}

/// Where the server is looked for.
#[derive(Debug)]
pub struct ServerAddress {
    pub host: String,
    pub port: u32,
    pub socket: String,
}

/// What the title says of a connection, where it changes.
pub open spec fn state_subtitle(state: ConnectionState) -> Option<Seq<char>> {
    match state {
        ConnectionState::ConnectionRefused => Some("Not connected"@),
        ConnectionState::SocketNotFound => Some("Not connected"@),
        ConnectionState::WrongPassword => Some("Unauthenticated"@),
        ConnectionState::Unauthenticated => Some("Not connected"@),
        ConnectionState::CredentialStoreError => Some("Unauthenticated"@),
        ConnectionState::Connecting => Some("Connecting"@),
        ConnectionState::Connected => Some("Connected"@),
        ConnectionState::NotConnected => None,
    }
}

/// What the user is told of a connection that failed.
pub open spec fn state_dialog(state: ConnectionState, address: ServerAddress) -> Option<DialogView> {
    match state {
        ConnectionState::ConnectionRefused => Some(
            DialogView {
                heading: "Connection refused"@,
                body: "Euphonica could not connect to "@ + address.host@ + ":"@ + digits(
                    address.port as nat,
                )
                    + ". Please check your connection and network configuration and try again."@,
                suggest_open_preferences: true,
            },
        ),
        ConnectionState::SocketNotFound => Some(
            DialogView {
                heading: "Socket not found"@,
                body: "Euphonica couldn't connect to your socket at "@ + address.socket@
                    + ". Please ensure that MPD has been configured to bind to that socket and try again."@,
                suggest_open_preferences: true,
            },
        ),
        ConnectionState::WrongPassword => Some(
            DialogView {
                heading: "Incorrect password"@,
                body:
                    "MPD has refused the provided password. Please note that if your MPD instance is not password-protected, providing one will also cause this error."@,
                suggest_open_preferences: true,
            },
        ),
        ConnectionState::Unauthenticated => Some(
            DialogView {
                heading: "Authentication Failed"@,
                body:
                    "The current password lacks the necessary privileges for Euphonica to function."@,
                suggest_open_preferences: true,
            },
        ),
        ConnectionState::CredentialStoreError => Some(
            DialogView {
                heading: "Credential Store Error"@,
                body:
                    "Your MPD instance requires a password, but Euphonica could not access your default credential store to retrieve it. Please ensure that it has been unlocked before starting Euphonica."@,
                suggest_open_preferences: false,
            },
        ),
        _ => None,
    }
}

fn subtitle(state: ConnectionState) -> (r: Option<&'static str>)
    ensures
        r is Some <==> state_subtitle(state) is Some,
        r is Some ==> r->0@ == state_subtitle(state)->0,
{
    match state {
        ConnectionState::ConnectionRefused => Some("Not connected"),
        ConnectionState::SocketNotFound => Some("Not connected"),
        ConnectionState::WrongPassword => Some("Unauthenticated"),
        ConnectionState::Unauthenticated => Some("Not connected"),
        ConnectionState::CredentialStoreError => Some("Unauthenticated"),
        ConnectionState::Connecting => Some("Connecting"),
        ConnectionState::Connected => Some("Connected"),
        ConnectionState::NotConnected => None,
    }
}

fn dialog(state: ConnectionState, address: &ServerAddress) -> (r: Option<Dialog>)
    ensures
        r is Some <==> state_dialog(state, *address) is Some,
        r is Some ==> r->0@ == state_dialog(state, *address)->0,
{
    match state {
        ConnectionState::ConnectionRefused => {
            let mut body: String = "Euphonica could not connect to ".to_string();
            append(&mut body, address.host.as_str());
            append(&mut body, ":");
            push_digits(&mut body, address.port as u64);
            append(
                &mut body,
                ". Please check your connection and network configuration and try again.",
            );
            Some(Dialog { heading: "Connection refused", body, suggest_open_preferences: true })
        },
        ConnectionState::SocketNotFound => {
            let mut body: String = "Euphonica couldn't connect to your socket at ".to_string();
            append(&mut body, address.socket.as_str());
            append(
                &mut body,
                ". Please ensure that MPD has been configured to bind to that socket and try again.",
            );
            Some(Dialog { heading: "Socket not found", body, suggest_open_preferences: true })
        },
        ConnectionState::WrongPassword => Some(
            Dialog {
                heading: "Incorrect password",
                body:
                    "MPD has refused the provided password. Please note that if your MPD instance is not password-protected, providing one will also cause this error.".to_string(),
                suggest_open_preferences: true,
            },
        ),
        ConnectionState::Unauthenticated => Some(
            Dialog {
                heading: "Authentication Failed",
                body:
                    "The current password lacks the necessary privileges for Euphonica to function.".to_string(),
                suggest_open_preferences: true,
            },
        ),
        ConnectionState::CredentialStoreError => Some(
            Dialog {
                heading: "Credential Store Error",
                body:
                    "Your MPD instance requires a password, but Euphonica could not access your default credential store to retrieve it. Please ensure that it has been unlocked before starting Euphonica.".to_string(),
                suggest_open_preferences: false,
            },
        ),
        _ => None,
    }
}

/// What the window does about a change of the connection.
#[derive(Debug)]
pub struct ConnectionNotice {
    /// What the title says from now on, where that changes.
    pub subtitle: Option<&'static str>,
    pub dialog: Option<Dialog>,
    /// Whether the view that is shown is to be filled.
    pub populate: bool,
}

/// What the window remembers.
#[derive(Debug, Clone, Copy, PartialEq, Eq, Structural)]
pub struct Window {
    /// Whether views are filled when they are shown: the server can be asked.
    pub should_populate_visible: bool,
    /// Whether the accent colour is taken from the cover.
    pub auto_accent: bool,
}

/// What the window does when the use of the cover for the accent colour is switched.
#[derive(Debug, Clone, Copy, PartialEq, Eq, Structural)]
pub enum AccentChange {
    NoChange,
    /// Find the colour of the cover.
    Compute,
    /// Go back to the colour of the desktop.
    Revert,
}

impl Window {
    pub fn new() -> (r: Self)
        ensures
            !r.should_populate_visible,
            !r.auto_accent,
    {
        Window { should_populate_visible: false, auto_accent: false }
    }

    /// The connection has changed. No message is shown over another one.
    pub fn handle_connection_state(
        &mut self,
        state: ConnectionState,
        address: &ServerAddress,
        dialog_open: bool,
    ) -> (r: ConnectionNotice)
        ensures
            *final(self) == (Window {
                should_populate_visible: match state {
                    ConnectionState::Connecting => false,
                    ConnectionState::Connected => true,
                    _ => old(self).should_populate_visible,
                },
                ..*old(self)
            }),
            r.populate == (state == ConnectionState::Connected),
            r.subtitle is Some <==> state_subtitle(state) is Some,
            r.subtitle is Some ==> r.subtitle->0@ == state_subtitle(state)->0,
            r.dialog is Some <==> !dialog_open && state_dialog(state, *address) is Some,
            r.dialog is Some ==> r.dialog->0@ == state_dialog(state, *address)->0,
    {
        match state {
            ConnectionState::Connecting => {
                self.should_populate_visible = false;
            },
            ConnectionState::Connected => {
                self.should_populate_visible = true;
            },
            _ => {},
        }
        ConnectionNotice {
            subtitle: subtitle(state),
            dialog: if dialog_open {
                None
            } else {
                dialog(state, address)
            },
            populate: state == ConnectionState::Connected,
        }
    }

    /// The view to fill, where the one that is shown is such a view and the server can be asked.
    pub fn maybe_populate_visible(&self, visible: Option<&str>) -> (r: Option<LazyView>)
        ensures
            r == (match visible {
                Some(name) => if self.should_populate_visible {
                    lazy_view(name@)
                } else {
                    None
                },
                None => None,
            }),
    {
        if !self.should_populate_visible {
            return None;
        }
        match visible {
            Some(name) => if same(name, "recent") {
                Some(LazyView::Recent)
            } else if same(name, "albums") {
                Some(LazyView::Albums)
            } else if same(name, "artists") {
                Some(LazyView::Artists)
            } else if same(name, "genres") {
                Some(LazyView::Genres)
            } else if same(name, "folders") {
                Some(LazyView::Folders)
            } else if same(name, "queue") {
                Some(LazyView::Queue)
            } else {
                None
            },
            None => None,
        }
    }

    /// Switches the use of the cover for the accent colour.
    pub fn set_auto_accent(&mut self, new: bool) -> (r: AccentChange)
        ensures
            *final(self) == (Window { auto_accent: new, ..*old(self) }),
            r == (if old(self).auto_accent == new {
                AccentChange::NoChange
            } else if new {
                AccentChange::Compute
            } else {
                AccentChange::Revert
            }),
    {
        let old: bool = self.auto_accent;
        self.auto_accent = new;
        if old == new {
            AccentChange::NoChange
        } else if new {
            AccentChange::Compute
        } else {
            AccentChange::Revert
        }
    }
}

/// A colour in the form that style sheets write it.
pub open spec fn rgb_text(r: int, g: int, b: int) -> Seq<char> {
    "rgb("@ + digits(r as nat) + ", "@ + digits(g as nat) + ", "@ + digits(b as nat) + ")"@
}

/// The style sheet that sets the accent colour. Over one that is bright the text is dark.
pub open spec fn accent_css_text(r: int, g: int, b: int, is_bright: bool) -> Seq<char> {
    "\n:root {\n    --accent-bg-color: "@ + rgb_text(r, g, b) + ";\n"@ + (if is_bright {
        "    --accent-fg-color: rgb(0 0 0 / 80%);\n"@
    } else {
        Seq::empty()
    }) + "}\n.fg-auto-accent {\n    color: "@ + rgb_text(r, g, b) + ";\n}\n"@
}

fn push_rgb(s: &mut String, r: u8, g: u8, b: u8)
    ensures
        final(s)@ == old(s)@ + rgb_text(r as int, g as int, b as int),
{
    let ghost start = s@;
    append(s, "rgb(");
    push_digits(s, r as u64);
    append(s, ", ");
    push_digits(s, g as u64);
    append(s, ", ");
    push_digits(s, b as u64);
    append(s, ")");
    assert(s@ =~= start + rgb_text(r as int, g as int, b as int));
}

/// The style sheet that sets the accent colour.
pub fn accent_css(r: u8, g: u8, b: u8, is_bright: bool) -> (css: String)
    ensures
        css@ == accent_css_text(r as int, g as int, b as int, is_bright),
{
    let mut s: String = "\n:root {\n    --accent-bg-color: ".to_string();
    push_rgb(&mut s, r, g, b);
    append(&mut s, ";\n");
    if is_bright {
        append(&mut s, "    --accent-fg-color: rgb(0 0 0 / 80%);\n");
    }
    let ghost half = s@;
    proof {
        assert(half =~= "\n:root {\n    --accent-bg-color: "@ + rgb_text(
            r as int,
            g as int,
            b as int,
        ) + ";\n"@ + (if is_bright {
            "    --accent-fg-color: rgb(0 0 0 / 80%);\n"@
        } else {
            Seq::empty()
        }));
    }
    append(&mut s, "}\n.fg-auto-accent {\n    color: ");
    push_rgb(&mut s, r, g, b);
    append(&mut s, ";\n}\n");
    s
}

/// How many tasks are done, of how many.
pub fn task_count_label(done: u64, total: u64) -> (r: String)
    ensures
        r@ == ""@ + digits(done as nat) + "/"@ + digits(total as nat),
{
    let mut s: String = numbered("", done, "/");
    push_digits(&mut s, total);
    s
}

/// What stands beside a number of tasks.
pub fn task_stack_name(n: u64) -> (r: &'static str)
    ensures
        r@ == (if n > 0 {
            "pending"@
        } else {
            "idle"@
        }),
{
    if n > 0 {
        "pending"
    } else {
        "idle"
    }
}

/// What the user is told of a change on the server.
pub fn idle_toast(subsystem: Subsystem) -> (r: Option<&'static str>)
    ensures
        r is Some <==> subsystem == Subsystem::Database,
        r is Some ==> r->0@ == "Database updated with changes"@,
{
    match subsystem {
        Subsystem::Database => Some("Database updated with changes"),
        _ => None,
    }
}

/// A connection that failed is never called one that stands.
pub proof fn law_failures_are_not_called_connected(state: ConnectionState, address: ServerAddress)
    ensures
        state_dialog(state, address) is Some ==> state_subtitle(state) is Some && state_subtitle(
            state,
        )->0 != "Connected"@,
{
    reveal_strlit("Connected");
    reveal_strlit("Not connected");
    reveal_strlit("Unauthenticated");
    assert("Connected"@.len() != "Not connected"@.len());
    assert("Connected"@.len() != "Unauthenticated"@.len());
}

/// Each colour scheme is read back from its name, and any other name follows the desktop.
pub proof fn law_names_of_schemes(scheme: ColorScheme, name: &'static str, other: &str, r: ColorScheme)
    requires
        call_ensures(ColorScheme::name, (scheme,), name),
        call_ensures(ColorScheme::from_name, (other,), r),
    ensures
        scheme == ColorScheme::Follow ==> name@ == "follow"@,
        scheme == ColorScheme::ForceLight ==> name@ == "light"@,
        scheme == ColorScheme::PreferLight ==> name@ == "prefer-light"@,
        scheme == ColorScheme::PreferDark ==> name@ == "prefer-dark"@,
        scheme == ColorScheme::ForceDark ==> name@ == "dark"@,
        other@ == name@ ==> r == scheme,
        r == ColorScheme::ForceDark <==> other@ == "dark"@,
        r == ColorScheme::ForceLight <==> other@ == "light"@,
        r == ColorScheme::PreferDark <==> other@ == "prefer-dark"@,
        r == ColorScheme::PreferLight <==> other@ == "prefer-light"@,
{
    law_scheme_is_read_back(scheme);
    law_scheme_is_read_back(ColorScheme::ForceDark);
    law_scheme_is_read_back(ColorScheme::ForceLight);
    law_scheme_is_read_back(ColorScheme::PreferDark);
    law_scheme_is_read_back(ColorScheme::PreferLight);
}

/// The bar of the player is shown unless the queue is, which has controls of its own; where the queue takes
/// turns with its controls it is shown over the list.
pub proof fn law_the_bar_is_shown(queue: bool, collapsed: bool, content: bool, r: bool)
    requires
        call_ensures(player_bar_visibility, (queue, collapsed, content), r),
    ensures
        !queue ==> r,
        queue && !collapsed ==> !r,
        queue && collapsed ==> r == content,
{
}

/// The shading goes where something is shown behind the window: the cover or the visualiser, and the cover
/// only where there is one.
pub proof fn law_shading(art: bool, visualizer: bool, picture: bool, bare: bool, over: bool)
    requires
        call_ensures(has_no_shading, (art, visualizer), bare),
        call_ensures(has_no_shading_over, (art, picture), over),
    ensures
        !bare <==> !art && !visualizer,
        over ==> art && picture,
        art && picture ==> over,
{
}

/// Going to a view shows it, and hides the sidebar where that covers it.
pub proof fn law_going_to_views(
    shown: bool,
    collapsed: bool,
    pane: Navigation,
    album: Navigation,
    artist: Navigation,
    playlist: Navigation,
)
    requires
        call_ensures(goto_pane, (collapsed,), pane),
        call_ensures(goto_album, (shown, collapsed), album),
        call_ensures(goto_artist, (shown, collapsed), artist),
        call_ensures(goto_playlist, (shown, collapsed), playlist),
    ensures
        pane.view@ == "queue"@ && album.view@ == "albums"@ && artist.view@ == "artists"@
            && playlist.view@ == "playlists"@,
        pane.show_sidebar == Some(!collapsed) && pane.show_content == Some(false),
        !shown ==> album.show_sidebar is None && artist.show_sidebar is None
            && playlist.show_sidebar is None,
        shown ==> album.show_sidebar == Some(!collapsed) && artist.show_sidebar == Some(!collapsed)
            && playlist.show_sidebar == Some(!collapsed),
        album.show_content is None && artist.show_content is None && playlist.show_content is None,
{
}

/// The view that is shown is filled once the server can be asked; views without content of the server never
/// are.
pub proof fn law_views_are_filled(w: Window, name: &str, r: Option<LazyView>, hidden: Option<LazyView>)
    requires
        call_ensures(Window::maybe_populate_visible, (&w, Some(name)), r),
        call_ensures(Window::maybe_populate_visible, (&w, None::<&str>), hidden),
    ensures
        hidden is None,
        !w.should_populate_visible ==> r is None,
        w.should_populate_visible && name@ == "recent"@ ==> r == Some(LazyView::Recent),
        w.should_populate_visible && name@ == "albums"@ ==> r == Some(LazyView::Albums),
        w.should_populate_visible && name@ == "artists"@ ==> r == Some(LazyView::Artists),
        w.should_populate_visible && name@ == "genres"@ ==> r == Some(LazyView::Genres),
        w.should_populate_visible && name@ == "folders"@ ==> r == Some(LazyView::Folders),
        w.should_populate_visible && name@ == "queue"@ ==> r == Some(LazyView::Queue),
        r is Some ==> name@ == "recent"@ || name@ == "albums"@ || name@ == "artists"@ || name@
            == "genres"@ || name@ == "folders"@ || name@ == "queue"@,
{
    reveal_strlit("recent");
    reveal_strlit("albums");
    reveal_strlit("artists");
    reveal_strlit("genres");
    reveal_strlit("folders");
    reveal_strlit("queue");
    assert("recent"@[0] != "albums"@[0]);
    assert("recent"@[0] != "genres"@[0]);
    assert("albums"@[0] != "genres"@[0]);
    assert("artists"@[0] != "folders"@[0]);
    assert("artists"@.len() != "albums"@.len());
    assert("artists"@.len() != "recent"@.len());
}

/// The title tells how the connection is. Views are filled once it stands, and no more while it is made; each
/// way in which it fails opens a dialog, unless one is open already, and nothing else does.
pub proof fn law_connection_states_are_shown(
    w: &mut Window,
    state: ConnectionState,
    address: ServerAddress,
    dialog_open: bool,
    r: ConnectionNotice,
)
    requires
        call_ensures(Window::handle_connection_state, (w, state, &address, dialog_open), r),
    ensures
        final(w).auto_accent == old(w).auto_accent,
        state == ConnectionState::Connecting ==> !final(w).should_populate_visible,
        state == ConnectionState::Connected ==> final(w).should_populate_visible,
        state != ConnectionState::Connecting && state != ConnectionState::Connected ==> final(w).should_populate_visible
            == old(w).should_populate_visible,
        r.populate <==> state == ConnectionState::Connected,
        r.subtitle is None <==> state == ConnectionState::NotConnected,
        state == ConnectionState::Connecting ==> r.subtitle->0@ == "Connecting"@,
        state == ConnectionState::Connected ==> r.subtitle->0@ == "Connected"@,
        state == ConnectionState::WrongPassword || state == ConnectionState::CredentialStoreError
            ==> r.subtitle->0@ == "Unauthenticated"@,
        state == ConnectionState::ConnectionRefused || state == ConnectionState::SocketNotFound
            || state == ConnectionState::Unauthenticated ==> r.subtitle->0@ == "Not connected"@,
        dialog_open ==> r.dialog is None,
        !dialog_open ==> (r.dialog is None <==> state == ConnectionState::Connecting || state
            == ConnectionState::Connected || state == ConnectionState::NotConnected),
        r.dialog is Some ==> (r.dialog->0.suggest_open_preferences <==> state
            != ConnectionState::CredentialStoreError),
        r.dialog is Some && state == ConnectionState::ConnectionRefused ==> r.dialog->0.heading@
            == "Connection refused"@ && r.dialog->0.body@ == "Euphonica could not connect to "@
            + address.host@ + ":"@ + digits(address.port as nat)
            + ". Please check your connection and network configuration and try again."@,
        r.dialog is Some && state == ConnectionState::SocketNotFound ==> r.dialog->0.heading@
            == "Socket not found"@ && r.dialog->0.body@
            == "Euphonica couldn't connect to your socket at "@ + address.socket@
            + ". Please ensure that MPD has been configured to bind to that socket and try again."@,
        r.dialog is Some && state == ConnectionState::WrongPassword ==> r.dialog->0.heading@
            == "Incorrect password"@,
        r.dialog is Some && state == ConnectionState::Unauthenticated ==> r.dialog->0.heading@
            == "Authentication Failed"@,
        r.dialog is Some && state == ConnectionState::CredentialStoreError ==> r.dialog->0.heading@
            == "Credential Store Error"@,
{
    if r.dialog is Some {
        let d = r.dialog->0;
        assert(d@.heading == d.heading@ && d@.body == d.body@);
        assert(d@.suggest_open_preferences == d.suggest_open_preferences);
    }
}

/// The accent colour is found when its use is switched on, and goes when it is switched off.
pub proof fn law_the_accent_is_switched(w: &mut Window, new: bool, r: AccentChange)
    requires
        call_ensures(Window::set_auto_accent, (w, new), r),
    ensures
        final(w).auto_accent == new,
        final(w).should_populate_visible == old(w).should_populate_visible,
        r == AccentChange::Compute <==> new && !old(w).auto_accent,
        r == AccentChange::Revert <==> !new && old(w).auto_accent,
        r == AccentChange::NoChange <==> new == old(w).auto_accent,
{
}

/// Tasks are counted as done of all, and are pending while there are any.
pub proof fn law_tasks_are_counted(done: u64, total: u64, r: String, n: u64, name: &'static str)
    requires
        call_ensures(task_count_label, (done, total), r),
        call_ensures(task_stack_name, (n,), name),
    ensures
        r@ == digits(done as nat) + "/"@ + digits(total as nat),
        n == 0 ==> name@ == "idle"@,
        n > 0 ==> name@ == "pending"@,
{
    reveal_strlit("");
    assert(""@ + digits(done as nat) =~= digits(done as nat));
}

/// The user is told of changes to the database, and of no others.
pub proof fn law_changes_are_told(subsystem: Subsystem, r: Option<&'static str>)
    requires
        call_ensures(idle_toast, (subsystem,), r),
    ensures
        r is Some <==> subsystem == Subsystem::Database,
        r is Some ==> r->0@ == "Database updated with changes"@,
{
}

/// The style sheet has a colour for text on the accent exactly where the accent is bright.
pub proof fn law_text_on_bright_accents(red: u8, green: u8, blue: u8, bright: String, dark: String)
    requires
        call_ensures(accent_css, (red, green, blue, true), bright),
        call_ensures(accent_css, (red, green, blue, false), dark),
    ensures
        ({
            let colour = "rgb("@ + digits(red as nat) + ", "@ + digits(green as nat) + ", "@
                + digits(blue as nat) + ")"@;
            let front = "\n:root {\n    --accent-bg-color: "@ + colour + ";\n"@;
            let back = "}\n.fg-auto-accent {\n    color: "@ + colour + ";\n}\n"@;
            &&& dark@ == front + back
            &&& bright@ == front + "    --accent-fg-color: rgb(0 0 0 / 80%);\n"@ + back
        }),
{
    let colour = rgb_text(red as int, green as int, blue as int);
    let front = "\n:root {\n    --accent-bg-color: "@ + colour + ";\n"@;
    let back = "}\n.fg-auto-accent {\n    color: "@ + colour + ";\n}\n"@;
    assert(dark@ =~= front + back);
    assert(bright@ =~= front + "    --accent-fg-color: rgb(0 0 0 / 80%);\n"@ + back);
}

}
