//! The picture behind the window: what the thread that blurs it does with the messages it gets.
use vstd::prelude::*;

use crate::common::opt_view;
use crate::text::same;

verus! {

/// How a picture is fitted to the window and blurred.
#[derive(Debug, Clone, Copy, PartialEq, Eq, Structural)]
pub struct BlurConfig {
    pub width: u32,
    pub height: u32,
    pub radius: u32,
    pub is_dark: bool,
    /// Whether the window fades to the result. An update of the radius is shown at once.
    pub fade: bool,
}

/// What the window asks of the thread.
#[derive(Debug)]
pub enum WindowMessage {
    /// Show the picture at a path.
    NewBackground(String, BlurConfig),
    /// Show the same picture in another form.
    UpdateBackground(BlurConfig),
    /// Find the accent colour of the picture anew, for a dark theme or a light one.
    UpdateAccent(bool),
    ClearBackground,
    Stop,
}

/// What a `WindowMessage` says.
pub enum WindowMessageView {
    NewBackground(Seq<char>, BlurConfig),
    UpdateBackground(BlurConfig),
    UpdateAccent(bool),
    ClearBackground,
    Stop,
}

impl View for WindowMessage {
    type V = WindowMessageView;

    open spec fn view(&self) -> WindowMessageView {
        match *self {
            WindowMessage::NewBackground(path, config) => WindowMessageView::NewBackground(
                path@,
                config,
            ),
            WindowMessage::UpdateBackground(config) => WindowMessageView::UpdateBackground(config),
            WindowMessage::UpdateAccent(is_dark) => WindowMessageView::UpdateAccent(is_dark),
            WindowMessage::ClearBackground => WindowMessageView::ClearBackground,
            WindowMessage::Stop => WindowMessageView::Stop,
        }
    }
}

/// What the thread does about a message, in this order.
#[derive(Debug, Clone, Copy, PartialEq, Eq, Structural)]
pub struct Work {
    /// Read the picture from its file.
    pub load: bool,
    /// Send the blurred picture and its accent colour; the flag in it says whether to fade.
    pub blur: Option<BlurConfig>,
    /// Send the accent colour alone, for a dark theme or a light one.
    pub accent: Option<bool>,
    /// Wait until the window has faded to the result.
    pub wait: bool,
    pub stop: bool,
}

/// No work at all.
pub open spec fn no_work() -> Work {
    Work { load: false, blur: None, accent: None, wait: false, stop: false }
}

/// Whether there is a window to show a picture in. There is none right after it was made.
pub open spec fn has_area(config: BlurConfig) -> bool {
    config.width > 0 && config.height > 0
}

/// What is blurred for a window: nothing where it has no area.
pub open spec fn blur_for(config: BlurConfig, fade: bool) -> Option<BlurConfig> {
    if has_area(config) {
        Some(BlurConfig { fade, ..config })
    } else {
        None
    }
}

/// What is done about a message while the picture at `path` is held.
pub open spec fn work_for(path: Option<Seq<char>>, message: WindowMessageView) -> Work {
    match message {
        WindowMessageView::NewBackground(new, config) => if path == Some(new) {
            no_work()
        } else {
            Work {
                load: true,
                blur: blur_for(config, true),
                wait: has_area(config),
                ..no_work()
            }
        },
        WindowMessageView::UpdateBackground(config) => if path is None {
            no_work()
        } else {
            Work { blur: blur_for(config, config.fade), wait: config.fade, ..no_work() }
        },
        WindowMessageView::UpdateAccent(is_dark) => if path is None {
            no_work()
        } else {
            Work { accent: Some(is_dark), ..no_work() }
        },
        WindowMessageView::ClearBackground => no_work(),
        WindowMessageView::Stop => Work { stop: true, ..no_work() },
    }
}

/// The path of the picture that is held after a message.
pub open spec fn path_after(path: Option<Seq<char>>, message: WindowMessageView) -> Option<Seq<char>> {
    match message {
        WindowMessageView::NewBackground(new, _) => Some(new),
        WindowMessageView::ClearBackground => None,
        _ => path,
    }
}

/// What the thread holds: one picture, so as not to read it again for each change of the window.
#[derive(Debug)]
pub struct Background {
    path: Option<String>,
}

impl View for Background {
    type V = Option<Seq<char>>;

    /// The path of the picture that is held.
    closed spec fn view(&self) -> Option<Seq<char>> {
        opt_view(self.path)
    }
}

impl Background {
    pub fn new() -> (r: Self)
        ensures
            r@ is None,
    {
        Background { path: None }
    }

    /// What to do about a message.
    pub fn handle(&mut self, message: WindowMessage) -> (r: Work)
        ensures
            r == work_for(old(self)@, message@),
            final(self)@ == path_after(old(self)@, message@),
    {
        let idle = Work { load: false, blur: None, accent: None, wait: false, stop: false };
        match message {
            WindowMessage::NewBackground(path, config) => {
                let held: bool = match &self.path {
                    Some(old) => same(old.as_str(), path.as_str()),
                    None => false,
                };
                if held {
                    idle
                } else {
                    self.path = Some(path);
                    let area: bool = config.width > 0 && config.height > 0;
                    Work {
                        load: true,
                        blur: if area {
                            Some(BlurConfig { fade: true, ..config })
                        } else {
                            None
                        },
                        wait: area,
                        ..idle
                    }
                }
            },
            WindowMessage::UpdateBackground(config) => {
                if self.path.is_none() {
                    idle
                } else {
                    Work {
                        blur: if config.width > 0 && config.height > 0 {
                            Some(config)
                        } else {
                            None
                        },
                        wait: config.fade,
                        ..idle
                    }
                }
            },
            WindowMessage::UpdateAccent(is_dark) => {
                if self.path.is_none() {
                    idle
                } else {
                    Work { accent: Some(is_dark), ..idle }
                }
            },
            WindowMessage::ClearBackground => {
                self.path = None;
                idle
            },
            WindowMessage::Stop => Work { stop: true, ..idle },
        }
    }
}

/// The one of the messages that have come in which counts: the last. The others are dropped, so that
/// skipping many songs does not flicker through their covers.
pub fn newest(messages: Vec<WindowMessage>) -> (r: Option<WindowMessage>)
    ensures
        r == (if messages@.len() == 0 {
            None
        } else {
            Some(messages@.last())
        }),
{
    let mut messages: Vec<WindowMessage> = messages;
    messages.pop()
}

/// Asking for the picture that is held is no work.
pub proof fn law_same_picture_is_not_loaded_again(
    path: Option<Seq<char>>,
    new: Seq<char>,
    config: BlurConfig,
)
    ensures
        ({
            let message = WindowMessageView::NewBackground(new, config);
            work_for(path_after(path, message), message) == no_work()
        }),
{
}

/// A picture is sent only to a window that has an area, and what needs a picture is done only while
/// one is held or being loaded.
pub proof fn law_pictures_fit_a_window(path: Option<Seq<char>>, message: WindowMessageView)
    ensures
        ({
            let work = work_for(path, message);
            &&& work.blur is Some ==> has_area(work.blur->0)
            &&& work.blur is Some || work.accent is Some ==> path is Some || work.load
            &&& work.load ==> path_after(path, message) is Some
        }),
{
}

/// A picture is loaded when another one is to be shown, and is blurred wherever the window has an area. The
/// worker waits where the window fades to the result.
pub proof fn law_new_pictures(b: &mut Background, path: String, config: BlurConfig, r: Work)
    requires
        call_ensures(Background::handle, (b, WindowMessage::NewBackground(path, config)), r),
    ensures
        final(b)@ == Some(path@),
        r.load <==> old(b)@ != Some(path@),
        r.blur is Some <==> r.load && config.width > 0 && config.height > 0,
        r.blur is Some ==> r.blur->0.fade && r.blur->0.width == config.width && r.blur->0.height
            == config.height && r.blur->0.radius == config.radius && r.blur->0.is_dark
            == config.is_dark,
        r.wait <==> r.blur is Some,
        r.accent is None && !r.stop,
{
}

/// A change of the form is shown for the picture that is there, and fades where it asks for that. A change of
/// the theme finds the accent colour anew. Without a picture neither does anything.
pub proof fn law_changed_pictures(
    b: &mut Background,
    config: BlurConfig,
    r: Work,
    c: &mut Background,
    is_dark: bool,
    accent: Work,
)
    requires
        call_ensures(Background::handle, (b, WindowMessage::UpdateBackground(config)), r),
        call_ensures(Background::handle, (c, WindowMessage::UpdateAccent(is_dark)), accent),
    ensures
        final(b)@ == old(b)@ && final(c)@ == old(c)@,
        !r.load && !accent.load && !r.stop && !accent.stop,
        r.blur is Some <==> old(b)@ is Some && config.width > 0 && config.height > 0,
        r.blur is Some ==> r.blur->0 == config,
        r.wait <==> old(b)@ is Some && config.fade,
        r.accent is None,
        accent.accent is Some <==> old(c)@ is Some,
        accent.accent is Some ==> accent.accent->0 == is_dark,
        accent.blur is None && !accent.wait,
{
}

/// A picture that is cleared is forgotten, so that it is loaded when it comes again. The worker stops when it
/// is told to, and at nothing else.
pub proof fn law_cleared_pictures(new: Background, b: &mut Background, r: Work, c: &mut Background, end: Work)
    requires
        call_ensures(Background::new, (), new),
        call_ensures(Background::handle, (b, WindowMessage::ClearBackground), r),
        call_ensures(Background::handle, (c, WindowMessage::Stop), end),
    ensures
        new@ is None,
        final(b)@ is None,
        !r.load && r.blur is None && r.accent is None && !r.wait && !r.stop,
        end.stop,
        !end.load && end.blur is None && end.accent is None && !end.wait,
{
}

/// Of the messages that wait only the newest counts.
pub proof fn law_the_newest_message_counts(messages: Vec<WindowMessage>, r: Option<WindowMessage>)
    requires
        call_ensures(newest, (messages,), r),
    ensures
        r is None <==> messages@.len() == 0,
        r is Some ==> r->0 == messages@[messages@.len() - 1],
{
}

}
