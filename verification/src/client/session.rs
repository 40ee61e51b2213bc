//! One connection to the server: when it waits, when it connects again, and when it gives up.
use vstd::prelude::*;

use super::error::{is_lost, Error, ErrorCode, MpdError};
use super::state::Subsystem;

verus! {

/// How often a lost connection is made anew for one command, where the user allows it.
pub const MAX_RETRIES: u32 = 3;

/// How often a lost connection is made anew for one command.
pub fn max_retries(auto_reconnect: bool) -> (r: u32)
    ensures
        r == (if auto_reconnect {
            MAX_RETRIES
        } else {
            0
        }),
{
    if auto_reconnect {
        MAX_RETRIES
    } else {
        0
    }
}

/// One connection to the server.
#[derive(Debug, Clone, Copy, PartialEq, Eq, Structural)]
pub struct Connection {
    /// Whether there is a client.
    pub connected: bool,
    /// Whether the connection listens for changes while it has nothing to do.
    pub idles: bool,
    pub max_retries: u32,
    pub retries_left: u32,
}

/// What a connection does next.
#[derive(Debug, Clone, Copy, PartialEq, Eq, Structural)]
pub enum NextAction {
    /// Wait for a task and do it.
    TakeTask,
    /// Listen for changes on the server.
    Idle,
}

/// What follows when a command has failed.
#[derive(Debug, Clone, Copy, PartialEq, Eq, Structural)]
pub enum Recovery {
    /// Connect again, then try the command again.
    Reconnect,
    /// Report the error.
    GiveUp,
}

/// What follows when a command has failed.
pub open spec fn recovery(c: Connection, e: Error) -> Recovery {
    if is_lost(e) && c.retries_left > 0 {
        Recovery::Reconnect
    } else {
        Recovery::GiveUp
    }
}

/// The connection after a command has failed. A connection that is lost is closed.
pub open spec fn after_failure(c: Connection, e: Error) -> Connection {
    if is_lost(e) {
        Connection {
            connected: false,
            retries_left: if c.retries_left > 0 {
                (c.retries_left - 1) as u32
            } else {
                0
            },
            ..c
        }
    } else {
        c
    }
}

/// The connection after an attempt to connect. Success restores the number of retries.
pub open spec fn after_connect(c: Connection, success: bool) -> Connection {
    if success {
        Connection { connected: true, retries_left: c.max_retries, ..c }
    } else {
        c
    }
}

/// What becomes of a connection whose attempts to connect again all fail.
pub open spec fn after_futile_retries(c: Connection, n: nat) -> Connection
    decreases n,
{
    if n == 0 {
        c
    } else {
        after_connect(
            after_failure(after_futile_retries(c, (n - 1) as nat), Error::NotConnected),
            false,
        )
    }
}

impl Connection {
    /// A connection that is yet to be made.
    pub fn new(idles: bool, max_retries: u32) -> (r: Self)
        ensures
            r == (Connection { connected: false, idles, max_retries, retries_left: max_retries }),
    {
        Connection { connected: false, idles, max_retries, retries_left: max_retries }
    }

    /// What to do next, by whether tasks are waiting. Only a connection that listens, and has nothing
    /// else to do, idles.
    pub fn next_action(&self, has_tasks: bool) -> (r: NextAction)
        ensures
            r == NextAction::Idle <==> !has_tasks && self.idles && self.connected,
    {
        if has_tasks || !self.idles || !self.connected {
            NextAction::TakeTask
        } else {
            NextAction::Idle
        }
    }

    /// An error where there is no client that a command could be given to.
    pub fn require_client(&self) -> (r: Result<(), Error>)
        ensures
            match r {
                Ok(_) => self.connected,
                Err(e) => e is NotConnected && !self.connected,
            },
    {
        if self.connected {
            Ok(())
        } else {
            Err(Error::NotConnected)
        }
    }

    /// Takes note that a command has failed, and says what follows.
    pub fn handle_failure(&mut self, e: &Error) -> (r: Recovery)
        ensures
            r == recovery(*old(self), *e),
            *final(self) == after_failure(*old(self), *e),
    {
        if e.is_connection_lost() {
            self.connected = false;
            if self.retries_left > 0 {
                self.retries_left = self.retries_left - 1;
                Recovery::Reconnect
            } else {
                Recovery::GiveUp
            }
        } else {
            Recovery::GiveUp
        }
    }

    /// Takes note of an attempt to connect.
    pub fn handle_connect(&mut self, success: bool)
        ensures
            *final(self) == after_connect(*old(self), success),
    {
        if success {
            self.connected = true;
            self.retries_left = self.max_retries;
        }
    }

    /// Takes note that the connection was closed on request, with success or not. Says whether the
    /// connection is to end for good.
    pub fn handle_disconnect(&mut self, success: bool, stop: bool) -> (r: bool)
        ensures
            *final(self) == (Connection { connected: false, ..*old(self) }),
            r == (success && stop),
    {
        self.connected = false;
        success && stop
    }
}

/// What a change is answered with that the server reports to a connection which idles.
#[derive(Debug, Clone, Copy, PartialEq, Eq, Structural)]
pub enum IdleAnswer {
    /// Read the messages, without which none will be reported any more. They only serve to wake up.
    ReadMessages,
    /// Tell the rest of the player.
    Forward,
}

/// What a change is answered with that the server reports to a connection which idles.
pub fn answer_idle(subsystem: Subsystem) -> (r: IdleAnswer)
    ensures
        r == IdleAnswer::ReadMessages <==> subsystem == Subsystem::Message,
{
    match subsystem {
        Subsystem::Message => IdleAnswer::ReadMessages,
        _ => IdleAnswer::Forward,
    }
}

/// The steps of making a connection.
#[derive(Debug, Clone, Copy, PartialEq, Eq, Structural)]
pub enum ConnectStage {
    /// Opening the local socket.
    OpenSocket,
    /// Opening the connection over the network.
    OpenTcp,
    /// Greeting the server.
    Greet,
    /// Reading the password from the store.
    ReadPassword,
    /// Logging in with it.
    LogIn,
    /// Subscribing to the channel that wakes the connection up, which shows whether it is authorised.
    Subscribe,
}

/// The error that a step of making a connection fails with, given what went wrong with the server where
/// it takes part.
pub fn connect_error(stage: ConnectStage, cause: MpdError) -> (r: Error)
    ensures
        match stage {
            ConnectStage::OpenSocket => r is Socket,
            ConnectStage::OpenTcp => r is Tcp,
            ConnectStage::ReadPassword => r is CredentialStore,
            ConnectStage::Greet | ConnectStage::LogIn | ConnectStage::Subscribe => r == Error::Mpd(
                cause,
            ),
        },
{
    match stage {
        ConnectStage::OpenSocket => Error::Socket,
        ConnectStage::OpenTcp => Error::Tcp,
        ConnectStage::ReadPassword => Error::CredentialStore,
        ConnectStage::Greet | ConnectStage::LogIn | ConnectStage::Subscribe => Error::Mpd(cause),
    }
}

/// The step that follows one that went well; nothing after the last. Where no password is stored there
/// is no login.
pub fn next_stage(stage: ConnectStage, has_password: bool) -> (r: Option<ConnectStage>)
    ensures
        r == (match stage {
            ConnectStage::OpenSocket | ConnectStage::OpenTcp => Some(ConnectStage::Greet),
            ConnectStage::Greet => Some(ConnectStage::ReadPassword),
            ConnectStage::ReadPassword => if has_password {
                Some(ConnectStage::LogIn)
            } else {
                Some(ConnectStage::Subscribe)
            },
            ConnectStage::LogIn => Some(ConnectStage::Subscribe),
            ConnectStage::Subscribe => None::<ConnectStage>,
        }),
{
    match stage {
        ConnectStage::OpenSocket | ConnectStage::OpenTcp => Some(ConnectStage::Greet),
        ConnectStage::Greet => Some(ConnectStage::ReadPassword),
        ConnectStage::ReadPassword => if has_password {
            Some(ConnectStage::LogIn)
        } else {
            Some(ConnectStage::Subscribe)
        },
        ConnectStage::LogIn => Some(ConnectStage::Subscribe),
        ConnectStage::Subscribe => None,
    }
}

/// How an image is provided.
#[derive(Debug)]
pub enum ImageSource {
    /// From the files that it was stored under, in full size and as a thumbnail.
    Stored(String, String),
    /// By downloading it.
    Download,
}

/// Where an image is taken from: the two stored files, if both are there.
pub fn image_source(hires: Option<String>, thumb: Option<String>) -> (r: ImageSource)
    ensures
        r == (if hires is Some && thumb is Some {
            ImageSource::Stored(hires->0, thumb->0)
        } else {
            ImageSource::Download
        }),
{
    match (hires, thumb) {
        (Some(h), Some(t)) => ImageSource::Stored(h, t),
        _ => ImageSource::Download,
    }
}

/// Whether a failed download only says that there is no such image: the reply is empty, or the server
/// knows none.
pub open spec fn says_no_image(e: MpdError) -> bool {
    e == MpdError::Proto(true) || e matches MpdError::Server(ErrorCode::NoExist, _)
}

/// What a failed download comes to: no image, or an error.
pub fn download_failure(e: MpdError) -> (r: Result<(), MpdError>)
    ensures
        match r {
            Ok(_) => says_no_image(e),
            Err(same) => same == e && !says_no_image(e),
        },
{
    let none: bool = match &e {
        MpdError::Proto(empty) => *empty,
        MpdError::Server(code, _) => *code == ErrorCode::NoExist,
        _ => false,
    };
    if none {
        Ok(())
    } else {
        Err(e)
    }
}

/// A command whose attempts to connect again all fail is given up after as many of them as are left: up
/// to there each failure leads to another attempt, and the next is reported.
pub proof fn law_futile_retries_are_bounded(c: Connection, n: nat)
    requires
        n <= c.retries_left,
    ensures
        after_futile_retries(c, n).retries_left == c.retries_left - n,
        n < c.retries_left ==> recovery(after_futile_retries(c, n), Error::NotConnected)
            == Recovery::Reconnect,
        n == c.retries_left ==> recovery(after_futile_retries(c, n), Error::NotConnected)
            == Recovery::GiveUp,
    decreases n,
{
    if n > 0 {
        law_futile_retries_are_bounded(c, (n - 1) as nat);
    }
}

/// The number of retries never exceeds what the user allows.
pub proof fn law_retries_stay_within_limit(c: Connection, e: Error, success: bool)
    requires
        c.retries_left <= c.max_retries,
    ensures
        after_failure(c, e).retries_left <= c.max_retries,
        after_connect(c, success).retries_left <= c.max_retries,
        after_failure(c, e).max_retries == c.max_retries,
        after_connect(c, success).max_retries == c.max_retries,
{
}

/// Errors of any other kind are reported at once, and leave the connection as it is.
pub proof fn law_other_errors_are_reported(c: Connection, e: Error)
    requires
        !is_lost(e),
    ensures
        recovery(c, e) == Recovery::GiveUp,
        after_failure(c, e) == c,
{
}

/// Where the player reconnects by itself a command is tried three times more, else not at all.
pub proof fn law_number_of_retries(auto_reconnect: bool, r: u32)
    requires
        call_ensures(max_retries, (auto_reconnect,), r),
    ensures
        auto_reconnect ==> r == 3,
        !auto_reconnect ==> r == 0,
{
}

/// A lost connection is made anew as long as there are retries left, each of which it uses up; any other
/// error is reported, and changes nothing.
pub proof fn law_failures(c: &mut Connection, e: Error, r: Recovery)
    requires
        call_ensures(Connection::handle_failure, (c, &e), r),
    ensures
        e == Error::NotConnected || e == Error::Mpd(MpdError::Io) ==> {
            &&& !final(c).connected
            &&& old(c).retries_left > 0 ==> r == Recovery::Reconnect && final(c).retries_left
                == old(c).retries_left - 1
            &&& old(c).retries_left == 0 ==> r == Recovery::GiveUp && final(c).retries_left == 0
        },
        e != Error::NotConnected && e != Error::Mpd(MpdError::Io) ==> r == Recovery::GiveUp
            && *final(c) == *old(c),
        final(c).max_retries == old(c).max_retries,
        final(c).idles == old(c).idles,
{
}

/// A connection that was made has all its retries again; one that was not changes nothing.
pub proof fn law_connections_are_made(c: &mut Connection, success: bool)
    requires
        call_ensures(Connection::handle_connect, (c, success), ()),
    ensures
        success ==> final(c).connected && final(c).retries_left == old(c).max_retries,
        !success ==> *final(c) == *old(c),
        final(c).max_retries == old(c).max_retries,
        final(c).idles == old(c).idles,
{
}

/// A connection that was closed has no client any more. The thread ends where it was to stop and closing
/// succeeded.
pub proof fn law_connections_are_closed(c: &mut Connection, success: bool, stop: bool, r: bool)
    requires
        call_ensures(Connection::handle_disconnect, (c, success, stop), r),
    ensures
        !final(c).connected,
        final(c).retries_left == old(c).retries_left,
        r <==> success && stop,
{
}

/// A new connection has no client and all its retries. Only one that is to listen and has a client listens,
/// and only while there is nothing to do.
pub proof fn law_listening(
    idles: bool,
    max_retries: u32,
    new: Connection,
    c: Connection,
    has_tasks: bool,
    r: NextAction,
    client: Result<(), Error>,
)
    requires
        call_ensures(Connection::new, (idles, max_retries), new),
        call_ensures(Connection::next_action, (&c, has_tasks), r),
        call_ensures(Connection::require_client, (&c,), client),
    ensures
        !new.connected && new.idles == idles && new.retries_left == max_retries && new.max_retries
            == max_retries,
        has_tasks ==> r == NextAction::TakeTask,
        !c.idles || !c.connected ==> r == NextAction::TakeTask,
        !has_tasks && c.idles && c.connected ==> r == NextAction::Idle,
        client is Ok <==> c.connected,
{
}

/// Messages are read, for they only wake the connection up; everything else is passed on.
pub proof fn law_idle_answers(subsystem: Subsystem, r: IdleAnswer)
    requires
        call_ensures(answer_idle, (subsystem,), r),
    ensures
        subsystem == Subsystem::Message ==> r == IdleAnswer::ReadMessages,
        subsystem != Subsystem::Message ==> r == IdleAnswer::Forward,
{
}

/// Connecting goes from the socket to the greeting, to the password where there is one, and ends with the
/// subscription. What fails on the way is called by the stage that it failed in.
pub proof fn law_stages(
    stage: ConnectStage,
    has_password: bool,
    next: Option<ConnectStage>,
    cause: MpdError,
    e: Error,
)
    requires
        call_ensures(next_stage, (stage, has_password), next),
        call_ensures(connect_error, (stage, cause), e),
    ensures
        next is None <==> stage == ConnectStage::Subscribe,
        next == Some(ConnectStage::LogIn) <==> stage == ConnectStage::ReadPassword && has_password,
        next == Some(ConnectStage::ReadPassword) <==> stage == ConnectStage::Greet,
        next == Some(ConnectStage::Greet) <==> stage == ConnectStage::OpenSocket || stage
            == ConnectStage::OpenTcp,
        stage == ConnectStage::LogIn ==> next == Some(ConnectStage::Subscribe),
        e == Error::Socket <==> stage == ConnectStage::OpenSocket,
        e == Error::Tcp <==> stage == ConnectStage::OpenTcp,
        e == Error::CredentialStore <==> stage == ConnectStage::ReadPassword,
        stage == ConnectStage::LogIn || stage == ConnectStage::Greet || stage
            == ConnectStage::Subscribe ==> e == Error::Mpd(cause),
{
}

/// An image is taken from the files only where both sizes of it are stored.
pub proof fn law_images_are_stored_in_both_sizes(
    hires: Option<String>,
    thumb: Option<String>,
    r: ImageSource,
)
    requires
        call_ensures(image_source, (hires, thumb), r),
    ensures
        hires is None || thumb is None ==> r is Download,
        hires is Some && thumb is Some ==> r == ImageSource::Stored(hires->0, thumb->0),
{
}

/// That there is no image is no failure; anything else is, and is reported as it came.
pub proof fn law_missing_images_are_no_failures(e: MpdError, r: Result<(), MpdError>)
    requires
        call_ensures(download_failure, (e,), r),
    ensures
        e == MpdError::Proto(true) ==> r is Ok,
        e is Server && e->Server_0 == ErrorCode::NoExist ==> r is Ok,
        e is Io || e is Parse || e == MpdError::Proto(false) ==> r is Err,
        e is Server && e->Server_0 != ErrorCode::NoExist ==> r is Err,
        r is Err ==> r->Err_0 == e,
{
}

}
