//! Connecting to a server: the old connections are closed, then one connection is made after the other,
//! and in between the server is asked what it supports.
use vstd::prelude::*;

use super::error::{Error, ErrorCode};
use super::mounts::Mount;
use super::state::{probed_level, state_after_connect, ClientState, ConnectionState};
use super::wrapper::{MpdWrapper, Version};

verus! {

/// The steps of connecting to a server.
#[derive(Debug, Clone, Copy, PartialEq, Eq, Structural)]
pub enum ConnectStep {
    /// Close both connections.
    Disconnect,
    /// Make the connection for what the user waits for.
    Foreground,
    /// Ask a server of this version for a sticker.
    Probe(Version),
    /// Make the connection that listens for changes.
    Background,
    /// Read the list of mounts.
    Mounts,
}

/// What a step has come to.
#[derive(Debug)]
pub enum ConnectEvent {
    /// The connections were closed, with success or not.
    Closed(bool),
    /// A connection was made, or not.
    Opened(Result<Version, Error>),
    /// What the server has refused the question for a sticker with, where it has.
    Probed(Option<ErrorCode>),
    /// The mounts and the user's order of them, where they could be read.
    Listed(Option<(Vec<Mount>, Vec<String>)>),
}

/// Whether an event is one that a step comes to.
pub open spec fn comes_of(event: ConnectEvent, step: ConnectStep) -> bool {
    match step {
        ConnectStep::Disconnect => event is Closed,
        ConnectStep::Foreground | ConnectStep::Background => event is Opened,
        ConnectStep::Probe(_) => event is Probed,
        ConnectStep::Mounts => event is Listed,
    }
}

/// What is known of the server after a step.
pub open spec fn state_after_step(s: ClientState, step: ConnectStep, event: ConnectEvent) -> ClientState {
    match (step, event) {
        (ConnectStep::Disconnect, ConnectEvent::Closed(success)) => if success {
            ClientState { connection_state: ConnectionState::Connecting, ..s }
        } else {
            s
        },
        (ConnectStep::Foreground, ConnectEvent::Opened(Ok(version))) => ClientState {
            connection_state: state_after_connect(None),
            stickers_support_level: probed_level(version.minor as int, None),
            ..s
        },
        (ConnectStep::Probe(version), ConnectEvent::Probed(answer)) => ClientState {
            stickers_support_level: probed_level(version.minor as int, answer),
            ..s
        },
        (ConnectStep::Background, ConnectEvent::Opened(Ok(_))) => ClientState {
            connection_state: ConnectionState::Connected,
            ..s
        },
        (_, ConnectEvent::Opened(Err(e))) => ClientState {
            connection_state: state_after_connect(Some(e)),
            ..s
        },
        _ => s,
    }
}

/// What is known of the version of the server after a step.
pub open spec fn version_after_step(
    v: Option<Version>,
    step: ConnectStep,
    event: ConnectEvent,
) -> Option<Version> {
    match (step, event) {
        (ConnectStep::Disconnect, ConnectEvent::Closed(true)) => None,
        (ConnectStep::Probe(version), _) => Some(version),
        _ => v,
    }
}

/// The step that follows; nothing after the last, and an error where no connection could be made. That
/// the old connections could not be closed, or the mounts not be read, is no reason to give up.
pub open spec fn step_after(step: ConnectStep, event: ConnectEvent) -> Result<
    Option<ConnectStep>,
    Error,
> {
    match (step, event) {
        (_, ConnectEvent::Opened(Err(e))) => Err(e),
        (ConnectStep::Disconnect, _) => Ok(Some(ConnectStep::Foreground)),
        (ConnectStep::Foreground, ConnectEvent::Opened(Ok(version))) => Ok(
            Some(ConnectStep::Probe(version)),
        ),
        (ConnectStep::Probe(_), _) => Ok(Some(ConnectStep::Background)),
        (ConnectStep::Background, _) => Ok(Some(ConnectStep::Mounts)),
        _ => Ok(None),
    }
}

impl MpdWrapper {
    /// Takes note of what a step of connecting has come to, and says which step follows.
    pub fn connect(&mut self, step: ConnectStep, event: ConnectEvent) -> (r: Result<
        Option<ConnectStep>,
        Error,
    >)
        requires
            comes_of(event, step),
        ensures
            r == step_after(step, event),
            *final(self) == (MpdWrapper {
                state: state_after_step(old(self).state, step, event),
                client_version: version_after_step(old(self).client_version, step, event),
                mount_registry: final(self).mount_registry,
                ..*old(self)
            }),
            match event {
                ConnectEvent::Listed(Some((mounts, order))) => {
                    &&& final(self).mount_registry.mounts() == mounts@.filter(
                        |m: Mount| m.name@.len() > 0,
                    )
                    &&& final(self).mount_registry.order() == order@
                },
                _ => final(self).mount_registry == old(self).mount_registry,
            },
    {
        match event {
            ConnectEvent::Closed(success) => {
                if success {
                    self.handle_disconnected(ConnectionState::Connecting);
                }
                Ok(Some(ConnectStep::Foreground))
            },
            ConnectEvent::Opened(Err(e)) => {
                self.state.handle_connect_error(Some(&e));
                Err(e)
            },
            ConnectEvent::Opened(Ok(version)) => {
                self.state.handle_connect_error(None);
                match step {
                    ConnectStep::Foreground => {
                        self.state.set_probed_level(version.minor as u32, None);
                        Ok(Some(ConnectStep::Probe(version)))
                    },
                    _ => {
                        self.handle_connected();
                        Ok(Some(ConnectStep::Mounts))
                    },
                }
            },
            ConnectEvent::Probed(answer) => {
                if let ConnectStep::Probe(version) = step {
                    self.accept_version(version, answer);
                }
                Ok(Some(ConnectStep::Background))
            },
            ConnectEvent::Listed(found) => {
                if let Some((mounts, order)) = found {
                    self.refresh_mounts(mounts, order);
                }
                Ok(None)
            },
        }
    }
}

/// A server counts as connected once both connections stand, and only then: no step but the last
/// connection leads there, and a connection that could not be made leads away from it.
pub proof fn law_both_connections_are_needed(s: ClientState, step: ConnectStep, event: ConnectEvent)
    requires
        comes_of(event, step),
    ensures
        state_after_step(s, step, event).connection_state == ConnectionState::Connected && s.connection_state
            != ConnectionState::Connected ==> step == ConnectStep::Background,
        step_after(step, event) is Err ==> state_after_step(s, step, event).connection_state
            != ConnectionState::Connected,
        step == ConnectStep::Background && step_after(step, event) is Ok ==> state_after_step(
            s,
            step,
            event,
        ).connection_state == ConnectionState::Connected,
{
}

/// Where nothing fails, connecting goes through its steps in order, and leaves what the server supports
/// as its version and its answer show.
pub proof fn law_connecting(s: ClientState, version: Version, other: Version, answer: Option<ErrorCode>)
    ensures
        ({
            let closed = ConnectEvent::Closed(true);
            let opened = ConnectEvent::Opened(Ok(version));
            let probed = ConnectEvent::Probed(answer);
            let listening = ConnectEvent::Opened(Ok(other));
            let s1 = state_after_step(s, ConnectStep::Disconnect, closed);
            let s2 = state_after_step(s1, ConnectStep::Foreground, opened);
            let s3 = state_after_step(s2, ConnectStep::Probe(version), probed);
            let s4 = state_after_step(s3, ConnectStep::Background, listening);
            &&& step_after(ConnectStep::Disconnect, closed) == Ok::<Option<ConnectStep>, Error>(
                Some(ConnectStep::Foreground),
            )
            &&& step_after(ConnectStep::Foreground, opened) == Ok::<Option<ConnectStep>, Error>(
                Some(ConnectStep::Probe(version)),
            )
            &&& step_after(ConnectStep::Probe(version), probed) == Ok::<Option<ConnectStep>, Error>(
                Some(ConnectStep::Background),
            )
            &&& step_after(ConnectStep::Background, listening) == Ok::<Option<ConnectStep>, Error>(
                Some(ConnectStep::Mounts),
            )
            &&& s4.connection_state == ConnectionState::Connected
            &&& s4.stickers_support_level == probed_level(version.minor as int, answer)
            &&& s4.supports_playlists == s.supports_playlists
        }),
{
}

/// Connecting closes what there was, opens the connection for the user, asks for a sticker, opens the one
/// that listens, and reads the mounts. It ends at the first connection that cannot be made, with its error.
pub proof fn law_steps_of_connecting(
    w: &mut MpdWrapper,
    step: ConnectStep,
    event: ConnectEvent,
    r: Result<Option<ConnectStep>, Error>,
)
    requires
        comes_of(event, step),
        call_ensures(MpdWrapper::connect, (w, step, event), r),
    ensures
        r is Err <==> event is Opened && event->Opened_0 is Err,
        r is Err ==> r->Err_0 == event->Opened_0->Err_0,
        r is Err ==> final(w).state.connection_state != ConnectionState::Connected,
        step == ConnectStep::Disconnect ==> r == Ok::<Option<ConnectStep>, Error>(
            Some(ConnectStep::Foreground),
        ),
        step == ConnectStep::Foreground && r is Ok ==> r->Ok_0 == Some(
            ConnectStep::Probe(event->Opened_0->Ok_0),
        ),
        step is Probe ==> r == Ok::<Option<ConnectStep>, Error>(Some(ConnectStep::Background)),
        step == ConnectStep::Background && r is Ok ==> r->Ok_0 == Some(ConnectStep::Mounts)
            && final(w).state.connection_state == ConnectionState::Connected,
        step == ConnectStep::Mounts ==> r == Ok::<Option<ConnectStep>, Error>(None),
        step is Probe ==> final(w).client_version == Some(step->Probe_0),
        step == ConnectStep::Disconnect && event == ConnectEvent::Closed(true) ==> final(w).client_version is None && final(w).state.connection_state == ConnectionState::Connecting,
        step == ConnectStep::Mounts ==> final(w).state == old(w).state,
{
}

}
