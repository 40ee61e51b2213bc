//! What is known of the server, and what errors tell about it.
use vstd::prelude::*;

use super::error::{is_lost, server_code, Error, ErrorCode, MpdError};
use crate::text::{contains, contains_part, same};

verus! {

#[derive(Debug, Clone, Copy, PartialEq, Eq, Structural)]
pub enum ConnectionState {
    NotConnected,
    Connecting,
    /// The server wants a password.
    Unauthenticated,
    ConnectionRefused,
    SocketNotFound,
    WrongPassword,
    CredentialStoreError,
    Connected,
}

/// Which objects the server has stickers for.
#[derive(Debug, Clone, Copy, PartialEq, Eq, Structural)]
pub enum StickersSupportLevel {
    Disabled,
    SongsOnly,
    All,
}

/// The parts of the server that report changes.
#[derive(Debug, Clone, Copy, PartialEq, Eq, Structural)]
pub enum Subsystem {
    Database,
    Update,
    Playlist,
    Queue,
    Player,
    Mixer,
    Output,
    Options,
    Sticker,
    Subscription,
    Message,
    Partition,
    Neighbor,
    Mount,
}

/// What is known of the server.
#[derive(Debug, Clone, Copy, PartialEq, Eq, Structural)]
pub struct ClientState {
    pub connection_state: ConnectionState,
    pub stickers_support_level: StickersSupportLevel,
    pub supports_playlists: bool,
}

/// The state of the connection that an error leaves, where it changes it.
pub open spec fn state_after_error(e: Error) -> Option<ConnectionState> {
    match e {
        Error::Mpd(MpdError::Io) => Some(ConnectionState::NotConnected),
        Error::Mpd(MpdError::Server(ErrorCode::Password, _)) => Some(ConnectionState::WrongPassword),
        Error::Mpd(MpdError::Server(ErrorCode::Permission, _)) => Some(
            ConnectionState::Unauthenticated,
        ),
        Error::NotConnected | Error::Socket | Error::Tcp => Some(ConnectionState::NotConnected),
        _ => None,
    }
}

/// The state of the connection after an attempt to connect; `Connected` is set once both connections
/// stand.
pub open spec fn state_after_connect(failure: Option<Error>) -> ConnectionState {
    match failure {
        Some(Error::Mpd(MpdError::Server(ErrorCode::Password, _))) => ConnectionState::WrongPassword,
        Some(
            Error::Mpd(MpdError::Server(ErrorCode::Permission, _)),
        ) => ConnectionState::Unauthenticated,
        Some(Error::Socket) => ConnectionState::SocketNotFound,
        Some(Error::Tcp) => ConnectionState::ConnectionRefused,
        Some(Error::CredentialStore) => ConnectionState::CredentialStoreError,
        _ => ConnectionState::NotConnected,
    }
}

/// How much a level supports, as a number.
pub open spec fn level_rank(level: StickersSupportLevel) -> int {
    match level {
        StickersSupportLevel::Disabled => 0,
        StickersSupportLevel::SongsOnly => 1,
        StickersSupportLevel::All => 2,
    }
}

/// The level that the stickers of a kind of object need.
pub open spec fn needed_level(kind: Seq<char>) -> StickersSupportLevel {
    if kind == "song"@ {
        StickersSupportLevel::SongsOnly
    } else {
        StickersSupportLevel::All
    }
}

/// The level that an error about stickers shows.
pub open spec fn level_after_error(level: StickersSupportLevel, e: Error) -> StickersSupportLevel {
    match server_code(e) {
        Some(ErrorCode::UnknownCmd) => StickersSupportLevel::Disabled,
        Some(ErrorCode::Argument) => StickersSupportLevel::SongsOnly,
        _ => level,
    }
}

/// The level that a server has by its version and by what it answered to a question about a sticker: it
/// has stickers unless it does not know the command, and only for songs where it is old or does not know
/// the kind of object.
pub open spec fn probed_level(minor_version: int, answer: Option<ErrorCode>) -> StickersSupportLevel {
    if answer == Some(ErrorCode::UnknownCmd) {
        StickersSupportLevel::Disabled
    } else if minor_version < 24 || answer == Some(ErrorCode::Argument) {
        StickersSupportLevel::SongsOnly
    } else {
        StickersSupportLevel::All
    }
}

impl ClientState {
    /// Takes note of an error.
    pub fn handle_error(&mut self, e: &Error)
        ensures
            *final(self) == (ClientState {
                connection_state: match state_after_error(*e) {
                    Some(state) => state,
                    None => old(self).connection_state,
                },
                ..*old(self)
            }),
    {
        match e {
            Error::Mpd(MpdError::Io) => {
                self.connection_state = ConnectionState::NotConnected;
            },
            Error::Mpd(MpdError::Server(code, _)) => match code {
                ErrorCode::Password => {
                    self.connection_state = ConnectionState::WrongPassword;
                },
                ErrorCode::Permission => {
                    self.connection_state = ConnectionState::Unauthenticated;
                },
                _ => {},
            },
            Error::NotConnected | Error::Socket | Error::Tcp => {
                self.connection_state = ConnectionState::NotConnected;
            },
            _ => {},
        }
    }

    /// Takes note of an attempt to connect.
    pub fn handle_connect_error(&mut self, failure: Option<&Error>)
        ensures
            *final(self) == (ClientState {
                connection_state: state_after_connect(
                    match failure {
                        Some(e) => Some(*e),
                        None => None,
                    },
                ),
                ..*old(self)
            }),
    {
        self.connection_state = match failure {
            Some(Error::Mpd(MpdError::Server(code, _))) => match code {
                ErrorCode::Password => ConnectionState::WrongPassword,
                ErrorCode::Permission => ConnectionState::Unauthenticated,
                _ => ConnectionState::NotConnected,
            },
            Some(Error::Socket) => ConnectionState::SocketNotFound,
            Some(Error::Tcp) => ConnectionState::ConnectionRefused,
            Some(Error::CredentialStore) => ConnectionState::CredentialStoreError,
            _ => ConnectionState::NotConnected,
        };
    }

    /// Takes note of an error about stickers.
    pub fn handle_sticker_error(&mut self, e: &Error)
        ensures
            *final(self) == (ClientState {
                stickers_support_level: level_after_error(old(self).stickers_support_level, *e),
                ..*old(self)
            }),
    {
        match e.code() {
            Some(ErrorCode::UnknownCmd) => {
                self.stickers_support_level = StickersSupportLevel::Disabled;
            },
            Some(ErrorCode::Argument) => {
                self.stickers_support_level = StickersSupportLevel::SongsOnly;
            },
            _ => {},
        }
    }

    /// Takes note of an error about playlists: a server on which they are disabled says so.
    pub fn handle_playlist_error(&mut self, e: &Error)
        ensures
            *final(self) == (ClientState {
                supports_playlists: old(self).supports_playlists && !(e matches Error::Mpd(
                    MpdError::Server(_, detail),
                ) && contains_part(detail@, "disabled"@)),
                ..*old(self)
            }),
    {
        if let Error::Mpd(MpdError::Server(_, detail)) = e {
            if contains(detail.as_str(), "disabled") {
                self.supports_playlists = false;
            }
        }
    }

    /// Takes over which stickers a server has, by its version and by what it answered to a question
    /// about a sticker.
    pub fn set_probed_level(&mut self, minor_version: u32, answer: Option<ErrorCode>)
        ensures
            *final(self) == (ClientState {
                stickers_support_level: probed_level(minor_version as int, answer),
                ..*old(self)
            }),
    {
        self.stickers_support_level = match answer {
            Some(ErrorCode::UnknownCmd) => StickersSupportLevel::Disabled,
            Some(ErrorCode::Argument) => StickersSupportLevel::SongsOnly,
            _ => if minor_version < 24 {
                StickersSupportLevel::SongsOnly
            } else {
                StickersSupportLevel::All
            },
        };
    }

    /// Whether the server has stickers for a kind of object; an error where it has not.
    pub fn check_stickers(&self, kind: &str) -> (r: Result<(), Error>)
        ensures
            match r {
                Ok(_) => level_rank(self.stickers_support_level) >= level_rank(needed_level(kind@)),
                Err(e) => e is InsufficientStickersSupportLevel && level_rank(
                    self.stickers_support_level,
                ) < level_rank(needed_level(kind@)),
            },
    {
        let enough: bool = match self.stickers_support_level {
            StickersSupportLevel::Disabled => false,
            StickersSupportLevel::SongsOnly => same(kind, "song"),
            StickersSupportLevel::All => true,
        };
        if enough {
            Ok(())
        } else {
            Err(Error::InsufficientStickersSupportLevel)
        }
    }
}

/// What a change that the server reports is answered with, besides telling listeners about it.
#[derive(Debug, Clone, Copy, PartialEq, Eq, Structural)]
pub struct IdlePlan {
    /// Read the list of mounts again, before listeners are told.
    pub refresh_mounts: bool,
    /// Connect anew, so that the library is read again.
    pub reconnect: bool,
}

/// What a change that the server reports is answered with. A changed set of mounts can make songs come
/// and go, as a changed database does.
pub fn handle_idle_changes(subsystem: Subsystem) -> (r: IdlePlan)
    ensures
        r.refresh_mounts == (subsystem == Subsystem::Mount),
        r.reconnect == (subsystem == Subsystem::Database || subsystem == Subsystem::Mount),
{
    IdlePlan {
        refresh_mounts: subsystem == Subsystem::Mount,
        reconnect: subsystem == Subsystem::Database || subsystem == Subsystem::Mount,
    }
}

/// A connection that is lost is always taken for lost: whatever the state was, it is `NotConnected`
/// after such an error.
pub proof fn law_lost_connections_are_noticed(e: Error)
    requires
        is_lost(e),
    ensures
        state_after_error(e) == Some(ConnectionState::NotConnected),
{
}

/// No attempt to connect alone is taken for a standing connection.
pub proof fn law_one_connection_is_not_enough(failure: Option<Error>)
    ensures
        state_after_connect(failure) != ConnectionState::Connected,
        state_after_connect(failure) != ConnectionState::Connecting,
{
}

/// What the answer to the question about a sticker shows is what any such error shows, with the level
/// that goes with the version as the one before it.
pub proof fn law_the_answer_counts_as_an_error(minor_version: int, e: Error)
    ensures
        probed_level(minor_version, server_code(e)) == level_after_error(
            probed_level(minor_version, None),
            e,
        ),
{
}

/// Errors never raise what a server is taken to support, unless they show that it has stickers for
/// songs.
pub proof fn law_errors_lower_the_level(level: StickersSupportLevel, e: Error)
    ensures
        level_rank(level_after_error(level, e)) <= level_rank(level) || level_after_error(level, e)
            == StickersSupportLevel::SongsOnly,
{
}

/// An error that shows that the connection is gone, the password wrong or missing changes the state of the
/// connection to that; any other leaves it.
pub proof fn law_errors_change_the_state(s: &mut ClientState, e: Error)
    requires
        call_ensures(ClientState::handle_error, (s, &e), ()),
    ensures
        e == Error::NotConnected || e == Error::Socket || e == Error::Tcp || e == Error::Mpd(
            MpdError::Io,
        ) ==> final(s).connection_state == ConnectionState::NotConnected,
        e matches Error::Mpd(MpdError::Server(code, _)) ==> {
            &&& code == ErrorCode::Password ==> final(s).connection_state
                == ConnectionState::WrongPassword
            &&& code == ErrorCode::Permission ==> final(s).connection_state
                == ConnectionState::Unauthenticated
            &&& code != ErrorCode::Password && code != ErrorCode::Permission
                ==> final(s).connection_state == old(s).connection_state
        },
        e == Error::NoExist || e == Error::Internal || e == Error::CredentialStore || e
            == Error::PlaylistNotEnabled || e == Error::InsufficientStickersSupportLevel || e
            == Error::Mpd(MpdError::Parse) ==> final(s).connection_state == old(s).connection_state,
        final(s).stickers_support_level == old(s).stickers_support_level,
        final(s).supports_playlists == old(s).supports_playlists,
{
}

/// A connection that could not be made is called by what went wrong.
pub proof fn law_connect_errors_are_named(s: &mut ClientState, e: Error)
    requires
        call_ensures(ClientState::handle_connect_error, (s, Some(&e)), ()),
    ensures
        e == Error::Socket ==> final(s).connection_state == ConnectionState::SocketNotFound,
        e == Error::Tcp ==> final(s).connection_state == ConnectionState::ConnectionRefused,
        e == Error::CredentialStore ==> final(s).connection_state
            == ConnectionState::CredentialStoreError,
        e matches Error::Mpd(MpdError::Server(code, _)) ==> {
            &&& code == ErrorCode::Password ==> final(s).connection_state
                == ConnectionState::WrongPassword
            &&& code == ErrorCode::Permission ==> final(s).connection_state
                == ConnectionState::Unauthenticated
        },
        e == Error::NotConnected || e == Error::Mpd(MpdError::Io) || e == Error::Internal
            ==> final(s).connection_state == ConnectionState::NotConnected,
        final(s).stickers_support_level == old(s).stickers_support_level,
{
}

/// A server that does not know the command has no stickers; one that refuses its arguments has them for songs
/// alone. Other errors say nothing about stickers.
pub proof fn law_sticker_errors(s: &mut ClientState, e: Error)
    requires
        call_ensures(ClientState::handle_sticker_error, (s, &e), ()),
    ensures
        e matches Error::Mpd(MpdError::Server(code, _)) ==> {
            &&& code == ErrorCode::UnknownCmd ==> final(s).stickers_support_level
                == StickersSupportLevel::Disabled
            &&& code == ErrorCode::Argument ==> final(s).stickers_support_level
                == StickersSupportLevel::SongsOnly
            &&& code != ErrorCode::UnknownCmd && code != ErrorCode::Argument
                ==> final(s).stickers_support_level == old(s).stickers_support_level
        },
        !(e is Mpd && e->Mpd_0 is Server) ==> final(s).stickers_support_level
            == old(s).stickers_support_level,
        final(s).connection_state == old(s).connection_state,
{
}

/// Stickers for anything but songs need a server of at least the minor version 24 that answers the question
/// for one; those for songs need a server that knows the command.
pub proof fn law_probing_for_stickers(
    s: &mut ClientState,
    minor_version: u32,
    answer: Option<ErrorCode>,
)
    requires
        call_ensures(ClientState::set_probed_level, (s, minor_version, answer), ()),
    ensures
        answer == Some(ErrorCode::UnknownCmd) ==> final(s).stickers_support_level
            == StickersSupportLevel::Disabled,
        answer == Some(ErrorCode::Argument) ==> final(s).stickers_support_level
            == StickersSupportLevel::SongsOnly,
        minor_version < 24 && answer != Some(ErrorCode::UnknownCmd) ==> final(s).stickers_support_level == StickersSupportLevel::SongsOnly,
        minor_version >= 24 && answer != Some(ErrorCode::UnknownCmd) && answer != Some(
            ErrorCode::Argument,
        ) ==> final(s).stickers_support_level == StickersSupportLevel::All,
        final(s).connection_state == old(s).connection_state,
        final(s).supports_playlists == old(s).supports_playlists,
{
}

/// Stickers are refused where the server has none for the kind of object: where it has any, songs have them,
/// and only where it has all of them does anything else.
pub proof fn law_stickers_are_checked(s: ClientState, kind: &str, r: Result<(), Error>)
    requires
        call_ensures(ClientState::check_stickers, (&s, kind), r),
    ensures
        s.stickers_support_level == StickersSupportLevel::Disabled ==> r is Err,
        s.stickers_support_level == StickersSupportLevel::All ==> r is Ok,
        s.stickers_support_level == StickersSupportLevel::SongsOnly ==> (r is Ok <==> kind@
            == "song"@),
        r is Err ==> r->Err_0 == Error::InsufficientStickersSupportLevel,
{
}

/// Playlists are given up where the server says that they are disabled, and never taken up again by an error.
pub proof fn law_playlist_errors(s: &mut ClientState, e: Error)
    requires
        call_ensures(ClientState::handle_playlist_error, (s, &e), ()),
    ensures
        !old(s).supports_playlists ==> !final(s).supports_playlists,
        !(e is Mpd && e->Mpd_0 is Server) ==> final(s).supports_playlists
            == old(s).supports_playlists,
        e matches Error::Mpd(MpdError::Server(_, detail)) ==> {
            &&& contains_part(detail@, "disabled"@) ==> !final(s).supports_playlists
            &&& !contains_part(detail@, "disabled"@) ==> final(s).supports_playlists
                == old(s).supports_playlists
        },
        final(s).connection_state == old(s).connection_state,
        final(s).stickers_support_level == old(s).stickers_support_level,
{
}

/// A change of the database or of the mounts has the library read again, the mounts first where it is they
/// that changed.
pub proof fn law_idle_changes(subsystem: Subsystem, r: IdlePlan)
    requires
        call_ensures(handle_idle_changes, (subsystem,), r),
    ensures
        subsystem == Subsystem::Mount ==> r.refresh_mounts && r.reconnect,
        subsystem == Subsystem::Database ==> !r.refresh_mounts && r.reconnect,
        subsystem != Subsystem::Mount && subsystem != Subsystem::Database ==> !r.refresh_mounts
            && !r.reconnect,
{
}

}
