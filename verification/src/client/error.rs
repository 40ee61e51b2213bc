//! What can go wrong between the player and the server.
use vstd::prelude::*;

verus! {

/// Why the server refuses a command.
#[derive(Debug, Clone, Copy, PartialEq, Eq, Structural)]
pub enum ErrorCode {
    NotList,
    Argument,
    Password,
    Permission,
    UnknownCmd,
    NoExist,
    PlaylistMax,
    System,
    PlaylistLoad,
    UpdateAlready,
    PlayerSync,
    Exist,
}

/// What can go wrong in an exchange with the server.
#[derive(Debug)]
pub enum MpdError {
    /// The connection failed.
    Io,
    /// The reply could not be read.
    Parse,
    /// The reply is not one of the protocol. The flag says that it held no pairs, as an empty one does.
    Proto(bool),
    /// The server refused the command, and says why.
    Server(ErrorCode, String),
}

#[derive(Debug)]
pub enum Error {
    NoExist,
    Mpd(MpdError),
    Internal,
    /// The local socket cannot be reached.
    Socket,
    /// The store of passwords cannot be read.
    CredentialStore,
    /// The server refuses the connection.
    Tcp,
    NotConnected,
    /// The server has no stickers for this kind of object.
    InsufficientStickersSupportLevel,
    PlaylistNotEnabled,
}

/// Why the server refused a command, where it did.
pub open spec fn server_code(e: Error) -> Option<ErrorCode> {
    match e {
        Error::Mpd(MpdError::Server(code, _)) => Some(code),
        _ => None,
    }
}

/// Whether an error means that the connection is lost, so that another may help.
pub open spec fn is_lost(e: Error) -> bool {
    e is NotConnected || e matches Error::Mpd(MpdError::Io)
}

impl Error {
    /// Why the server refused a command, where it did.
    pub fn code(&self) -> (r: Option<ErrorCode>)
        ensures
            r == server_code(*self),
    {
        match self {
            Error::Mpd(MpdError::Server(code, _)) => Some(*code),
            _ => None,
        }
    }

    /// Whether the error means that the connection is lost, so that another may help.
    pub fn is_connection_lost(&self) -> (r: bool)
        ensures
            r == is_lost(*self),
    {
        match self {
            Error::NotConnected => true,
            Error::Mpd(MpdError::Io) => true,
            _ => false,
        }
    }
}

/// A connection is lost where there is none, or where reading or writing failed; a refusal by the server is
/// no such loss.
pub proof fn law_lost_connections(e: Error, lost: bool, code: Option<ErrorCode>)
    requires
        call_ensures(Error::is_connection_lost, (&e,), lost),
        call_ensures(Error::code, (&e,), code),
    ensures
        e == Error::NotConnected ==> lost,
        e == Error::Mpd(MpdError::Io) ==> lost,
        lost ==> e == Error::NotConnected || e == Error::Mpd(MpdError::Io),
        code is Some ==> !lost,
        e matches Error::Mpd(MpdError::Server(c, _)) ==> code == Some(c),
        code is Some <==> e is Mpd && e->Mpd_0 is Server,
{
}

}
