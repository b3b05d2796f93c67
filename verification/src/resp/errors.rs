//! The error taxonomy of the protocol. Every error is rendered to the
//! client as a simple-error protocol value carrying the message that
//! `to_string` builds.

use vstd::prelude::*;

verus! {

/// Errors raised while decoding a frame or resolving and running a command.
#[derive(Debug, PartialEq, Eq)]
pub enum Error {
    /// A store-access failure reported with its own message.
    Custom { message: String },
    /// The top-level value was not an array of bulk strings, or the array
    /// was empty.
    WrongType,
    /// The command name is not in the known set.
    UnknownCommand { command: String },
    /// The argument count lies outside the command's arity interval.
    WrongNumberOfArguments { command: String },
    /// A malformed or unrecognized frame during decoding.
    Unknown,
}

/// The mathematical abstraction of an `Error`: the same variants over
/// character sequences.
pub enum ErrorVal {
    Custom { message: Seq<char> },
    WrongType,
    UnknownCommand { command: Seq<char> },
    WrongNumberOfArguments { command: Seq<char> },
    Unknown,
}

impl DeepView for Error {
    type V = ErrorVal;

    open spec fn deep_view(&self) -> ErrorVal {
        match self {
            Error::Custom { message } => ErrorVal::Custom { message: message@ },
            Error::WrongType => ErrorVal::WrongType,
            Error::UnknownCommand { command } => ErrorVal::UnknownCommand { command: command@ },
            Error::WrongNumberOfArguments { command } => ErrorVal::WrongNumberOfArguments {
                command: command@,
            },
            Error::Unknown => ErrorVal::Unknown,
        }
    }
}

impl ErrorVal {
    /// The message text that stands after `-` on the wire for this error.
    pub open spec fn spec_message(self) -> Seq<char> {
        match self {
            ErrorVal::Custom { message } => message,
            ErrorVal::WrongType => "WRONGTYPE Operation against a key holding the wrong kind of value"@,
            ErrorVal::UnknownCommand { command } => "ERR unknown command '"@ + command + "'"@,
            ErrorVal::WrongNumberOfArguments { command } => "ERR wrong number of arguments for '"@
                + command + "' command"@,
            ErrorVal::Unknown => "Unknown error"@,
        }
    }
}

impl Error {
    /// Renders the message text for this error, exactly as `spec_message`
    /// states it.
    pub fn to_string(&self) -> (r: String)
        ensures
            r@ == self.deep_view().spec_message(),
    {
        match self {
            Error::Custom { message } => message.clone(),
            Error::WrongType => String::from_str(
                "WRONGTYPE Operation against a key holding the wrong kind of value",
            ),
            Error::UnknownCommand { command } => {
                let mut s = String::from_str("ERR unknown command '");
                s.append(command.as_str());
                s.append("'");
                s
            },
            Error::WrongNumberOfArguments { command } => {
                let mut s = String::from_str("ERR wrong number of arguments for '");
                s.append(command.as_str());
                s.append("' command");
                s
            },
            Error::Unknown => String::from_str("Unknown error"),
        }
    }
}

impl From<Error> for crate::resp::types::RespType {
    /// The reply that carries this error to the client.
    fn from(e: Error) -> (r: crate::resp::types::RespType) {
        crate::resp::types::RespType::SimpleError(e)
    }
}

impl vstd::std_specs::convert::FromSpecImpl<Error> for crate::resp::types::RespType {
    open spec fn obeys_from_spec() -> bool {
        true
    }

    open spec fn from_spec(v: Error) -> crate::resp::types::RespType {
        crate::resp::types::RespType::SimpleError(v)
    }
}

} // verus!
