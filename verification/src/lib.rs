//! Shutter control protocol: the state of the shutter motors, the commands
//! that drive them, the messages exchanged between client and daemon and the
//! framing that carries those messages over a byte stream.
use vstd::prelude::*;

pub mod clock;
pub mod motor;
pub mod rpc;
pub mod shutterctl;
pub mod transport;

verus! {

/// The errors of the protocol.
#[derive(Debug, Clone, Copy, PartialEq, Eq, Structural)]
pub enum Error {
    HeaderSize,
    BadMagic,
    PayloadSize,
    UnknownVersion,
    UnknownCrypto,
    CommandMissing,
    UnknownMotorState,
    UnknownCommand,
    BadCommand,
    BadAnswer,
    InvalidMotorId,
}

/// The human-readable text of each error.
pub open spec fn error_text(e: Error) -> Seq<char> {
    match e {
        Error::HeaderSize => "Message too short to contain protocol header"@,
        Error::BadMagic => "Message does not start with magic number"@,
        Error::PayloadSize => "Message too short to contain full payload"@,
        Error::UnknownVersion => "Unknown protocol version"@,
        Error::UnknownCrypto => "Unknown crypto mechanism"@,
        Error::CommandMissing => "No command message enveloped in header"@,
        Error::UnknownMotorState => "Unknown motor state"@,
        Error::UnknownCommand => "Unknown command"@,
        Error::BadCommand => "Malformed command"@,
        Error::BadAnswer => "Malformed answer"@,
        Error::InvalidMotorId => "Command targets a motor that is not configured"@,
    }
}

impl Error {
    /// The message that describes this error to a user.
    pub fn description(&self) -> (s: &'static str)
        ensures
            s@ == error_text(*self),
    {
        match self {
            Error::HeaderSize => "Message too short to contain protocol header",
            Error::BadMagic => "Message does not start with magic number",
            Error::PayloadSize => "Message too short to contain full payload",
            Error::UnknownVersion => "Unknown protocol version",
            Error::UnknownCrypto => "Unknown crypto mechanism",
            Error::CommandMissing => "No command message enveloped in header",
            Error::UnknownMotorState => "Unknown motor state",
            Error::UnknownCommand => "Unknown command",
            Error::BadCommand => "Malformed command",
            Error::BadAnswer => "Malformed answer",
            Error::InvalidMotorId => "Command targets a motor that is not configured",
        }
    }
}

/// The number that stands for an error in a status answer on the wire.
pub open spec fn error_code(e: Error) -> u8 {
    match e {
        Error::HeaderSize => 0,
        Error::BadMagic => 1,
        Error::PayloadSize => 2,
        Error::UnknownVersion => 3,
        Error::UnknownCrypto => 4,
        Error::CommandMissing => 5,
        Error::UnknownMotorState => 6,
        Error::UnknownCommand => 7,
        Error::BadCommand => 8,
        Error::BadAnswer => 9,
        Error::InvalidMotorId => 10,
    }
}

impl Error {
    /// The number that stands for this error in a status answer.
    pub fn code(&self) -> (c: u8)
        ensures
            c == error_code(*self),
    {
        match self {
            Error::HeaderSize => 0,
            Error::BadMagic => 1,
            Error::PayloadSize => 2,
            Error::UnknownVersion => 3,
            Error::UnknownCrypto => 4,
            Error::CommandMissing => 5,
            Error::UnknownMotorState => 6,
            Error::UnknownCommand => 7,
            Error::BadCommand => 8,
            Error::BadAnswer => 9,
            Error::InvalidMotorId => 10,
        }
    }

    /// The error that a number in a status answer stands for, where it stands
    /// for one.
    pub fn from_code(c: u8) -> (e: Option<Error>)
        ensures
            match e {
                Some(e) => error_code(e) == c,
                None => forall|x: Error| error_code(x) != c,
            },
    {
        if c == 0 {
            Some(Error::HeaderSize)
        } else if c == 1 {
            Some(Error::BadMagic)
        } else if c == 2 {
            Some(Error::PayloadSize)
        } else if c == 3 {
            Some(Error::UnknownVersion)
        } else if c == 4 {
            Some(Error::UnknownCrypto)
        } else if c == 5 {
            Some(Error::CommandMissing)
        } else if c == 6 {
            Some(Error::UnknownMotorState)
        } else if c == 7 {
            Some(Error::UnknownCommand)
        } else if c == 8 {
            Some(Error::BadCommand)
        } else if c == 9 {
            Some(Error::BadAnswer)
        } else if c == 10 {
            Some(Error::InvalidMotorId)
        } else {
            None
        }
    }
}

/// Distinct errors have distinct numbers, so a number read back names the
/// error that was written.
pub proof fn lemma_error_code_injective(a: Error, b: Error)
    ensures
        error_code(a) == error_code(b) ==> a == b,
{
}

} // verus!
