//! Type tags of messages, and the session types that one of them carries.

use super::error::ProtoError;
use vstd::prelude::*;

verus! {

/// The meaning of a message's payload. The wire values are stable and never reused.
#[derive(Clone, Copy, PartialEq, Eq, Hash, Debug, Structural)]
pub enum FieldType {
    /// One element of the program's argument vector.
    Arg,
    /// One `KEY=VALUE` environment entry for the program.
    Env,
    /// The program's exit status (an `i32`).
    Exit,
    /// Descriptors go with this message out of band (a `u32` count).
    Fd,
    /// Interactive or non-interactive handling (one [`SessionType`] byte).
    SessionType,
    /// An error of the daemon, in words.
    Error,
    /// An authentication secret of the client.
    Secret,
    /// Authentication is required; the payload is the prompt to show.
    Unauthorized,
    /// Terminal dimensions (four `u16`: rows, columns, x pixels, y pixels).
    Winsize,
    /// The client's configuration is complete.
    End,
}

/// The wire byte of a field type.
pub open spec fn field_wire(t: FieldType) -> u8 {
    match t {
        FieldType::Arg => 1,
        FieldType::Env => 2,
        FieldType::Exit => 3,
        FieldType::Fd => 4,
        FieldType::SessionType => 5,
        FieldType::Error => 6,
        FieldType::Secret => 7,
        FieldType::Unauthorized => 8,
        FieldType::Winsize => 9,
        FieldType::End => 255,
    }
}

/// The field type with the given wire byte.
pub open spec fn field_type_of(b: u8) -> Option<FieldType> {
    if b == 1 {
        Some(FieldType::Arg)
    } else if b == 2 {
        Some(FieldType::Env)
    } else if b == 3 {
        Some(FieldType::Exit)
    } else if b == 4 {
        Some(FieldType::Fd)
    } else if b == 5 {
        Some(FieldType::SessionType)
    } else if b == 6 {
        Some(FieldType::Error)
    } else if b == 7 {
        Some(FieldType::Secret)
    } else if b == 8 {
        Some(FieldType::Unauthorized)
    } else if b == 9 {
        Some(FieldType::Winsize)
    } else if b == 255 {
        Some(FieldType::End)
    } else {
        None
    }
}

/// The name of a field type.
pub open spec fn field_name(t: FieldType) -> Seq<char> {
    match t {
        FieldType::Arg => "Arg"@,
        FieldType::Env => "Env"@,
        FieldType::Exit => "Exit"@,
        FieldType::Fd => "Fd"@,
        FieldType::SessionType => "SessionType"@,
        FieldType::Error => "Error"@,
        FieldType::Secret => "Secret"@,
        FieldType::Unauthorized => "Unauthorized"@,
        FieldType::Winsize => "Winsize"@,
        FieldType::End => "End"@,
    }
}

/// Every field type is found again under its wire byte, and no byte names two.
pub proof fn field_wire_roundtrip(t: FieldType, b: u8)
    ensures
        field_type_of(field_wire(t)) == Some(t),
        field_type_of(b) == Some(t) <==> b == field_wire(t),
{
}

impl FieldType {
    /// The wire byte of this field type.
    pub fn as_u8(self) -> (b: u8)
        ensures
            b == field_wire(self),
    {
        match self {
            FieldType::Arg => 1,
            FieldType::Env => 2,
            FieldType::Exit => 3,
            FieldType::Fd => 4,
            FieldType::SessionType => 5,
            FieldType::Error => 6,
            FieldType::Secret => 7,
            FieldType::Unauthorized => 8,
            FieldType::Winsize => 9,
            FieldType::End => 255,
        }
    }

    /// The name of this field type.
    pub fn name(self) -> (s: &'static str)
        ensures
            s@ == field_name(self),
    {
        match self {
            FieldType::Arg => "Arg",
            FieldType::Env => "Env",
            FieldType::Exit => "Exit",
            FieldType::Fd => "Fd",
            FieldType::SessionType => "SessionType",
            FieldType::Error => "Error",
            FieldType::Secret => "Secret",
            FieldType::Unauthorized => "Unauthorized",
            FieldType::Winsize => "Winsize",
            FieldType::End => "End",
        }
    }
}

impl TryFrom<u8> for FieldType {
    type Error = ProtoError;

    fn try_from(value: u8) -> (r: Result<FieldType, ProtoError>) {
        Ok(
            match value {
                1 => FieldType::Arg,
                2 => FieldType::Env,
                3 => FieldType::Exit,
                4 => FieldType::Fd,
                5 => FieldType::SessionType,
                6 => FieldType::Error,
                7 => FieldType::Secret,
                8 => FieldType::Unauthorized,
                9 => FieldType::Winsize,
                255 => FieldType::End,
                other => return Err(ProtoError::UnknownFieldType(other)),
            },
        )
    }
}

impl vstd::std_specs::convert::TryFromSpecImpl<u8> for FieldType {
    open spec fn obeys_try_from_spec() -> bool {
        true
    }

    open spec fn try_from_spec(value: u8) -> Result<FieldType, ProtoError> {
        match field_type_of(value) {
            Some(t) => Ok(t),
            None => Err(ProtoError::UnknownFieldType(value)),
        }
    }
}

/// How the daemon wires up the program's standard streams.
#[derive(Clone, Copy, PartialEq, Eq, Debug, Structural)]
pub enum SessionType {
    /// The endpoint decides by whether a terminal is attached.
    Auto,
    /// The program runs as a session leader on a pseudo-terminal.
    Interactive,
    /// The standard streams are handed straight to the program.
    NonInteractive,
}

/// The wire byte of a session type.
pub open spec fn session_wire(t: SessionType) -> u8 {
    match t {
        SessionType::Auto => 1,
        SessionType::Interactive => 2,
        SessionType::NonInteractive => 3,
    }
}

/// The session type with the given wire byte.
pub open spec fn session_type_of(b: u8) -> Option<SessionType> {
    if b == 1 {
        Some(SessionType::Auto)
    } else if b == 2 {
        Some(SessionType::Interactive)
    } else if b == 3 {
        Some(SessionType::NonInteractive)
    } else {
        None
    }
}

/// Every session type is found again under its wire byte, and no byte names two.
pub proof fn session_wire_roundtrip(t: SessionType, b: u8)
    ensures
        session_type_of(session_wire(t)) == Some(t),
        session_type_of(b) == Some(t) <==> b == session_wire(t),
{
}

impl SessionType {
    /// The wire byte of this session type.
    pub fn as_u8(self) -> (b: u8)
        ensures
            b == session_wire(self),
    {
        match self {
            SessionType::Auto => 1,
            SessionType::Interactive => 2,
            SessionType::NonInteractive => 3,
        }
    }
}

impl Default for SessionType {
    fn default() -> (t: SessionType)
        ensures
            t == SessionType::Auto,
    {
        SessionType::Auto
    }
}

impl TryFrom<u8> for SessionType {
    type Error = ProtoError;

    fn try_from(value: u8) -> (r: Result<SessionType, ProtoError>) {
        Ok(
            match value {
                1 => SessionType::Auto,
                2 => SessionType::Interactive,
                3 => SessionType::NonInteractive,
                other => return Err(ProtoError::InvalidSessionType(other)),
            },
        )
    }
}

impl vstd::std_specs::convert::TryFromSpecImpl<u8> for SessionType {
    open spec fn obeys_try_from_spec() -> bool {
        true
    }

    open spec fn try_from_spec(value: u8) -> Result<SessionType, ProtoError> {
        match session_type_of(value) {
            Some(t) => Ok(t),
            None => Err(ProtoError::InvalidSessionType(value)),
        }
    }
}

} // verus!
