use vstd::prelude::*;

verus! {

/// Action code that a stream or HTTP handler returns to the host after a
/// data event: either keep processing the stream or pause it until the
/// handler resumes it explicitly.
#[derive(Clone, Copy, Debug, PartialEq, Eq, Structural)]
pub enum Action {
    Continue,
    Pause,
}

impl Action {
    /// The numeric code the host ABI assigns to this action.
    pub fn code(&self) -> (c: u32)
        ensures
            c == self.spec_code(),
    {
        match self {
            Action::Continue => 0,
            Action::Pause => 1,
        }
    }

    /// The numeric code, as a specification-level function.
    pub open spec fn spec_code(&self) -> u32 {
        match self {
            Action::Continue => 0,
            Action::Pause => 1,
        }
    }
}

/// The kind of child context a root handler expects to parent.  A root
/// handler may report this tag when no other construction strategy applies.
#[derive(Clone, Copy, Debug, PartialEq, Eq, Structural)]
pub enum ContextType {
    HttpContext,
    StreamContext,
}

/// Which side of a proxied connection closed.
#[derive(Clone, Copy, Debug, PartialEq, Eq, Structural)]
pub enum PeerType {
    Unknown,
    Local,
    Remote,
}

impl PeerType {
    /// The peer that a numeric code of the host ABI names; every code
    /// outside the documented ones reads as unknown.
    pub fn from_code(raw: u32) -> (p: PeerType)
        ensures
            p == PeerType::spec_from_code(raw),
    {
        match raw {
            1 => PeerType::Local,
            2 => PeerType::Remote,
            _ => PeerType::Unknown,
        }
    }

    /// The decoding of a numeric peer code, as a specification-level
    /// function.
    pub open spec fn spec_from_code(raw: u32) -> PeerType {
        if raw == 1 {
            PeerType::Local
        } else if raw == 2 {
            PeerType::Remote
        } else {
            PeerType::Unknown
        }
    }
}

/// Severity of a log message forwarded to the host.
#[derive(Clone, Copy, Debug, PartialEq, Eq, Structural)]
pub enum LogLevel {
    Trace,
    Debug,
    Info,
    Warn,
    Error,
    Critical,
}

impl LogLevel {
    /// The numeric code the host ABI assigns to this level; the codes
    /// order the levels by severity.
    pub fn code(&self) -> (c: u32)
        ensures
            c == self.spec_code(),
    {
        match self {
            LogLevel::Trace => 0,
            LogLevel::Debug => 1,
            LogLevel::Info => 2,
            LogLevel::Warn => 3,
            LogLevel::Error => 4,
            LogLevel::Critical => 5,
        }
    }

    /// The numeric code, as a specification-level function.
    pub open spec fn spec_code(&self) -> u32 {
        match self {
            LogLevel::Trace => 0,
            LogLevel::Debug => 1,
            LogLevel::Info => 2,
            LogLevel::Warn => 3,
            LogLevel::Error => 4,
            LogLevel::Critical => 5,
        }
    }
}

/// Status code returned by every outbound host capability call.
#[derive(Clone, Copy, Debug, PartialEq, Eq, Structural)]
pub enum Status {
    Success,
    NotFound,
    BadArgument,
    SerializationFailure,
    ParseFailure,
    BadExpression,
    InvalidMemoryAccess,
    Empty,
    CasMismatch,
    ResultMismatch,
    InternalFailure,
    BrokenConnection,
    Unimplemented,
}

impl Status {
    /// The numeric code the host ABI assigns to this status.
    pub fn code(&self) -> (c: u32)
        ensures
            c == self.spec_code(),
    {
        match self {
            Status::Success => 0,
            Status::NotFound => 1,
            Status::BadArgument => 2,
            Status::SerializationFailure => 3,
            Status::ParseFailure => 4,
            Status::BadExpression => 5,
            Status::InvalidMemoryAccess => 6,
            Status::Empty => 7,
            Status::CasMismatch => 8,
            Status::ResultMismatch => 9,
            Status::InternalFailure => 10,
            Status::BrokenConnection => 11,
            Status::Unimplemented => 12,
        }
    }

    /// The status that a numeric code of the host ABI names; every code
    /// outside the documented ones reads as unimplemented.
    pub fn from_code(raw: u32) -> (s: Status)
        ensures
            s == Status::spec_from_code(raw),
    {
        match raw {
            0 => Status::Success,
            1 => Status::NotFound,
            2 => Status::BadArgument,
            3 => Status::SerializationFailure,
            4 => Status::ParseFailure,
            5 => Status::BadExpression,
            6 => Status::InvalidMemoryAccess,
            7 => Status::Empty,
            8 => Status::CasMismatch,
            9 => Status::ResultMismatch,
            10 => Status::InternalFailure,
            11 => Status::BrokenConnection,
            _ => Status::Unimplemented,
        }
    }

    /// The decoding of a numeric status code, as a specification-level
    /// function: the inverse of `spec_code` on the documented codes.
    pub open spec fn spec_from_code(raw: u32) -> Status {
        if raw == 0 {
            Status::Success
        } else if raw == 1 {
            Status::NotFound
        } else if raw == 2 {
            Status::BadArgument
        } else if raw == 3 {
            Status::SerializationFailure
        } else if raw == 4 {
            Status::ParseFailure
        } else if raw == 5 {
            Status::BadExpression
        } else if raw == 6 {
            Status::InvalidMemoryAccess
        } else if raw == 7 {
            Status::Empty
        } else if raw == 8 {
            Status::CasMismatch
        } else if raw == 9 {
            Status::ResultMismatch
        } else if raw == 10 {
            Status::InternalFailure
        } else if raw == 11 {
            Status::BrokenConnection
        } else {
            Status::Unimplemented
        }
    }

    /// The numeric code, as a specification-level function.
    pub open spec fn spec_code(&self) -> u32 {
        match self {
            Status::Success => 0,
            Status::NotFound => 1,
            Status::BadArgument => 2,
            Status::SerializationFailure => 3,
            Status::ParseFailure => 4,
            Status::BadExpression => 5,
            Status::InvalidMemoryAccess => 6,
            Status::Empty => 7,
            Status::CasMismatch => 8,
            Status::ResultMismatch => 9,
            Status::InternalFailure => 10,
            Status::BrokenConnection => 11,
            Status::Unimplemented => 12,
        }
    }
}

/// Encoding a status and reading it back yields the same status: the two
/// numeric mappings are mutual inverses on the documented codes.
pub proof fn lemma_status_code_round_trip(s: Status)
    ensures
        Status::spec_from_code(s.spec_code()) == s,
{
}

} // verus!
