//! Plain enumerations shared between the host ABI and extension code, each
//! with its numeric ABI code.
use vstd::prelude::*;

verus! {

/// Severity of a log message.
#[derive(Clone, Copy, Debug, PartialEq, Eq, Structural)]
pub enum LogLevel {
    Trace,
    Debug,
    Info,
    Warn,
    Error,
    Critical,
}

/// Directive a data handler returns to the host.
#[derive(Clone, Copy, Debug, PartialEq, Eq, Structural)]
pub enum Action {
    Continue,
    Pause,
}

/// Status code returned by a host call.
#[derive(Clone, Copy, Debug, PartialEq, Eq, Structural)]
pub enum Status {
    Success,
    NotFound,
    BadArgument,
    SerializationFailure,
    ParseFailure,
    Empty,
    CasMismatch,
    InternalFailure,
    BrokenConnection,
    Unimplemented,
}

/// Variant of child instance that a root declares it creates.
#[derive(Clone, Copy, Debug, PartialEq, Eq, Structural)]
pub enum ContextType {
    HttpContext,
    StreamContext,
}

#[derive(Clone, Copy, Debug, PartialEq, Eq, Structural)]
pub enum BufferType {
    HttpRequestBody,
    HttpResponseBody,
    DownstreamData,
    UpstreamData,
    HttpCallResponseBody,
}

#[derive(Clone, Copy, Debug, PartialEq, Eq, Structural)]
pub enum MapType {
    HttpRequestHeaders,
    HttpRequestTrailers,
    HttpResponseHeaders,
    HttpResponseTrailers,
    HttpCallResponseHeaders,
    HttpCallResponseTrailers,
}

#[derive(Clone, Copy, Debug, PartialEq, Eq, Structural)]
pub enum PeerType {
    Unknown,
    Local,
    Remote,
}

#[derive(Clone, Copy, Debug, PartialEq, Eq, Structural)]
pub enum MetricType {
    Counter,
    Gauge,
    Histogram,
}

pub open spec fn log_level_code(l: LogLevel) -> u32 {
    match l {
        LogLevel::Trace => 0,
        LogLevel::Debug => 1,
        LogLevel::Info => 2,
        LogLevel::Warn => 3,
        LogLevel::Error => 4,
        LogLevel::Critical => 5,
    }
}

pub open spec fn status_code(s: Status) -> u32 {
    match s {
        Status::Success => 0,
        Status::NotFound => 1,
        Status::BadArgument => 2,
        Status::SerializationFailure => 3,
        Status::ParseFailure => 4,
        Status::Empty => 7,
        Status::CasMismatch => 8,
        Status::InternalFailure => 10,
        Status::BrokenConnection => 11,
        Status::Unimplemented => 12,
    }
}

impl LogLevel {
    pub fn code(&self) -> (r: u32)
        ensures
            r == log_level_code(*self),
    {
        match self {
            LogLevel::Trace => 0,
            LogLevel::Debug => 1,
            LogLevel::Info => 2,
            LogLevel::Warn => 3,
            LogLevel::Error => 4,
            LogLevel::Critical => 5,
        }
    }

    pub fn from_code(code: u32) -> (r: Option<LogLevel>)
        ensures
            r matches Some(l) ==> log_level_code(l) == code,
            r is None <==> code > 5,
    {
        match code {
            0 => Some(LogLevel::Trace),
            1 => Some(LogLevel::Debug),
            2 => Some(LogLevel::Info),
            3 => Some(LogLevel::Warn),
            4 => Some(LogLevel::Error),
            5 => Some(LogLevel::Critical),
            _ => None,
        }
    }
}

impl Action {
    pub fn code(&self) -> (r: u32)
        ensures
            r == (if *self == Action::Continue { 0u32 } else { 1u32 }),
    {
        match self {
            Action::Continue => 0,
            Action::Pause => 1,
        }
    }
}

impl Status {
    pub fn code(&self) -> (r: u32)
        ensures
            r == status_code(*self),
    {
        match self {
            Status::Success => 0,
            Status::NotFound => 1,
            Status::BadArgument => 2,
            Status::SerializationFailure => 3,
            Status::ParseFailure => 4,
            Status::Empty => 7,
            Status::CasMismatch => 8,
            Status::InternalFailure => 10,
            Status::BrokenConnection => 11,
            Status::Unimplemented => 12,
        }
    }

    pub fn from_code(code: u32) -> (r: Option<Status>)
        ensures
            r matches Some(s) ==> status_code(s) == code,
            r is None <==> (forall|s: Status| status_code(s) != code),
    {
        let r = match code {
            0 => Some(Status::Success),
            1 => Some(Status::NotFound),
            2 => Some(Status::BadArgument),
            3 => Some(Status::SerializationFailure),
            4 => Some(Status::ParseFailure),
            7 => Some(Status::Empty),
            8 => Some(Status::CasMismatch),
            10 => Some(Status::InternalFailure),
            11 => Some(Status::BrokenConnection),
            12 => Some(Status::Unimplemented),
            _ => None,
        };
        proof {
            if r is None {
                assert forall|s: Status| status_code(s) != code by {
                    match s {
                        _ => {},
                    }
                }
            }
        }
        r
    }
}

impl PeerType {
    pub fn from_code(code: u32) -> (r: PeerType)
        ensures
            r == (if code == 1 {
                PeerType::Local
            } else if code == 2 {
                PeerType::Remote
            } else {
                PeerType::Unknown
            }),
    {
        match code {
            1 => PeerType::Local,
            2 => PeerType::Remote,
            _ => PeerType::Unknown,
        }
    }
}

impl MapType {
    pub fn code(&self) -> (r: u32)
        ensures
            r == match *self {
                MapType::HttpRequestHeaders => 0u32,
                MapType::HttpRequestTrailers => 1u32,
                MapType::HttpResponseHeaders => 2u32,
                MapType::HttpResponseTrailers => 3u32,
                MapType::HttpCallResponseHeaders => 6u32,
                MapType::HttpCallResponseTrailers => 7u32,
            },
    {
        match self {
            MapType::HttpRequestHeaders => 0,
            MapType::HttpRequestTrailers => 1,
            MapType::HttpResponseHeaders => 2,
            MapType::HttpResponseTrailers => 3,
            MapType::HttpCallResponseHeaders => 6,
            MapType::HttpCallResponseTrailers => 7,
        }
    }
}

impl BufferType {
    pub fn code(&self) -> (r: u32)
        ensures
            r == match *self {
                BufferType::HttpRequestBody => 0u32,
                BufferType::HttpResponseBody => 1u32,
                BufferType::DownstreamData => 2u32,
                BufferType::UpstreamData => 3u32,
                BufferType::HttpCallResponseBody => 4u32,
            },
    {
        match self {
            BufferType::HttpRequestBody => 0,
            BufferType::HttpResponseBody => 1,
            BufferType::DownstreamData => 2,
            BufferType::UpstreamData => 3,
            BufferType::HttpCallResponseBody => 4,
        }
    }
}

impl MetricType {
    pub fn code(&self) -> (r: u32)
        ensures
            r == match *self {
                MetricType::Counter => 0u32,
                MetricType::Gauge => 1u32,
                MetricType::Histogram => 2u32,
            },
    {
        match self {
            MetricType::Counter => 0,
            MetricType::Gauge => 1,
            MetricType::Histogram => 2,
        }
    }
}

} // verus!
