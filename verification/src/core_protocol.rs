//! The launcher's first control protocol: a ping and an application launch,
//! each carrying the protocol version it speaks.
use vstd::prelude::*;

verus! {

pub const PROTOCOL_VERSION: u8 = 1;

#[derive(Debug, PartialEq, Eq)]
pub enum Request {
    Ping { protocol_version: u8 },
    LaunchApp { protocol_version: u8, desktop_id: String },
}

#[derive(Debug, PartialEq, Eq)]
pub enum Response {
    Pong { protocol_version: u8 },
    ApplicationState { protocol_version: u8, desktop_id: String, running: bool },
    Error { protocol_version: u8, message: String },
}

impl Request {
    /// The version the request says it speaks.
    pub open spec fn version_of(&self) -> u8 {
        match self {
            Request::Ping { protocol_version } => *protocol_version,
            Request::LaunchApp { protocol_version, .. } => *protocol_version,
        }
    }

    pub fn protocol_version(&self) -> (v: u8)
        ensures
            v == self.version_of(),
    {
        match self {
            Request::Ping { protocol_version } => *protocol_version,
            Request::LaunchApp { protocol_version, .. } => *protocol_version,
        }
    }
}

} // verus!
