//! The errors a node answers with.

use crate::node::Member;
use vstd::prelude::*;

verus! {

#[derive(Clone, Debug, PartialEq, Eq)]
pub enum Error {
    /// The message's term is lower than the node's own.
    StaleTerm { current_term: u64 },
    /// The node has not been given its membership yet.
    NotInitialized,
    /// The membership was given before; it is handed back.
    AlreadyInitialized { members: Vec<Member> },
    /// The message comes from another group.
    WrongGroup,
    /// The hard state could not be loaded or saved.
    Storage,
    /// The task spawner refused the work.
    TaskSpawn,
    /// The intake is closed: the node has shut down.
    ChannelDisconnected,
    /// The election timeout window is empty or a single value.
    InvalidOptions,
}

impl Error {
    /// A short description, for logs.
    pub fn message(&self) -> (s: &'static str)
        ensures
            s@ == error_text(*self),
    {
        match self {
            Error::StaleTerm { .. } => "stale term",
            Error::NotInitialized => "not initialized",
            Error::AlreadyInitialized { .. } => "already initialized",
            Error::WrongGroup => "wrong group",
            Error::Storage => "storage failure",
            Error::TaskSpawn => "task spawn failure",
            Error::ChannelDisconnected => "channel disconnected",
            Error::InvalidOptions => "invalid options",
        }
    }
}

pub open spec fn error_text(e: Error) -> Seq<char> {
    match e {
        Error::StaleTerm { .. } => "stale term"@,
        Error::NotInitialized => "not initialized"@,
        Error::AlreadyInitialized { .. } => "already initialized"@,
        Error::WrongGroup => "wrong group"@,
        Error::Storage => "storage failure"@,
        Error::TaskSpawn => "task spawn failure"@,
        Error::ChannelDisconnected => "channel disconnected"@,
        Error::InvalidOptions => "invalid options"@,
    }
}

} // verus!
