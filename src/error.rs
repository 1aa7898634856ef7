//! Why a command or a load fails.
use vstd::prelude::*;

verus! {

#[derive(Clone, Copy, Debug, PartialEq, Eq, Structural)]
pub enum TrackerError {
    /// A stored record has a status that is none of the three tokens.
    CorruptStatus,
    /// A stored record has a timestamp that cannot be read.
    CorruptTimestamp,
    /// The stored text is not JSON.
    MalformedFile,
    /// The largest id is taken, so no new task can get one.
    IdsExhausted,
    /// The command word is missing or unknown.
    UnknownCommand,
    /// A parameter of the command is missing.
    MissingArgument,
    /// An id parameter is not a number.
    BadId,
    /// A status parameter is none of the three tokens.
    BadStatus,
}

} // verus!
