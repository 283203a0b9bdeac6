//! Where a node's background work runs.

use crate::error::Error;
use vstd::prelude::*;

verus! {

/// Spawner for a node's internal tasks: one that is given a name and a piece
/// of work, and runs the work to its end somewhere else. Nothing is promised
/// of the result: a spawner may refuse.
pub trait TaskSpawner {
    fn spawn<F>(&self, name: String, f: F) -> (r: Result<(), Error>) where
        F: FnOnce(),
        F: Send + 'static,

        requires
            f.requires(()),
    ;
}

/// What a node makes of a spawner's answer: a refusal, whatever reason the
/// spawner gave for it, is reported as `TaskSpawn`.
pub fn spawn_outcome(answer: Result<(), Error>) -> (r: Result<(), Error>)
    ensures
        answer is Ok ==> r is Ok,
        answer is Err ==> r == Err::<(), Error>(Error::TaskSpawn),
{
    match answer {
        Ok(()) => Ok(()),
        Err(_) => Err(Error::TaskSpawn),
    }
}

} // verus!
