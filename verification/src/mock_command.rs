//! A deterministic command executor: instead of spawning real processes it
//! hands back pre-programmed results from a first-in-first-out queue, and can
//! perform a programmed file write first — the stand-in for a compiler that
//! produces an object file before claiming success.
//!
//! The daemon drives every process execution through this queue, so the whole
//! pipeline runs, and is proved, without a real toolchain. The layer that
//! spawns real processes lives outside the verified crate and mirrors the
//! same interface.

use vstd::prelude::*;

use crate::fs::{FsFile, InMemoryFs};
use crate::protocol::{Command, ExitStatus, ProcessOutput};

verus! {

/// Why an execution attempt produced no process output.
#[derive(Clone, Copy, PartialEq, Eq, Structural, Debug)]
pub enum ExecError {
    /// The process could not be started at all; distinguishable from a
    /// non-zero exit status, which is not an error.
    LaunchFailed,
    /// The mock was asked to spawn with nothing queued: an unexpected process
    /// execution, surfaced as a hard failure of the run.
    NoQueuedResult,
}

/// The pre-programmed result of one process run, as the tests configure it.
pub type MockChild = ProcessOutput;

impl ProcessOutput {
    /// A process result with the given status and console output.
    pub fn new(status: ExitStatus, stdout: Vec<u8>, stderr: Vec<u8>) -> (r: ProcessOutput)
        ensures
            r.status == status,
            r.stdout@ == stdout@,
            r.stderr@ == stderr@,
    {
        ProcessOutput { status, stdout, stderr }
    }
}

/// One queued execution: an optional file write performed before the result
/// is returned, and the result itself.
pub struct QueuedSpawn {
    pub effect: Option<FsFile>,
    pub result: Result<MockChild, ExecError>,
}

/// A command executor that returns queued results instead of running
/// anything.
pub struct MockCommandCreator {
    /// The results still queued, consumed front first.
    pub children: Vec<QueuedSpawn>,
}

impl MockCommandCreator {
    /// An executor with nothing queued.
    pub fn new() -> (r: MockCommandCreator)
        ensures
            r.children@.len() == 0,
    {
        MockCommandCreator { children: Vec::new() }
    }

    /// Queues a fixed result for the next execution.
    pub fn next_command_spawns(&mut self, result: Result<MockChild, ExecError>)
        ensures
            final(self).children@ == old(self).children@.push(
                (QueuedSpawn { effect: None, result }),
            ),
    {
        self.children.push(QueuedSpawn { effect: None, result });
    }

    /// Queues a result for the next execution that first writes `data` under
    /// `path` — a compiler run that produces its output file and then exits.
    pub fn next_command_calls(
        &mut self,
        path: String,
        data: Vec<u8>,
        result: Result<MockChild, ExecError>,
    )
        ensures
            final(self).children@ == old(self).children@.push(
                (QueuedSpawn { effect: Some(FsFile { path, data }), result }),
            ),
    {
        self.children.push(QueuedSpawn { effect: Some(FsFile { path, data }), result });
    }

    /// "Runs" `cmd`: pops the front of the queue, performs its programmed
    /// file write against `fs`, and returns its programmed result. The
    /// invocation itself is not inspected. With nothing queued the call
    /// fails with `NoQueuedResult`, so an unexpected execution is a hard
    /// failure rather than a silent pass.
    pub fn spawn(&mut self, fs: &mut InMemoryFs, cmd: &Command) -> (r: Result<
        ProcessOutput,
        ExecError,
    >)
        requires
            old(fs).wf(),
        ensures
            final(fs).wf(),
            old(self).children@.len() == 0 ==> {
                &&& r == Result::<ProcessOutput, ExecError>::Err(ExecError::NoQueuedResult)
                &&& final(self).children@ == old(self).children@
                &&& final(fs)@ == old(fs)@
            },
            old(self).children@.len() > 0 ==> {
                &&& final(self).children@ == old(self).children@.drop_first()
                &&& r == old(self).children@[0].result
                &&& final(fs)@ == (match old(self).children@[0].effect {
                    Some(f) => old(fs)@.insert(f.path@, f.data@),
                    None => old(fs)@,
                })
            },
    {
        if self.children.len() == 0 {
            return Err(ExecError::NoQueuedResult);
        }
        let next = self.children.remove(0);
        proof {
            assert(self.children@ =~= old(self).children@.drop_first());
        }
        match next.effect {
            Some(f) => {
                fs.write(&f.path, f.data);
            },
            None => {},
        }
        next.result
    }
}

} // verus!
