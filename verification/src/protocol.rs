//! Typed request and response messages exchanged between a client and the
//! daemon, and the small value types they carry.

use vstd::prelude::*;

verus! {

/// How a spawned process ended: a normal exit with a code, or termination by
/// a signal. Only `Code(0)` is ever treated as success.
#[derive(Clone, Copy, PartialEq, Eq, Structural, Debug)]
pub enum ExitStatus {
    Code(i32),
    Signal(i32),
}

impl ExitStatus {
    /// Exit code 0 is the only success sentinel; any other code, and any
    /// termination by signal, is failure.
    pub open spec fn is_success(self) -> bool {
        self == ExitStatus::Code(0i32)
    }

    pub fn success(&self) -> (r: bool)
        ensures
            r == self.is_success(),
    {
        match self {
            ExitStatus::Code(c) => *c == 0i32,
            ExitStatus::Signal(_) => false,
        }
    }
}

/// A normal exit with the given code.
pub fn exit_status(code: i32) -> (r: ExitStatus)
    ensures
        r == ExitStatus::Code(code),
{
    ExitStatus::Code(code)
}

/// Everything captured from one finished process: its exit status and the
/// bytes it wrote to stdout and stderr.
#[derive(Debug)]
pub struct ProcessOutput {
    pub status: ExitStatus,
    pub stdout: Vec<u8>,
    pub stderr: Vec<u8>,
}

/// An invocation handed to the command executor: program, ordered argument
/// list, and working directory.
#[derive(Debug)]
pub struct Command {
    pub program: String,
    pub args: Vec<String>,
    pub cwd: String,
}

/// One compile request as a client submits it.
#[derive(Debug)]
pub struct CompileRequest {
    /// Path of the compiler executable to run.
    pub exe: String,
    /// The full argument list, in order, exactly as the build system gave it.
    pub args: Vec<String>,
    /// Working directory of the invocation.
    pub cwd: String,
    /// Optional search-path override for resolving the executable; recorded in
    /// the request so the layer that spawns real processes can honour it.
    pub path: Option<Vec<String>>,
}

/// A request message sent from a client to the daemon.
#[derive(Debug)]
pub enum Request {
    Compile(CompileRequest),
    GetStats,
    Shutdown,
}

/// Why a compile request failed before the compiler itself could fail.
#[derive(Clone, Copy, PartialEq, Eq, Structural, Debug)]
pub enum CompileFailure {
    /// The executable could not be started at all; distinct from a non-zero
    /// exit status, which is not itself an error.
    LaunchFailed,
    /// The compiler reported success but the promised output file is absent:
    /// a pipeline error, surfaced to the caller and never cached.
    MissingOutput,
    /// The executor was asked to run a process it had nothing programmed
    /// for: an unexpected execution, kept distinct from a genuine launch
    /// failure so it can never pass silently for one.
    UnexpectedSpawn,
}

/// The terminal outcome of a compile request that did run the compiler (or
/// was served from cache): the status and console output to relay verbatim.
#[derive(Debug)]
pub struct CompileFinished {
    pub status: ExitStatus,
    pub stdout: Vec<u8>,
    pub stderr: Vec<u8>,
}

/// One named counter of the daemon's statistics: an integer count or a
/// textual value.
#[derive(PartialEq, Eq, Debug)]
pub enum CacheStat {
    Count(u64),
    Text(String),
}

/// A response message sent from the daemon back to a client.
#[derive(Debug)]
pub enum Response {
    CompileFinished(CompileFinished),
    CompileFailed(CompileFailure),
    Stats(Vec<(String, CacheStat)>),
    ShutdownAck,
}

/// An out-of-band control message to a running daemon, delivered outside the
/// normal request/response protocol.
#[derive(Clone, Copy, PartialEq, Eq, Structural, Debug)]
pub enum ServerMessage {
    Shutdown,
}

} // verus!
