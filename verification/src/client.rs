//! The client side of the protocol: submit a compile, ask for statistics,
//! or request shutdown, against a daemon, and relay the results to the
//! caller's own output sinks and exit code.
//!
//! A daemon that is not listening surfaces as a connection error, distinct
//! from every compile outcome, so the caller can decide to fall back to a
//! direct, uncached compile.

use vstd::prelude::*;

use crate::bytes::{append_bytes, clone_strings};
use crate::compiler::arg_views;
use crate::protocol::{
    CacheStat, CompileFailure, CompileRequest, ExitStatus, Request, Response,
};
use crate::server::{
    compile_post, spec_touched, stats_response_ok, Server, ServerLifecycle,
};

verus! {

/// Why a client operation failed without a compiler result.
#[derive(Clone, Copy, PartialEq, Eq, Structural, Debug)]
pub enum ClientError {
    /// The daemon could not be reached: it is not listening.
    Connection,
    /// The daemon could not start the requested executable.
    Launch,
    /// The compiler reported success but produced no output file.
    MissingOutput,
    /// The daemon attempted an execution its executor had nothing
    /// programmed for: a hard failure of the run, distinct from a launch
    /// failure, never a silent pass.
    UnexpectedSpawn,
    /// The daemon answered with an unexpected message.
    Protocol,
}

/// The exit code the caller's process reports for a finished compile: the
/// compiler's own code, or the conventional 128-plus-signal form for a
/// signalled compiler, held at the top of the range.
pub open spec fn exit_code_of(st: ExitStatus) -> i32 {
    match st {
        ExitStatus::Code(c) => c,
        ExitStatus::Signal(s) => if s > i32::MAX - 128 {
            i32::MAX
        } else {
            (128 + s) as i32
        },
    }
}

fn exit_code(st: ExitStatus) -> (r: i32)
    ensures
        r == exit_code_of(st),
{
    match st {
        ExitStatus::Code(c) => c,
        ExitStatus::Signal(s) => if s > i32::MAX - 128 {
            i32::MAX
        } else {
            128 + s
        },
    }
}

/// Checks that a daemon is reachable, answering with its port. Exactly the
/// listening daemons can be connected to.
pub fn connect_to_server(server: &Server) -> (r: Result<u16, ClientError>)
    ensures
        match r {
            Ok(p) => server.state == ServerLifecycle::Listening && p == server.port,
            Err(e) => server.state != ServerLifecycle::Listening && e == ClientError::Connection,
        },
{
    match server.state {
        ServerLifecycle::Listening => Ok(server.port()),
        ServerLifecycle::Terminated => Err(ClientError::Connection),
    }
}

/// Submits one compile request and relays the daemon's answer: the compile's
/// stdout and stderr are appended to the caller's sinks and its exit status
/// becomes the returned code, exactly as the compiler would have reported
/// them. Failures to launch, a missing output file, and an unreachable
/// daemon each surface as their own error, and leave the sinks untouched.
pub fn do_compile(
    server: &mut Server,
    exe: &String,
    args: &Vec<String>,
    cwd: &String,
    path: Option<Vec<String>>,
    stdout: &mut Vec<u8>,
    stderr: &mut Vec<u8>,
) -> (r: Result<i32, ClientError>)
    requires
        old(server).wf(),
    ensures
        final(server).wf(),
        old(server).state != ServerLifecycle::Listening ==> r == Err::<i32, ClientError>(
            ClientError::Connection,
        ) && *final(server) == *old(server) && final(stdout)@ == old(stdout)@ && final(stderr)@
            == old(stderr)@,
        old(server).state == ServerLifecycle::Listening ==> exists|c: CompileRequest, resp: Response|
            {
                &&& c.exe@ == exe@
                &&& arg_views(c.args@) == arg_views(args@)
                &&& c.cwd@ == cwd@
                &&& compile_post(spec_touched(*old(server)), *final(server), c, resp)
                &&& (match resp {
                    Response::CompileFinished(f) => {
                        &&& r == Ok::<i32, ClientError>(exit_code_of(f.status))
                        &&& final(stdout)@ == old(stdout)@ + f.stdout@
                        &&& final(stderr)@ == old(stderr)@ + f.stderr@
                    },
                    Response::CompileFailed(w) => {
                        &&& r == Err::<i32, ClientError>(match w {
                            CompileFailure::LaunchFailed => ClientError::Launch,
                            CompileFailure::MissingOutput => ClientError::MissingOutput,
                            CompileFailure::UnexpectedSpawn => ClientError::UnexpectedSpawn,
                        })
                        &&& final(stdout)@ == old(stdout)@
                        &&& final(stderr)@ == old(stderr)@
                    },
                    _ => {
                        &&& r == Err::<i32, ClientError>(ClientError::Protocol)
                        &&& final(stdout)@ == old(stdout)@
                        &&& final(stderr)@ == old(stderr)@
                    },
                })
            },
{
    match server.state {
        ServerLifecycle::Terminated => {
            return Err(ClientError::Connection);
        },
        ServerLifecycle::Listening => {},
    }
    let creq = CompileRequest {
        exe: exe.clone(),
        args: clone_strings(args),
        cwd: cwd.clone(),
        path,
    };
    let ghost c = creq;
    let resp = server.handle_request(Request::Compile(creq));
    let ghost resp_g = resp;
    match resp {
        Response::CompileFinished(f) => {
            append_bytes(stdout, &f.stdout);
            append_bytes(stderr, &f.stderr);
            let code = exit_code(f.status);
            proof {
                assert(arg_views(c.args@) =~= arg_views(args@));
            }
            Ok(code)
        },
        Response::CompileFailed(w) => {
            proof {
                assert(arg_views(c.args@) =~= arg_views(args@));
            }
            match w {
                CompileFailure::LaunchFailed => Err(ClientError::Launch),
                CompileFailure::MissingOutput => Err(ClientError::MissingOutput),
                CompileFailure::UnexpectedSpawn => Err(ClientError::UnexpectedSpawn),
            }
        },
        _ => {
            proof {
                assert(arg_views(c.args@) =~= arg_views(args@));
            }
            Err(ClientError::Protocol)
        },
    }
}

/// Asks a daemon for its counters.
pub fn request_stats(server: &mut Server) -> (r: Result<Vec<(String, CacheStat)>, ClientError>)
    requires
        old(server).wf(),
    ensures
        final(server).wf(),
        old(server).state != ServerLifecycle::Listening ==> (r matches Err(e) && e
            == ClientError::Connection) && *final(server) == *old(server),
        old(server).state == ServerLifecycle::Listening ==> (r matches Ok(v) && stats_response_ok(
            old(server).stats,
            Response::Stats(v),
        )) && *final(server) == (Server { last_activity: old(server).now, ..*old(server) }),
{
    match server.state {
        ServerLifecycle::Terminated => {
            return Err(ClientError::Connection);
        },
        ServerLifecycle::Listening => {},
    }
    match server.handle_request(Request::GetStats) {
        Response::Stats(v) => Ok(v),
        _ => Err(ClientError::Protocol),
    }
}

/// Asks a daemon to shut down. A reachable daemon terminates on receipt,
/// whatever its idle timer and timeout say.
pub fn request_shutdown(server: &mut Server) -> (r: Result<(), ClientError>)
    requires
        old(server).wf(),
    ensures
        final(server).wf(),
        old(server).state != ServerLifecycle::Listening ==> (r matches Err(e) && e
            == ClientError::Connection) && *final(server) == *old(server),
        old(server).state == ServerLifecycle::Listening ==> r == Ok::<(), ClientError>(())
            && *final(server) == (Server {
            state: ServerLifecycle::Terminated,
            last_activity: old(server).now,
            ..*old(server)
        }),
{
    match server.state {
        ServerLifecycle::Terminated => {
            return Err(ClientError::Connection);
        },
        ServerLifecycle::Listening => {},
    }
    match server.handle_request(Request::Shutdown) {
        Response::ShutdownAck => Ok(()),
        _ => Err(ClientError::Protocol),
    }
}

} // verus!
