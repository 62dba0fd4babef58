//! The compile pipeline as a step machine for callers that perform real
//! I/O: every decision — probe classification, argument parsing, key
//! derivation, the cache policy — is made here, in verified code, and each
//! step hands back one action to perform. The driver only runs processes,
//! reads and writes files, and feeds the outcome to the continuation
//! carried inside the action; the types make it impossible to answer a step
//! with the wrong kind of event.
//!
//! The daemon in `server` runs the same decisions against its in-memory
//! executor under one end-to-end contract; this machine states each
//! transition's own contract.

use vstd::prelude::*;

use crate::bytes::clone_bytes;
use crate::cache::{
    has_key, lemma_key_equiv, lemma_wf_keys_unique, stored_entry, CacheEntry, DiskCache,
};
use crate::compiler::{
    arg_views, compile_command, derive_key, detect_compiler, input_of, key_is, output_of,
    parse_arguments, parses_to_compile, preprocess_command, probe_command, spec_detect, CacheKey,
    CompilerInfo, CompilerKind, ParsedArguments,
};
use crate::protocol::{
    Command, CompileFailure, CompileFinished, CompileRequest, ExitStatus, ProcessOutput, Response,
};
use crate::mock_command::ExecError;
use crate::server::{
    comp_paths_unique, failure_for, failure_of, knows_compiler, known_info, relays,
    CompilerRecord,
};

verus! {

/// Probe results remembered across requests, so no executable path is
/// probed twice in a driver's lifetime. The daemon keeps the same memo
/// inside its own state; this one is for drivers outside it.
pub struct CompilerMemo {
    records: Vec<CompilerRecord>,
}

impl CompilerMemo {
    /// The recorded probe results.
    pub closed spec fn view(&self) -> Seq<CompilerRecord> {
        self.records@
    }

    /// No path recorded twice.
    pub closed spec fn wf(&self) -> bool {
        comp_paths_unique(self.records@)
    }

    /// An empty memo.
    pub fn new() -> (r: CompilerMemo)
        ensures
            r.wf(),
            r@.len() == 0,
    {
        CompilerMemo { records: Vec::new() }
    }

    /// What an earlier probe of this path established, if one happened.
    pub fn lookup(&self, exe: &String) -> (r: Option<CompilerInfo>)
        requires
            self.wf(),
        ensures
            match r {
                Some(info) => knows_compiler(self@, exe@) && info == known_info(self@, exe@),
                None => !knows_compiler(self@, exe@),
            },
    {
        let mut i: usize = 0;
        let n = self.records.len();
        while i < n
            invariant
                i <= n,
                n == self.records.len(),
                comp_paths_unique(self.records@),
                forall|j: int| 0 <= j < i ==> self.records@[j].path@ != exe@,
            decreases n - i,
        {
            if self.records[i].path == *exe {
                proof {
                    assert(knows_compiler(self@, exe@));
                    let w = choose|w: int|
                        0 <= w < self.records@.len() && self.records@[w].path@ == exe@;
                    assert(w == i as int);
                }
                return Some(self.records[i].info);
            }
            i = i + 1;
        }
        None
    }

    /// Records a probe result; a path already recorded keeps its first
    /// result.
    pub fn record(&mut self, exe: &String, info: CompilerInfo)
        requires
            old(self).wf(),
        ensures
            final(self).wf(),
            knows_compiler(old(self)@, exe@) ==> final(self)@ == old(self)@,
            !knows_compiler(old(self)@, exe@) ==> {
                &&& final(self)@ == old(self)@.push(final(self)@.last())
                &&& final(self)@.last().path@ == exe@
                &&& final(self)@.last().info == info
            },
            knows_compiler(final(self)@, exe@),
            known_info(final(self)@, exe@) == (if knows_compiler(old(self)@, exe@) {
                known_info(old(self)@, exe@)
            } else {
                info
            }),
    {
        match self.lookup(exe) {
            Some(_) => {},
            None => {
                let ghost s0 = self.records@;
                self.records.push(CompilerRecord { path: exe.clone(), info });
                proof {
                    assert(self.records@ == s0.push(self.records@.last()));
                    assert forall|a: int, b: int|
                        0 <= a < b < self.records@.len() implies self.records@[a].path@
                        != self.records@[b].path@ by {
                        if b < self.records@.len() - 1 {
                            assert(self.records@[a] == s0[a]);
                            assert(self.records@[b] == s0[b]);
                        } else {
                            assert(self.records@[a] == s0[a]);
                        }
                    }
                    assert(self.records@.last().path@ == exe@);
                    assert(knows_compiler(self@, exe@));
                    let w = choose|w: int|
                        0 <= w < self.records@.len() && self.records@[w].path@ == exe@;
                    assert(self.records@[w].path@ == exe@);
                    if w < self.records@.len() - 1 {
                        assert(s0[w].path@ == exe@);
                        assert(knows_compiler(s0, exe@));
                    }
                }
            },
        }
    }
}

/// Why the pending process was started.
pub enum ProcessPurpose {
    /// The probe of a first-seen executable.
    Probe,
    /// The original invocation, run verbatim and relayed (unsupported
    /// compiler or non-compilation invocation).
    Direct,
    /// The preprocessor run of a supported compilation.
    Preprocess { kind: CompilerKind, input: String, output: String },
    /// The real compiler run after a cache miss.
    Compile { key: CacheKey, output: String },
}

/// A job waiting for a process it asked for.
pub struct PendingProcess {
    pub req: CompileRequest,
    pub purpose: ProcessPurpose,
}

/// A job waiting for the cached object to be written to the output path.
pub struct PendingWrite {
    pub finished: CompileFinished,
}

/// A job waiting for the produced object file to be read back.
pub struct PendingRead {
    pub key: CacheKey,
    pub out: ProcessOutput,
}

/// The one action a driver performs next. The continuation inside each
/// variant accepts exactly the event that action produces.
pub enum JobAction {
    /// Run this command to completion, then call `process_done`.
    RunProcess(PendingProcess, Command),
    /// Write these bytes to this path, then call `file_written`.
    WriteFile(PendingWrite, String, Vec<u8>),
    /// Read this path, then call `file_read`.
    ReadFile(PendingRead, String),
    /// The request is answered.
    Respond(Response),
}

/// The action a settled dispatch emits: the direct run of the original
/// invocation for an unsupported kind or a non-compilation, the
/// preprocessor run for a supported compilation.
pub open spec fn dispatched(req: CompileRequest, info: CompilerInfo, r: JobAction) -> bool {
    match r {
        JobAction::RunProcess(p, c) => {
            &&& p.req == req
            &&& c.cwd@ == req.cwd@
            &&& (match p.purpose {
                ProcessPurpose::Probe => false,
                ProcessPurpose::Direct => (info == CompilerInfo::Unsupported
                    || !parses_to_compile(arg_views(req.args@))) && c.program@ == req.exe@
                    && arg_views(c.args@) == arg_views(req.args@),
                ProcessPurpose::Preprocess { kind, input, output } => {
                    &&& info == CompilerInfo::Supported(kind)
                    &&& parses_to_compile(arg_views(req.args@))
                    &&& input@ == input_of(arg_views(req.args@))
                    &&& output@ == output_of(arg_views(req.args@))
                    &&& c.program@ == req.exe@
                },
                ProcessPurpose::Compile { .. } => false,
            })
        },
        _ => false,
    }
}

/// Starts one compile request: a known compiler dispatches at once, an
/// unknown one is probed first.
pub fn start_job(req: CompileRequest, memo: &CompilerMemo) -> (r: JobAction)
    requires
        memo.wf(),
    ensures
        knows_compiler(memo@, req.exe@) ==> dispatched(req, known_info(memo@, req.exe@), r),
        !knows_compiler(memo@, req.exe@) ==> (match r {
            JobAction::RunProcess(p, c) => p.req == req && p.purpose is Probe && c.program@
                == req.exe@ && c.cwd@ == req.cwd@,
            _ => false,
        }),
{
    match memo.lookup(&req.exe) {
        None => {
            let cmd = probe_command(&req.exe, &req.cwd);
            JobAction::RunProcess(PendingProcess { req, purpose: ProcessPurpose::Probe }, cmd)
        },
        Some(info) => dispatch_job(req, info),
    }
}

/// Dispatches a request whose compiler kind is settled.
fn dispatch_job(req: CompileRequest, info: CompilerInfo) -> (r: JobAction)
    ensures
        dispatched(req, info, r),
{
    match info {
        CompilerInfo::Unsupported => {
            let cmd = compile_command(&req.exe, &req.args, &req.cwd);
            JobAction::RunProcess(PendingProcess { req, purpose: ProcessPurpose::Direct }, cmd)
        },
        CompilerInfo::Supported(kind) => {
            match parse_arguments(&req.args) {
                ParsedArguments::NotCompilation => {
                    let cmd = compile_command(&req.exe, &req.args, &req.cwd);
                    JobAction::RunProcess(
                        PendingProcess { req, purpose: ProcessPurpose::Direct },
                        cmd,
                    )
                },
                ParsedArguments::Compile { input, output } => {
                    let cmd = preprocess_command(&req.exe, &input, &req.cwd);
                    JobAction::RunProcess(
                        PendingProcess {
                            req,
                            purpose: ProcessPurpose::Preprocess { kind, input, output },
                        },
                        cmd,
                    )
                },
            }
        },
    }
}

impl PendingProcess {
    /// Feeds the finished process back. A probe records its result in the
    /// memo and dispatches; a direct run is relayed verbatim; a failing
    /// preprocess is relayed at once; a successful one derives the key and
    /// consults the cache — a stored artifact is written out and relayed
    /// with no compiler run, a miss runs the compiler; a finished compiler
    /// run is relayed, its object read back for storage only on exit 0.
    pub fn process_done(
        self,
        cache: &mut DiskCache,
        memo: &mut CompilerMemo,
        result: Result<ProcessOutput, ExecError>,
    ) -> (r: JobAction)
        requires
            old(cache).wf(),
            old(memo).wf(),
        ensures
            final(cache).wf(),
            final(memo).wf(),
            final(cache).capacity() == old(cache).capacity(),
            final(cache).root_path() == old(cache).root_path(),
            (match result {
                Err(e) => r == JobAction::Respond(Response::CompileFailed(failure_of(e)))
                    && final(cache).contents() == old(cache).contents() && final(memo)@ == old(
                    memo,
                )@,
                Ok(o) => match self.purpose {
                    ProcessPurpose::Probe => {
                        &&& final(cache).contents() == old(cache).contents()
                        &&& knows_compiler(final(memo)@, self.req.exe@)
                        &&& (!knows_compiler(old(memo)@, self.req.exe@) ==> known_info(
                            final(memo)@,
                            self.req.exe@,
                        ) == spec_detect(o.status.is_success(), o.stdout@))
                        &&& dispatched(self.req, known_info(final(memo)@, self.req.exe@), r)
                    },
                    ProcessPurpose::Direct => {
                        &&& final(cache).contents() == old(cache).contents()
                        &&& final(memo)@ == old(memo)@
                        &&& (match r {
                            JobAction::Respond(resp) => relays(resp, o),
                            _ => false,
                        })
                    },
                    ProcessPurpose::Preprocess { kind, input, output } => {
                        &&& final(memo)@ == old(memo)@
                        &&& (if !o.status.is_success() {
                            final(cache).contents() == old(cache).contents() && (match r {
                                JobAction::Respond(resp) => relays(resp, o),
                                _ => false,
                            })
                        } else {
                            forall|k: CacheKey|
                                #[trigger] key_is(
                                    k,
                                    kind,
                                    self.req.exe@,
                                    arg_views(self.req.args@),
                                    o.stdout@,
                                ) ==> (if has_key(old(cache).contents(), k) {
                                    match r {
                                        JobAction::WriteFile(w, path, bytes) => {
                                            &&& path@ == output@
                                            &&& bytes@ == stored_entry(
                                                old(cache).contents(),
                                                k,
                                            ).object@
                                            &&& w.finished.status == ExitStatus::Code(0i32)
                                            &&& w.finished.stdout@ == stored_entry(
                                                old(cache).contents(),
                                                k,
                                            ).stdout@
                                            &&& w.finished.stderr@ == stored_entry(
                                                old(cache).contents(),
                                                k,
                                            ).stderr@
                                        },
                                        _ => false,
                                    }
                                } else {
                                    match r {
                                        JobAction::RunProcess(p, c) => {
                                            &&& c.program@ == self.req.exe@
                                            &&& arg_views(c.args@) == arg_views(self.req.args@)
                                            &&& c.cwd@ == self.req.cwd@
                                            &&& (match p.purpose {
                                                ProcessPurpose::Compile { key, output: out2 } => {
                                                    &&& key_is(
                                                        key,
                                                        kind,
                                                        self.req.exe@,
                                                        arg_views(self.req.args@),
                                                        o.stdout@,
                                                    )
                                                    &&& out2@ == output@
                                                },
                                                _ => false,
                                            })
                                        },
                                        _ => false,
                                    }
                                })
                        })
                    },
                    ProcessPurpose::Compile { key, output } => {
                        &&& final(cache).contents() == old(cache).contents()
                        &&& final(memo)@ == old(memo)@
                        &&& (if o.status.is_success() {
                            match r {
                                JobAction::ReadFile(p, path) => path@ == output@ && p.key == key
                                    && p.out == o,
                                _ => false,
                            }
                        } else {
                            match r {
                                JobAction::Respond(resp) => relays(resp, o),
                                _ => false,
                            }
                        })
                    },
                },
            }),
    {
        let out = match result {
            Err(e) => {
                return JobAction::Respond(Response::CompileFailed(failure_for(e)));
            },
            Ok(o) => o,
        };
        match self.purpose {
            ProcessPurpose::Probe => {
                let info = detect_compiler(&out);
                memo.record(&self.req.exe, info);
                let settled = match memo.lookup(&self.req.exe) {
                    Some(settled) => settled,
                    None => info,
                };
                dispatch_job(self.req, settled)
            },
            ProcessPurpose::Direct => JobAction::Respond(
                Response::CompileFinished(
                    CompileFinished { status: out.status, stdout: out.stdout, stderr: out.stderr },
                ),
            ),
            ProcessPurpose::Preprocess { kind, input: _, output } => {
                if !out.status.success() {
                    return JobAction::Respond(
                        Response::CompileFinished(
                            CompileFinished {
                                status: out.status,
                                stdout: out.stdout,
                                stderr: out.stderr,
                            },
                        ),
                    );
                }
                let key = derive_key(kind, &self.req.exe, &self.req.args, &out.stdout);
                proof {
                    assert(key_is(key, kind, self.req.exe@, arg_views(self.req.args@), out.stdout@));
                    lemma_wf_keys_unique(&*cache);
                }
                let ghost pre_cache = *cache;
                match cache.get(&key) {
                    Some(entry) => {
                        let r = JobAction::WriteFile(
                            PendingWrite {
                                finished: CompileFinished {
                                    status: ExitStatus::Code(0),
                                    stdout: entry.stdout,
                                    stderr: entry.stderr,
                                },
                            },
                            output,
                            entry.object,
                        );
                        proof {
                            assert forall|k: CacheKey|
                                #[trigger] key_is(
                                    k,
                                    kind,
                                    self.req.exe@,
                                    arg_views(self.req.args@),
                                    out.stdout@,
                                ) implies has_key(pre_cache.contents(), k) && stored_entry(
                                pre_cache.contents(),
                                k,
                            ) == stored_entry(pre_cache.contents(), key) by {
                                lemma_key_equiv(pre_cache.contents(), k, key);
                            }
                        }
                        r
                    },
                    None => {
                        proof {
                            assert forall|k: CacheKey|
                                #[trigger] key_is(
                                    k,
                                    kind,
                                    self.req.exe@,
                                    arg_views(self.req.args@),
                                    out.stdout@,
                                ) implies !has_key(pre_cache.contents(), k) by {
                                lemma_key_equiv(pre_cache.contents(), k, key);
                            }
                        }
                        let cmd = compile_command(&self.req.exe, &self.req.args, &self.req.cwd);
                        JobAction::RunProcess(
                            PendingProcess {
                                req: self.req,
                                purpose: ProcessPurpose::Compile { key, output },
                            },
                            cmd,
                        )
                    },
                }
            },
            ProcessPurpose::Compile { key, output } => {
                if out.status.success() {
                    JobAction::ReadFile(PendingRead { key, out }, output)
                } else {
                    JobAction::Respond(
                        Response::CompileFinished(
                            CompileFinished {
                                status: out.status,
                                stdout: out.stdout,
                                stderr: out.stderr,
                            },
                        ),
                    )
                }
            },
        }
    }
}

impl PendingWrite {
    /// The cached object has been written to the output path: answer with
    /// the stored console output and exit 0.
    pub fn file_written(self) -> (r: JobAction)
        ensures
            r == JobAction::Respond(Response::CompileFinished(self.finished)),
    {
        JobAction::Respond(Response::CompileFinished(self.finished))
    }
}

impl PendingRead {
    /// The produced object file has been read back (or found missing). The
    /// artifact is stored only now — after an exit-0 compile with an
    /// existing output file; a missing file is a pipeline error and nothing
    /// is stored.
    pub fn file_read(self, cache: &mut DiskCache, object: Option<Vec<u8>>) -> (r: JobAction)
        requires
            old(cache).wf(),
        ensures
            final(cache).wf(),
            final(cache).capacity() == old(cache).capacity(),
            final(cache).root_path() == old(cache).root_path(),
            (match object {
                None => {
                    &&& r == JobAction::Respond(
                        Response::CompileFailed(CompileFailure::MissingOutput),
                    )
                    &&& final(cache).contents() == old(cache).contents()
                },
                Some(obj) => {
                    &&& (match r {
                        JobAction::Respond(resp) => relays(resp, self.out),
                        _ => false,
                    })
                    &&& (obj@.len() + self.out.stdout@.len() + self.out.stderr@.len() as int <= old(
                        cache,
                    ).capacity() ==> {
                        &&& has_key(final(cache).contents(), self.key)
                        &&& stored_entry(final(cache).contents(), self.key).object@ == obj@
                        &&& stored_entry(final(cache).contents(), self.key).stdout@
                            == self.out.stdout@
                        &&& stored_entry(final(cache).contents(), self.key).stderr@
                            == self.out.stderr@
                    })
                },
            }),
    {
        let obj = match object {
            None => {
                return JobAction::Respond(Response::CompileFailed(CompileFailure::MissingOutput));
            },
            Some(obj) => obj,
        };
        let entry = CacheEntry {
            object: obj,
            stdout: clone_bytes(&self.out.stdout),
            stderr: clone_bytes(&self.out.stderr),
        };
        cache.put(self.key, entry);
        JobAction::Respond(
            Response::CompileFinished(
                CompileFinished {
                    status: self.out.status,
                    stdout: self.out.stdout,
                    stderr: self.out.stderr,
                },
            ),
        )
    }
}

} // verus!
