//! The daemon: it owns the disk cache and the command executor, serves
//! typed requests, tracks statistics, and manages its own lifecycle — it
//! shuts itself down after a configured idle period and immediately on an
//! explicit shutdown message.
//!
//! Each compile request runs the pipeline: detect the compiler (probed once
//! per path), pass unsupported invocations through uncached, preprocess,
//! derive the cache key, and serve from the cache or compile and store.

use vstd::prelude::*;

use crate::bytes::clone_bytes;
use crate::cache::{
    has_key, stored_entry, lemma_key_equiv, lemma_key_matches_trans, lemma_wf_keys_unique,
    CacheEntry, DiskCache,
};
use crate::compiler::{
    arg_views, compile_command, derive_key, detect_compiler, input_of, key_is, key_matches,
    output_of, parse_arguments, parses_to_compile, preprocess_command, probe_command, spec_detect,
    CacheKey, CompilerInfo, CompilerKind, ParsedArguments,
};
use crate::fs::InMemoryFs;
use crate::mock_command::{ExecError, MockCommandCreator, QueuedSpawn};
use crate::protocol::{
    CacheStat, CompileFailure, CompileFinished, CompileRequest, ExitStatus, ProcessOutput, Request,
    Response, ServerMessage,
};

verus! {

/// How long, in time units, a daemon waits with no requests before it shuts
/// itself down, unless configured otherwise.
pub const DEFAULT_IDLE_TIMEOUT: u64 = 600;

/// The daemon's lifecycle. It listens until an explicit shutdown message or
/// idle-timeout expiry terminates it; a terminated daemon accepts nothing.
/// Requests are served to completion before a shutdown can be observed, so
/// there is no separate draining state: shutdown is only ever initiated
/// between requests.
#[derive(Clone, Copy, PartialEq, Eq, Structural, Debug)]
pub enum ServerLifecycle {
    Listening,
    Terminated,
}

/// The daemon's counters, updated synchronously with request handling.
#[derive(Clone, Copy, PartialEq, Eq, Structural, Debug)]
pub struct ServerStats {
    pub compile_requests: u64,
    pub cache_hits: u64,
    pub cache_misses: u64,
    pub compile_errors: u64,
    pub not_cached: u64,
}

/// What probing one executable path established, remembered for the
/// daemon's lifetime so no path is probed twice.
pub struct CompilerRecord {
    pub path: String,
    pub info: CompilerInfo,
}

/// No executable path is recorded twice.
pub open spec fn comp_paths_unique(s: Seq<CompilerRecord>) -> bool {
    forall|i: int, j: int| 0 <= i < j < s.len() ==> s[i].path@ != s[j].path@
}

/// The daemon has already probed this executable path.
pub open spec fn knows_compiler(s: Seq<CompilerRecord>, exe: Seq<char>) -> bool {
    exists|i: int| 0 <= i < s.len() && s[i].path@ == exe
}

/// What the daemon knows of this executable path.
pub open spec fn known_info(s: Seq<CompilerRecord>, exe: Seq<char>) -> CompilerInfo {
    s[choose|i: int| 0 <= i < s.len() && s[i].path@ == exe].info
}

/// `x + 1`, held at the top of the counter's range.
pub open spec fn sat_spec(x: u64) -> u64 {
    if x < u64::MAX {
        (x + 1) as u64
    } else {
        x
    }
}

fn sat_inc(x: u64) -> (r: u64)
    ensures
        r == sat_spec(x),
{
    if x < u64::MAX {
        x + 1
    } else {
        x
    }
}

/// `a + b`, held at the top of the range.
pub open spec fn sat_add_spec(a: u64, b: u64) -> u64 {
    if a + b <= u64::MAX {
        (a + b) as u64
    } else {
        u64::MAX
    }
}

fn sat_add(a: u64, b: u64) -> (r: u64)
    ensures
        r == sat_add_spec(a, b),
{
    if b <= u64::MAX - a {
        a + b
    } else {
        u64::MAX
    }
}

/// The daemon's whole state.
pub struct Server {
    /// The port the daemon reports itself as listening on.
    pub port: u16,
    /// The artifact store, exclusively owned.
    pub cache: DiskCache,
    /// The command executor, shared by probes, preprocessing and compiles.
    pub creator: MockCommandCreator,
    /// The file store the pipeline reads object files from and writes cached
    /// ones back to.
    pub fs: InMemoryFs,
    /// Counters, consistent with the requests observed so far.
    pub stats: ServerStats,
    /// Probe results, one per executable path seen.
    pub compilers: Vec<CompilerRecord>,
    /// Idle period after which the daemon shuts itself down.
    pub idle_timeout: u64,
    /// Current time, in time units.
    pub now: u64,
    /// Time of the last completed request (or of startup).
    pub last_activity: u64,
    pub state: ServerLifecycle,
}

/// How an execution failure reaches the response: a failure to launch keeps
/// its kind, and an execution attempted with nothing programmed surfaces as
/// its own failure, never as a launch error.
pub open spec fn failure_of(e: ExecError) -> CompileFailure {
    match e {
        ExecError::LaunchFailed => CompileFailure::LaunchFailed,
        ExecError::NoQueuedResult => CompileFailure::UnexpectedSpawn,
    }
}

/// Maps an execution error to the failure the response carries.
pub fn failure_for(e: ExecError) -> (r: CompileFailure)
    ensures
        r == failure_of(e),
{
    match e {
        ExecError::LaunchFailed => CompileFailure::LaunchFailed,
        ExecError::NoQueuedResult => CompileFailure::UnexpectedSpawn,
    }
}

/// The response relays this process output verbatim: same status, same
/// stdout bytes, same stderr bytes.
pub open spec fn relays(r: Response, o: ProcessOutput) -> bool {
    match r {
        Response::CompileFinished(f) => {
            &&& f.status == o.status
            &&& f.stdout@ == o.stdout@
            &&& f.stderr@ == o.stderr@
        },
        _ => false,
    }
}

/// The file store after one queued execution's programmed write.
pub open spec fn fs_after(m: Map<Seq<char>, Seq<u8>>, q: QueuedSpawn) -> Map<Seq<char>, Seq<u8>> {
    match q.effect {
        Some(f) => m.insert(f.path@, f.data@),
        None => m,
    }
}

/// The counters other than "Compile requests" are unchanged.
pub open spec fn side_stats_unchanged(pre: Server, post: Server) -> bool {
    &&& post.stats.cache_hits == pre.stats.cache_hits
    &&& post.stats.cache_misses == pre.stats.cache_misses
    &&& post.stats.compile_errors == pre.stats.compile_errors
    &&& post.stats.not_cached == pre.stats.not_cached
}

/// No key appeared or disappeared, and no stored artifact changed.
pub open spec fn cache_lookups_preserved(pre: Server, post: Server) -> bool {
    &&& forall|k2: CacheKey|
        #[trigger] has_key(post.cache.contents(), k2) == has_key(pre.cache.contents(), k2)
    &&& forall|k2: CacheKey|
        #[trigger] has_key(pre.cache.contents(), k2) ==> stored_entry(post.cache.contents(), k2)
            == stored_entry(pre.cache.contents(), k2)
}

/// The unsupported (or non-compilation) path: one direct execution of the
/// original invocation, relayed verbatim, a "Not cached" count, and not a
/// single cache read or write.
pub open spec fn unsupported_step(pre: Server, post: Server, r: Response) -> bool {
    let q = pre.creator.children@;
    &&& post.cache.contents() == pre.cache.contents()
    &&& post.stats.not_cached == sat_spec(pre.stats.not_cached)
    &&& post.stats.cache_hits == pre.stats.cache_hits
    &&& post.stats.cache_misses == pre.stats.cache_misses
    &&& post.stats.compile_errors == pre.stats.compile_errors
    &&& (q.len() == 0 ==> post.creator.children@ == q && r == Response::CompileFailed(
        CompileFailure::UnexpectedSpawn,
    ))
    &&& (q.len() > 0 ==> {
        &&& post.creator.children@ == q.drop_first()
        &&& (match q[0].result {
            Ok(o) => relays(r, o),
            Err(e) => r == Response::CompileFailed(failure_of(e)),
        })
    })
}

/// After the cache decision of a supported compile whose key answers to
/// `(kind, exe, args, preprocessed)` — through any key `k` carrying those
/// inputs. A present key is served from the cache: the stored artifact is
/// written to the requested output file and relayed, with no further
/// execution. An absent key runs the real compiler, relays its output, and
/// stores the produced object — only on success, and only when the object
/// file exists.
pub open spec fn supported_key_post(
    pre: Server,
    post: Server,
    k: CacheKey,
    outp: Seq<char>,
    m1: Map<Seq<char>, Seq<u8>>,
    r: Response,
) -> bool {
    let q = pre.creator.children@;
    let q1 = q.drop_first();
    if has_key(pre.cache.contents(), k) {
        &&& post.creator.children@ == q1
        &&& post.stats.cache_hits == sat_spec(pre.stats.cache_hits)
        &&& post.stats.cache_misses == pre.stats.cache_misses
        &&& post.stats.compile_errors == pre.stats.compile_errors
        &&& post.stats.not_cached == pre.stats.not_cached
        &&& (match r {
            Response::CompileFinished(f) => {
                &&& f.status == ExitStatus::Code(0i32)
                &&& f.stdout@ == stored_entry(pre.cache.contents(), k).stdout@
                &&& f.stderr@ == stored_entry(pre.cache.contents(), k).stderr@
            },
            _ => false,
        })
        &&& post.fs@ == m1.insert(outp, stored_entry(pre.cache.contents(), k).object@)
        &&& cache_lookups_preserved(pre, post)
    } else {
        if q1.len() == 0 {
            &&& post.creator.children@ == q1
            &&& r == Response::CompileFailed(CompileFailure::UnexpectedSpawn)
            &&& post.cache.contents() == pre.cache.contents()
            &&& side_stats_unchanged(pre, post)
        } else {
            match q1[0].result {
                Err(e) => {
                    &&& post.creator.children@ == q1.drop_first()
                    &&& r == Response::CompileFailed(failure_of(e))
                    &&& post.cache.contents() == pre.cache.contents()
                    &&& side_stats_unchanged(pre, post)
                },
                Ok(c) => {
                    let m2 = fs_after(m1, q1[0]);
                    &&& post.creator.children@ == q1.drop_first()
                    &&& (if !c.status.is_success() {
                        &&& relays(r, c)
                        &&& post.cache.contents() == pre.cache.contents()
                        &&& post.stats.compile_errors == sat_spec(pre.stats.compile_errors)
                        &&& post.stats.cache_hits == pre.stats.cache_hits
                        &&& post.stats.cache_misses == pre.stats.cache_misses
                        &&& post.stats.not_cached == pre.stats.not_cached
                    } else if !m2.contains_key(outp) {
                        &&& r == Response::CompileFailed(CompileFailure::MissingOutput)
                        &&& post.cache.contents() == pre.cache.contents()
                        &&& side_stats_unchanged(pre, post)
                    } else {
                        &&& relays(r, c)
                        &&& post.fs@ == m2
                        &&& post.stats.cache_misses == sat_spec(pre.stats.cache_misses)
                        &&& post.stats.cache_hits == pre.stats.cache_hits
                        &&& post.stats.compile_errors == pre.stats.compile_errors
                        &&& post.stats.not_cached == pre.stats.not_cached
                        &&& store_post(pre, post, k, m2[outp], c)
                    })
                },
            }
        }
    }
}

/// The artifact `(obj, c.stdout, c.stderr)` is stored under `k` if it fits
/// the cache's budget at all; every surviving key keeps its artifact.
pub open spec fn store_post(
    pre: Server,
    post: Server,
    k: CacheKey,
    obj: Seq<u8>,
    c: ProcessOutput,
) -> bool {
    let size = obj.len() + c.stdout@.len() + c.stderr@.len() as int;
    &&& (size > pre.cache.capacity() ==> post.cache.contents() == pre.cache.contents())
    &&& (size <= pre.cache.capacity() ==> {
        &&& has_key(post.cache.contents(), k)
        &&& stored_entry(post.cache.contents(), k).object@ == obj
        &&& stored_entry(post.cache.contents(), k).stdout@ == c.stdout@
        &&& stored_entry(post.cache.contents(), k).stderr@ == c.stderr@
    })
    &&& forall|k2: CacheKey|
        !key_matches(k2, k) && #[trigger] has_key(post.cache.contents(), k2) ==> has_key(
            pre.cache.contents(),
            k2,
        ) && stored_entry(post.cache.contents(), k2) == stored_entry(pre.cache.contents(), k2)
}

/// The supported path: the preprocessor runs first (one execution); a
/// failing preprocess is relayed at once, without consulting the cache;
/// a successful one fixes the cache key, and `supported_key_post` takes
/// over.
pub open spec fn supported_step(
    pre: Server,
    post: Server,
    kind: CompilerKind,
    exe: Seq<char>,
    v: Seq<Seq<char>>,
    r: Response,
) -> bool {
    let q = pre.creator.children@;
    if q.len() == 0 {
        &&& post.creator.children@ == q
        &&& r == Response::CompileFailed(CompileFailure::UnexpectedSpawn)
        &&& post.cache.contents() == pre.cache.contents()
        &&& side_stats_unchanged(pre, post)
    } else {
        match q[0].result {
            Err(e) => {
                &&& post.creator.children@ == q.drop_first()
                &&& r == Response::CompileFailed(failure_of(e))
                &&& post.cache.contents() == pre.cache.contents()
                &&& side_stats_unchanged(pre, post)
            },
            Ok(p) => {
                let m1 = fs_after(pre.fs@, q[0]);
                if !p.status.is_success() {
                    &&& post.creator.children@ == q.drop_first()
                    &&& relays(r, p)
                    &&& post.cache.contents() == pre.cache.contents()
                    &&& post.stats.compile_errors == sat_spec(pre.stats.compile_errors)
                    &&& post.stats.cache_hits == pre.stats.cache_hits
                    &&& post.stats.cache_misses == pre.stats.cache_misses
                    &&& post.stats.not_cached == pre.stats.not_cached
                } else {
                    forall|k: CacheKey|
                        #[trigger] key_is(k, kind, exe, v, p.stdout@) ==> supported_key_post(
                            pre,
                            post,
                            k,
                            output_of(v),
                            m1,
                            r,
                        )
                }
            },
        }
    }
}

/// For all compile requests with a supported compiler and identical
/// effective inputs — same compiler path, same arguments, same preprocessed
/// source — a request whose key is already stored is served from the cache:
/// the "Cache hits" counter increments, no execution beyond the
/// preprocessor is consumed, and the response carries exit 0 with the
/// stored console output.
pub proof fn lemma_repeat_request_served_from_cache(
    s1: Server,
    s2: Server,
    r2: Response,
    kind: CompilerKind,
    exe: Seq<char>,
    v: Seq<Seq<char>>,
    p: Seq<u8>,
    k: CacheKey,
)
    requires
        key_is(k, kind, exe, v, p),
        has_key(s1.cache.contents(), k),
        parses_to_compile(v),
        s1.creator.children@.len() > 0,
        (match s1.creator.children@[0].result {
            Ok(o) => o.status.is_success() && o.stdout@ == p,
            Err(_) => false,
        }),
        supported_step(s1, s2, kind, exe, v, r2),
    ensures
        s2.stats.cache_hits == sat_spec(s1.stats.cache_hits),
        s2.stats.cache_misses == s1.stats.cache_misses,
        s2.creator.children@ == s1.creator.children@.drop_first(),
        (match r2 {
            Response::CompileFinished(f) => {
                &&& f.status == ExitStatus::Code(0i32)
                &&& f.stdout@ == stored_entry(s1.cache.contents(), k).stdout@
                &&& f.stderr@ == stored_entry(s1.cache.contents(), k).stderr@
            },
            _ => false,
        }),
{
    let q = s1.creator.children@;
    match q[0].result {
        Ok(o) => {
            assert(key_is(k, kind, exe, v, o.stdout@));
            assert(supported_key_post(s1, s2, k, output_of(v), fs_after(s1.fs@, q[0]), r2));
        },
        Err(_) => {},
    }
}

/// What the request does once the compiler's kind is settled, from the
/// state `mid` in which it is settled: an unsupported kind — or a supported
/// one invoked without a compilation — is passed through uncached; a
/// supported compilation takes the caching path.
pub open spec fn dispatch_step(
    mid: Server,
    post: Server,
    info: CompilerInfo,
    exe: Seq<char>,
    v: Seq<Seq<char>>,
    r: Response,
) -> bool {
    match info {
        CompilerInfo::Unsupported => unsupported_step(mid, post, r),
        CompilerInfo::Supported(kind) => {
            if parses_to_compile(v) {
                supported_step(mid, post, kind, exe, v, r)
            } else {
                unsupported_step(mid, post, r)
            }
        },
    }
}

/// The daemon right after a successful probe: the probe consumed the queue
/// head and applied its file write, and the cache and the other counters
/// are untouched. These are all the parts of the state that the rest of the
/// request reads.
pub open spec fn probe_mid(pre: Server, mid: Server) -> bool {
    let q = pre.creator.children@;
    &&& mid.creator.children@ == q.drop_first()
    &&& mid.cache == pre.cache
    &&& mid.fs@ == fs_after(pre.fs@, q[0])
    &&& mid.stats.cache_hits == pre.stats.cache_hits
    &&& mid.stats.cache_misses == pre.stats.cache_misses
    &&& mid.stats.compile_errors == pre.stats.compile_errors
    &&& mid.stats.not_cached == pre.stats.not_cached
}

/// The probe of a first-seen executable path: it consumes one execution,
/// records what its output establishes, and the rest of the request then
/// behaves, from the post-probe state, exactly as for a compiler already
/// known with the freshly detected kind. A probe that cannot run fails the
/// request and records nothing.
pub open spec fn probe_post(pre: Server, post: Server, req: CompileRequest, r: Response) -> bool {
    let q = pre.creator.children@;
    if q.len() == 0 {
        &&& r == Response::CompileFailed(CompileFailure::UnexpectedSpawn)
        &&& post.compilers@ == pre.compilers@
        &&& post.creator.children@ == q
        &&& post.cache.contents() == pre.cache.contents()
        &&& side_stats_unchanged(pre, post)
    } else {
        match q[0].result {
            Err(e) => {
                &&& r == Response::CompileFailed(failure_of(e))
                &&& post.compilers@ == pre.compilers@
                &&& post.creator.children@ == q.drop_first()
                &&& post.cache.contents() == pre.cache.contents()
                &&& side_stats_unchanged(pre, post)
            },
            Ok(o) => {
                &&& post.compilers@.len() == pre.compilers@.len() + 1
                &&& post.compilers@ == pre.compilers@.push(post.compilers@.last())
                &&& post.compilers@.last().path@ == req.exe@
                &&& post.compilers@.last().info == spec_detect(o.status.is_success(), o.stdout@)
                &&& exists|mid: Server|
                    #[trigger] probe_mid(pre, mid) && dispatch_step(
                        mid,
                        post,
                        spec_detect(o.status.is_success(), o.stdout@),
                        req.exe@,
                        arg_views(req.args@),
                        r,
                    )
            },
        }
    }
}

/// Everything `handle_compile` promises, over the state before and after.
pub open spec fn compile_post(pre: Server, post: Server, req: CompileRequest, r: Response) -> bool {
    let v = arg_views(req.args@);
    &&& post.wf()
    &&& post.port == pre.port
    &&& post.state == pre.state
    &&& post.idle_timeout == pre.idle_timeout
    &&& post.now == pre.now
    &&& post.last_activity == pre.last_activity
    &&& post.cache.capacity() == pre.cache.capacity()
    &&& post.cache.root_path() == pre.cache.root_path()
    &&& post.stats.compile_requests == sat_spec(pre.stats.compile_requests)
    &&& (knows_compiler(pre.compilers@, req.exe@) ==> {
        &&& post.compilers@ == pre.compilers@
        &&& dispatch_step(pre, post, known_info(pre.compilers@, req.exe@), req.exe@, v, r)
    })
    &&& (!knows_compiler(pre.compilers@, req.exe@) ==> probe_post(pre, post, req, r))
}

/// For all compile requests with an unsupported compiler, including one
/// probed in the same request: beyond the one-time probe, the daemon makes
/// exactly one process execution — the original invocation, relayed
/// verbatim — counts the request as not cached, and issues zero cache
/// reads or writes.
pub proof fn lemma_fresh_unsupported_passthrough(
    pre: Server,
    post: Server,
    req: CompileRequest,
    r: Response,
)
    requires
        compile_post(pre, post, req, r),
        !knows_compiler(pre.compilers@, req.exe@),
        pre.creator.children@.len() >= 2,
        (match pre.creator.children@[0].result {
            Ok(o) => spec_detect(o.status.is_success(), o.stdout@) == CompilerInfo::Unsupported,
            Err(_) => false,
        }),
    ensures
        post.cache.contents() == pre.cache.contents(),
        post.stats.not_cached == sat_spec(pre.stats.not_cached),
        post.stats.cache_hits == pre.stats.cache_hits,
        post.stats.cache_misses == pre.stats.cache_misses,
        post.stats.compile_errors == pre.stats.compile_errors,
        post.creator.children@ == pre.creator.children@.skip(2),
        (match pre.creator.children@[1].result {
            Ok(o) => relays(r, o),
            Err(e) => r == Response::CompileFailed(failure_of(e)),
        }),
{
    let q = pre.creator.children@;
    match q[0].result {
        Ok(o) => {
            let mid = choose|m: Server|
                #[trigger] probe_mid(pre, m) && dispatch_step(
                    m,
                    post,
                    spec_detect(o.status.is_success(), o.stdout@),
                    req.exe@,
                    arg_views(req.args@),
                    r,
                );
            assert(unsupported_step(mid, post, r));
            assert(mid.creator.children@ == q.drop_first());
            assert(mid.creator.children@[0] == q[1]);
            assert(post.creator.children@ =~= q.skip(2));
            assert(mid.cache.contents() == pre.cache.contents());
        },
        Err(_) => {},
    }
}

/// The storing half of the repeated-request law, for a compiler probed in
/// the same request: a fresh daemon whose queue scripts a successful gcc
/// probe, a successful preprocess, and a successful compile that produced
/// the output file, stores the object under the request's key — the key
/// the repeated request then finds. The retrieval half is
/// `lemma_repeat_request_served_from_cache`.
pub proof fn lemma_fresh_compile_stores(
    pre: Server,
    post: Server,
    req: CompileRequest,
    r: Response,
    kind: CompilerKind,
    k: CacheKey,
)
    requires
        compile_post(pre, post, req, r),
        !knows_compiler(pre.compilers@, req.exe@),
        parses_to_compile(arg_views(req.args@)),
        pre.creator.children@.len() >= 3,
        (match pre.creator.children@[0].result {
            Ok(o) => spec_detect(o.status.is_success(), o.stdout@) == CompilerInfo::Supported(
                kind,
            ),
            Err(_) => false,
        }),
        (match pre.creator.children@[1].result {
            Ok(p) => p.status.is_success() && key_is(
                k,
                kind,
                req.exe@,
                arg_views(req.args@),
                p.stdout@,
            ),
            Err(_) => false,
        }),
        !has_key(pre.cache.contents(), k),
        (match pre.creator.children@[2].result {
            Ok(c) => {
                &&& c.status.is_success()
                &&& fs_after(
                    fs_after(fs_after(pre.fs@, pre.creator.children@[0]), pre.creator.children@[1]),
                    pre.creator.children@[2],
                ).contains_key(output_of(arg_views(req.args@)))
                &&& fs_after(
                    fs_after(fs_after(pre.fs@, pre.creator.children@[0]), pre.creator.children@[1]),
                    pre.creator.children@[2],
                )[output_of(arg_views(req.args@))].len() + c.stdout@.len() + c.stderr@.len() as int
                    <= pre.cache.capacity()
            },
            Err(_) => false,
        }),
    ensures
        has_key(post.cache.contents(), k),
        post.stats.cache_misses == sat_spec(pre.stats.cache_misses),
        post.stats.cache_hits == pre.stats.cache_hits,
        (match pre.creator.children@[2].result {
            Ok(c) => relays(r, c) && stored_entry(post.cache.contents(), k).object@ == fs_after(
                fs_after(fs_after(pre.fs@, pre.creator.children@[0]), pre.creator.children@[1]),
                pre.creator.children@[2],
            )[output_of(arg_views(req.args@))] && stored_entry(post.cache.contents(), k).stdout@
                == c.stdout@ && stored_entry(post.cache.contents(), k).stderr@ == c.stderr@,
            Err(_) => true,
        }),
{
    let q = pre.creator.children@;
    let v = arg_views(req.args@);
    match (q[0].result, q[1].result, q[2].result) {
        (Ok(o), Ok(p), Ok(c)) => {
            let mid = choose|m: Server|
                #[trigger] probe_mid(pre, m) && dispatch_step(
                    m,
                    post,
                    spec_detect(o.status.is_success(), o.stdout@),
                    req.exe@,
                    arg_views(req.args@),
                    r,
                );
            match spec_detect(o.status.is_success(), o.stdout@) {
                CompilerInfo::Supported(kd) => {
                    assert(kd == kind);
                    assert(supported_step(mid, post, kind, req.exe@, v, r));
                    assert(mid.creator.children@ == q.drop_first());
                    assert(mid.creator.children@[0] == q[1]);
                    assert(mid.creator.children@[0].result matches Ok(p2) && p2 == p);
                    assert(key_is(k, kind, req.exe@, v, p.stdout@));
                    let m1 = fs_after(mid.fs@, mid.creator.children@[0]);
                    assert(mid.fs@ == fs_after(pre.fs@, q[0]));
                    assert(supported_key_post(mid, post, k, output_of(v), m1, r));
                    assert(mid.cache.contents() == pre.cache.contents());
                    assert(!has_key(mid.cache.contents(), k));
                    let q1 = mid.creator.children@.drop_first();
                    assert(q1[0] == q[2]);
                    let m2 = fs_after(m1, q1[0]);
                    assert(m2 == fs_after(fs_after(fs_after(pre.fs@, q[0]), q[1]), q[2]));
                    assert(m2.contains_key(output_of(v)));
                    assert(store_post(mid, post, k, m2[output_of(v)], c));
                },
                CompilerInfo::Unsupported => {},
            }
        },
        _ => {},
    }
}

/// The named counters a stats response carries, in order.
pub open spec fn stats_response_ok(st: ServerStats, r: Response) -> bool {
    match r {
        Response::Stats(v) => {
            &&& v@.len() == 5
            &&& v@[0].0@ == "Compile requests"@
            &&& v@[0].1 == CacheStat::Count(st.compile_requests)
            &&& v@[1].0@ == "Cache hits"@
            &&& v@[1].1 == CacheStat::Count(st.cache_hits)
            &&& v@[2].0@ == "Cache misses"@
            &&& v@[2].1 == CacheStat::Count(st.cache_misses)
            &&& v@[3].0@ == "Compile errors"@
            &&& v@[3].1 == CacheStat::Count(st.compile_errors)
            &&& v@[4].0@ == "Not cached"@
            &&& v@[4].1 == CacheStat::Count(st.not_cached)
        },
        _ => false,
    }
}

/// `s` with its idle timer reset to now.
pub open spec fn spec_touched(s: Server) -> Server {
    Server { last_activity: s.now, ..s }
}

/// Starts a daemon: an empty executor queue, a fresh file store, zeroed
/// counters, no probed compilers, the default idle timeout, and the given
/// port. Ports are assigned dynamically, never fixed: the caller binds a
/// listening socket (to port 0 for an ephemeral one) and passes the
/// assigned, necessarily nonzero port in.
pub fn create_server(port: u16, storage: DiskCache) -> (r: Server)
    requires
        storage.wf(),
        port > 0,
    ensures
        r.wf(),
        r.state == ServerLifecycle::Listening,
        r.port == port,
        r.cache == storage,
        r.creator.children@.len() == 0,
        r.fs@ == Map::<Seq<char>, Seq<u8>>::empty(),
        r.stats == (ServerStats {
            compile_requests: 0,
            cache_hits: 0,
            cache_misses: 0,
            compile_errors: 0,
            not_cached: 0,
        }),
        r.compilers@.len() == 0,
        r.idle_timeout == DEFAULT_IDLE_TIMEOUT,
        r.now == 0,
        r.last_activity == 0,
{
    Server {
        port,
        cache: storage,
        creator: MockCommandCreator::new(),
        fs: InMemoryFs::new(),
        stats: ServerStats {
            compile_requests: 0,
            cache_hits: 0,
            cache_misses: 0,
            compile_errors: 0,
            not_cached: 0,
        },
        compilers: Vec::new(),
        idle_timeout: DEFAULT_IDLE_TIMEOUT,
        now: 0,
        last_activity: 0,
        state: ServerLifecycle::Listening,
    }
}

impl Server {
    /// The daemon's invariant.
    pub open spec fn wf(&self) -> bool {
        &&& self.cache.wf()
        &&& self.fs.wf()
        &&& self.last_activity <= self.now
        &&& comp_paths_unique(self.compilers@)
    }

    /// The port this daemon reports itself as listening on.
    pub fn port(&self) -> (r: u16)
        ensures
            r == self.port,
    {
        self.port
    }

    /// Configures the idle period after which the daemon shuts itself down.
    pub fn set_idle_timeout(&mut self, timeout: u64)
        ensures
            *final(self) == (Server { idle_timeout: timeout, ..*old(self) }),
    {
        self.idle_timeout = timeout;
    }

    /// The command executor this daemon uses for all process creation.
    pub fn command_creator(&mut self) -> (r: &mut MockCommandCreator)
        ensures
            *r == old(self).creator,
            *final(self) == (Server { creator: *final(r), ..*old(self) }),
    {
        &mut self.creator
    }

    /// An out-of-band control message. Shutdown terminates the daemon
    /// unconditionally — whatever its idle timer or timeout say.
    pub fn notify(&mut self, msg: ServerMessage)
        ensures
            msg == ServerMessage::Shutdown ==> *final(self) == (Server {
                state: ServerLifecycle::Terminated,
                ..*old(self)
            }),
    {
        match msg {
            ServerMessage::Shutdown => {
                self.state = ServerLifecycle::Terminated;
            },
        }
    }

    /// `elapsed` time units pass with no request arriving. A listening
    /// daemon whose idle time reaches its configured timeout shuts itself
    /// down, with no external signal.
    pub fn advance_time(&mut self, elapsed: u64)
        requires
            old(self).wf(),
        ensures
            final(self).wf(),
            *final(self) == (Server {
                now: sat_add_spec(old(self).now, elapsed),
                state: if old(self).state == ServerLifecycle::Listening && old(self).now - old(
                    self,
                ).last_activity + elapsed >= old(self).idle_timeout {
                    ServerLifecycle::Terminated
                } else {
                    old(self).state
                },
                ..*old(self)
            }),
    {
        let idle_before = self.now - self.last_activity;
        let timed_out = idle_before >= self.idle_timeout || elapsed >= self.idle_timeout
            - idle_before;
        self.now = sat_add(self.now, elapsed);
        match self.state {
            ServerLifecycle::Listening => {
                if timed_out {
                    self.state = ServerLifecycle::Terminated;
                }
            },
            ServerLifecycle::Terminated => {},
        }
    }

    /// The info recorded for this executable path, if it was probed before.
    fn find_compiler(&self, exe: &String) -> (r: Option<CompilerInfo>)
        requires
            comp_paths_unique(self.compilers@),
        ensures
            match r {
                Some(info) => knows_compiler(self.compilers@, exe@) && info == known_info(
                    self.compilers@,
                    exe@,
                ),
                None => !knows_compiler(self.compilers@, exe@),
            },
    {
        let mut i: usize = 0;
        let n = self.compilers.len();
        while i < n
            invariant
                i <= n,
                n == self.compilers.len(),
                comp_paths_unique(self.compilers@),
                forall|j: int| 0 <= j < i ==> self.compilers@[j].path@ != exe@,
            decreases n - i,
        {
            if self.compilers[i].path == *exe {
                proof {
                    assert(knows_compiler(self.compilers@, exe@));
                    let w = choose|w: int|
                        0 <= w < self.compilers@.len() && self.compilers@[w].path@ == exe@;
                    assert(w == i as int);
                }
                return Some(self.compilers[i].info);
            }
            i = i + 1;
        }
        None
    }

    /// The named counters, as a stats response reports them.
    fn make_stats(&self) -> (r: Vec<(String, CacheStat)>)
        ensures
            stats_response_ok(self.stats, Response::Stats(r)),
    {
        let mut v: Vec<(String, CacheStat)> = Vec::new();
        v.push(("Compile requests".to_owned(), CacheStat::Count(self.stats.compile_requests)));
        v.push(("Cache hits".to_owned(), CacheStat::Count(self.stats.cache_hits)));
        v.push(("Cache misses".to_owned(), CacheStat::Count(self.stats.cache_misses)));
        v.push(("Compile errors".to_owned(), CacheStat::Count(self.stats.compile_errors)));
        v.push(("Not cached".to_owned(), CacheStat::Count(self.stats.not_cached)));
        v
    }

    /// Serves one typed request: dispatches it, updates the counters
    /// synchronously, and resets the idle timer. Only a listening daemon
    /// accepts requests.
    pub fn handle_request(&mut self, req: Request) -> (r: Response)
        requires
            old(self).wf(),
            old(self).state == ServerLifecycle::Listening,
        ensures
            final(self).wf(),
            final(self).last_activity == old(self).now,
            final(self).now == old(self).now,
            final(self).port == old(self).port,
            final(self).idle_timeout == old(self).idle_timeout,
            (req matches Request::Shutdown ==> *final(self)
                == (Server {
                state: ServerLifecycle::Terminated,
                last_activity: old(self).now,
                ..*old(self)
            }) && r == Response::ShutdownAck),
            (req matches Request::GetStats ==> *final(self)
                == (Server { last_activity: old(self).now, ..*old(self) }) && stats_response_ok(
                old(self).stats,
                r,
            )),
            (req matches Request::Compile(c) ==> compile_post(
                spec_touched(*old(self)),
                *final(self),
                c,
                r,
            )),
    {
        self.last_activity = self.now;
        match req {
            Request::Shutdown => {
                self.state = ServerLifecycle::Terminated;
                Response::ShutdownAck
            },
            Request::GetStats => Response::Stats(self.make_stats()),
            Request::Compile(c) => self.handle_compile(&c),
        }
    }

    /// The compile pipeline, from detection to a terminal response. The
    /// contract pins every path: an unsupported compiler's request runs
    /// exactly one direct execution and touches the cache not at all; a
    /// supported one preprocesses, and an artifact already stored under the
    /// derived key is served from the cache with no further execution,
    /// while a miss runs the compiler and stores the produced object — only
    /// on success. A first-seen executable is probed first, and the rest of
    /// the request then behaves the same way from the post-probe state.
    pub fn handle_compile(&mut self, req: &CompileRequest) -> (r: Response)
        requires
            old(self).wf(),
        ensures
            compile_post(*old(self), *final(self), *req, r),
    {
        let ghost pre = *self;
        self.stats.compile_requests = sat_inc(self.stats.compile_requests);
        match self.find_compiler(&req.exe) {
            Some(info) => self.dispatch_compile(req, info, Ghost(pre)),
            None => {
                let probe = probe_command(&req.exe, &req.cwd);
                match self.creator.spawn(&mut self.fs, &probe) {
                    Err(e) => Response::CompileFailed(failure_for(e)),
                    Ok(out) => {
                        let info = detect_compiler(&out);
                        self.compilers.push(CompilerRecord { path: req.exe.clone(), info });
                        proof {
                            assert(self.compilers@.last().path@ == req.exe@);
                            assert(self.compilers@ == pre.compilers@.push(self.compilers@.last()));
                            assert forall|a: int, b: int|
                                0 <= a < b < self.compilers@.len() implies self.compilers@[a].path@
                                != self.compilers@[b].path@ by {
                                if b < self.compilers@.len() - 1 {
                                    assert(self.compilers@[a] == pre.compilers@[a]);
                                    assert(self.compilers@[b] == pre.compilers@[b]);
                                } else {
                                    assert(self.compilers@[a] == pre.compilers@[a]);
                                    assert(!knows_compiler(pre.compilers@, req.exe@));
                                }
                            }
                        }
                        let ghost mid = *self;
                        let r = self.dispatch_compile(req, info, Ghost(mid));
                        proof {
                            assert(probe_mid(pre, mid));
                            assert(dispatch_step(
                                mid,
                                *self,
                                spec_detect(out.status.is_success(), out.stdout@),
                                req.exe@,
                                arg_views(req.args@),
                                r,
                            ));
                            assert(exists|m: Server|
                                #[trigger] probe_mid(pre, m) && dispatch_step(
                                    m,
                                    *self,
                                    spec_detect(out.status.is_success(), out.stdout@),
                                    req.exe@,
                                    arg_views(req.args@),
                                    r,
                                ));
                        }
                        r
                    },
                }
            },
        }
    }

    /// Executes the settled dispatch for `info`: pass-through for an
    /// unsupported kind or a non-compilation invocation, the caching path
    /// for a supported compilation. `base` is the state the contract is
    /// stated from: the current state up to the "Compile requests" counter.
    fn dispatch_compile(
        &mut self,
        req: &CompileRequest,
        info: CompilerInfo,
        Ghost(base): Ghost<Server>,
    ) -> (r: Response)
        requires
            old(self).wf(),
            old(self).cache == base.cache,
            old(self).creator == base.creator,
            old(self).fs == base.fs,
            old(self).stats.cache_hits == base.stats.cache_hits,
            old(self).stats.cache_misses == base.stats.cache_misses,
            old(self).stats.compile_errors == base.stats.compile_errors,
            old(self).stats.not_cached == base.stats.not_cached,
        ensures
            final(self).wf(),
            final(self).port == old(self).port,
            final(self).state == old(self).state,
            final(self).idle_timeout == old(self).idle_timeout,
            final(self).now == old(self).now,
            final(self).last_activity == old(self).last_activity,
            final(self).compilers@ == old(self).compilers@,
            final(self).stats.compile_requests == old(self).stats.compile_requests,
            final(self).cache.capacity() == old(self).cache.capacity(),
            final(self).cache.root_path() == old(self).cache.root_path(),
            dispatch_step(base, *final(self), info, req.exe@, arg_views(req.args@), r),
    {
        match info {
            CompilerInfo::Unsupported => self.passthrough(req, Ghost(base)),
            CompilerInfo::Supported(kind) => {
                match parse_arguments(&req.args) {
                    ParsedArguments::NotCompilation => self.passthrough(req, Ghost(base)),
                    ParsedArguments::Compile { input, output } => self.compile_supported(
                        req,
                        kind,
                        &input,
                        &output,
                        Ghost(base),
                    ),
                }
            },
        }
    }

    /// Executes the original invocation verbatim and relays its outcome,
    /// counting the request as not cached; the cache is not touched.
    fn passthrough(&mut self, req: &CompileRequest, Ghost(base): Ghost<Server>) -> (r: Response)
        requires
            old(self).wf(),
            old(self).cache == base.cache,
            old(self).creator == base.creator,
            old(self).fs == base.fs,
            old(self).stats.cache_hits == base.stats.cache_hits,
            old(self).stats.cache_misses == base.stats.cache_misses,
            old(self).stats.compile_errors == base.stats.compile_errors,
            old(self).stats.not_cached == base.stats.not_cached,
        ensures
            final(self).wf(),
            final(self).port == old(self).port,
            final(self).state == old(self).state,
            final(self).idle_timeout == old(self).idle_timeout,
            final(self).now == old(self).now,
            final(self).last_activity == old(self).last_activity,
            final(self).compilers@ == old(self).compilers@,
            final(self).stats.compile_requests == old(self).stats.compile_requests,
            final(self).cache.capacity() == old(self).cache.capacity(),
            final(self).cache.root_path() == old(self).cache.root_path(),
            unsupported_step(base, *final(self), r),
    {
        let cmd = compile_command(&req.exe, &req.args, &req.cwd);
        let out = self.creator.spawn(&mut self.fs, &cmd);
        self.stats.not_cached = sat_inc(self.stats.not_cached);
        match out {
            Err(e) => Response::CompileFailed(failure_for(e)),
            Ok(o) => Response::CompileFinished(
                CompileFinished { status: o.status, stdout: o.stdout, stderr: o.stderr },
            ),
        }
    }

    /// The supported path of the pipeline: preprocess, derive the key, and
    /// serve from the cache or compile and store.
    fn compile_supported(
        &mut self,
        req: &CompileRequest,
        kind: CompilerKind,
        input: &String,
        output: &String,
        Ghost(pre): Ghost<Server>,
    ) -> (r: Response)
        requires
            old(self).wf(),
            old(self).cache == pre.cache,
            old(self).creator == pre.creator,
            old(self).fs == pre.fs,
            old(self).stats.cache_hits == pre.stats.cache_hits,
            old(self).stats.cache_misses == pre.stats.cache_misses,
            old(self).stats.compile_errors == pre.stats.compile_errors,
            old(self).stats.not_cached == pre.stats.not_cached,
            parses_to_compile(arg_views(req.args@)),
            input@ == input_of(arg_views(req.args@)),
            output@ == output_of(arg_views(req.args@)),
        ensures
            final(self).wf(),
            final(self).port == old(self).port,
            final(self).state == old(self).state,
            final(self).idle_timeout == old(self).idle_timeout,
            final(self).now == old(self).now,
            final(self).last_activity == old(self).last_activity,
            final(self).compilers@ == old(self).compilers@,
            final(self).stats.compile_requests == old(self).stats.compile_requests,
            final(self).cache.capacity() == old(self).cache.capacity(),
            final(self).cache.root_path() == old(self).cache.root_path(),
            supported_step(pre, *final(self), kind, req.exe@, arg_views(req.args@), r),
    {
        let ghost v = arg_views(req.args@);
        let ghost q = pre.creator.children@;
        let pre_cmd = preprocess_command(&req.exe, input, &req.cwd);
        let pre_out = match self.creator.spawn(&mut self.fs, &pre_cmd) {
            Err(e) => {
                return Response::CompileFailed(failure_for(e));
            },
            Ok(p) => p,
        };
        if !pre_out.status.success() {
            self.stats.compile_errors = sat_inc(self.stats.compile_errors);
            return Response::CompileFinished(
                CompileFinished {
                    status: pre_out.status,
                    stdout: pre_out.stdout,
                    stderr: pre_out.stderr,
                },
            );
        }
        let ghost m1 = fs_after(pre.fs@, q[0]);
        let key = derive_key(kind, &req.exe, &req.args, &pre_out.stdout);
        proof {
            assert(key_is(key, kind, req.exe@, v, pre_out.stdout@));
            lemma_wf_keys_unique(&pre.cache);
        }
        let cached = self.cache.get(&key);
        match cached {
            Some(entry) => {
                self.stats.cache_hits = sat_inc(self.stats.cache_hits);
                self.fs.write(output, entry.object);
                let r = Response::CompileFinished(
                    CompileFinished {
                        status: ExitStatus::Code(0),
                        stdout: entry.stdout,
                        stderr: entry.stderr,
                    },
                );
                proof {
                    assert forall|k: CacheKey|
                        #[trigger] key_is(k, kind, req.exe@, v, pre_out.stdout@) implies
                    supported_key_post(pre, *self, k, output_of(v), m1, r) by {
                        assert(key_matches(k, key));
                        lemma_key_equiv(pre.cache.contents(), k, key);
                        assert(has_key(pre.cache.contents(), k));
                        assert(stored_entry(pre.cache.contents(), k) == stored_entry(
                            pre.cache.contents(),
                            key,
                        ));
                    }
                }
                r
            },
            None => {
                proof {
                    assert forall|k: CacheKey|
                        #[trigger] key_is(k, kind, req.exe@, v, pre_out.stdout@) implies !has_key(
                        pre.cache.contents(),
                        k,
                    ) by {
                        assert(key_matches(k, key));
                        lemma_key_equiv(pre.cache.contents(), k, key);
                    }
                }
                let cmd = compile_command(&req.exe, &req.args, &req.cwd);
                let ghost q1 = q.drop_first();
                let comp_out = match self.creator.spawn(&mut self.fs, &cmd) {
                    Err(e) => {
                        return Response::CompileFailed(failure_for(e));
                    },
                    Ok(c) => c,
                };
                if !comp_out.status.success() {
                    self.stats.compile_errors = sat_inc(self.stats.compile_errors);
                    return Response::CompileFinished(
                        CompileFinished {
                            status: comp_out.status,
                            stdout: comp_out.stdout,
                            stderr: comp_out.stderr,
                        },
                    );
                }
                let obj = match self.fs.read(output) {
                    None => {
                        return Response::CompileFailed(CompileFailure::MissingOutput);
                    },
                    Some(obj) => obj,
                };
                let ghost m2 = fs_after(m1, q1[0]);
                let entry = CacheEntry {
                    object: obj,
                    stdout: clone_bytes(&comp_out.stdout),
                    stderr: clone_bytes(&comp_out.stderr),
                };
                self.cache.put(key, entry);
                self.stats.cache_misses = sat_inc(self.stats.cache_misses);
                let r = Response::CompileFinished(
                    CompileFinished {
                        status: comp_out.status,
                        stdout: comp_out.stdout,
                        stderr: comp_out.stderr,
                    },
                );
                proof {
                    lemma_wf_keys_unique(&self.cache);
                    assert forall|k: CacheKey|
                        #[trigger] key_is(k, kind, req.exe@, v, pre_out.stdout@) implies
                    supported_key_post(pre, *self, k, output_of(v), m1, r) by {
                        assert(key_matches(k, key));
                        lemma_key_equiv(pre.cache.contents(), k, key);
                        lemma_key_equiv(self.cache.contents(), k, key);
                        assert forall|k2: CacheKey|
                            !key_matches(k2, k) && #[trigger] has_key(
                                self.cache.contents(),
                                k2,
                            ) implies has_key(pre.cache.contents(), k2) && stored_entry(
                            self.cache.contents(),
                            k2,
                        ) == stored_entry(pre.cache.contents(), k2) by {
                            if key_matches(k2, key) {
                                assert(key_matches(key, k));
                                lemma_key_matches_trans(k2, key, k);
                            }
                            assert(!key_matches(k2, key));
                        }
                    }
                }
                r
            },
        }
    }
}

} // verus!
