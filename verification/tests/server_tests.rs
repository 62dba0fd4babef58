use std::collections::HashMap;

use sccache::cache::DiskCache;
use sccache::client::{connect_to_server, do_compile, request_shutdown, request_stats, ClientError};
use sccache::compiler::{derive_key, CompilerKind};
use sccache::mock_command::{ExecError, MockChild};
use sccache::protocol::{exit_status, CacheStat, ServerMessage};
use sccache::server::{create_server, Server, ServerLifecycle};

/// Options for running the server in tests.
#[derive(Default)]
struct ServerOptions {
    /// The server's idle shutdown timeout.
    idle_timeout: Option<u64>,
    /// The maximum size of the disk cache.
    cache_size: Option<usize>,
}

/// A directory path for the cache, as the tests configure it.
fn test_fixture_dir() -> String {
    "/tmp/sccache-test-cache".to_owned()
}

/// The port the test launcher hands the daemon, standing in for the one
/// the OS assigns when the launcher binds to port 0.
const ASSIGNED_PORT: u16 = 41968;

/// Builds a server the way the daemon launcher would, and returns it with
/// the port it reports.
fn run_server_thread(cache_dir: &String, options: Option<ServerOptions>) -> (Server, u16) {
    let cache_size = options
        .as_ref()
        .and_then(|o| o.cache_size.as_ref())
        .map(|s| *s)
        .unwrap_or(usize::MAX);
    let storage = DiskCache::new(cache_dir, cache_size);
    let mut server = create_server(ASSIGNED_PORT, storage);
    assert!(server.port() > 0);
    if let Some(options) = options {
        if let Some(timeout) = options.idle_timeout {
            server.set_idle_timeout(timeout);
        }
    }
    let port = server.port();
    (server, port)
}

fn cache_stats_map(v: Vec<(String, CacheStat)>) -> HashMap<String, CacheStat> {
    v.into_iter().collect()
}

fn strings(v: Vec<&str>) -> Vec<String> {
    v.into_iter().map(|s| s.to_owned()).collect()
}

#[test]
fn test_server_shutdown() {
    let f = test_fixture_dir();
    let (mut server, port) = run_server_thread(&f, None);
    // Connect to the server.
    let conn = connect_to_server(&server).unwrap();
    assert_eq!(conn, port);
    // Ask it to shut down
    request_shutdown(&mut server).unwrap();
    // Ensure that it shuts down.
    assert!(matches!(server.state, ServerLifecycle::Terminated));
}

#[test]
fn test_server_idle_timeout() {
    let f = test_fixture_dir();
    // Set a ridiculously low idle timeout.
    let (mut server, _port) = run_server_thread(
        &f,
        Some(ServerOptions { idle_timeout: Some(1), ..Default::default() }),
    );
    // Don't connect to it; let one idle time unit pass.
    server.advance_time(1);
    // Ensure that it shuts down.
    assert!(matches!(server.state, ServerLifecycle::Terminated));
}

#[test]
fn test_server_stats() {
    let f = test_fixture_dir();
    let (mut server, _port) = run_server_thread(&f, None);
    // Connect to the server.
    connect_to_server(&server).unwrap();
    // Ask it for stats.
    let stats = cache_stats_map(request_stats(&mut server).unwrap());
    assert_eq!(&CacheStat::Count(0), stats.get("Compile requests").unwrap());
    // Now signal it to shut down.
    server.notify(ServerMessage::Shutdown);
    // Ensure that it shuts down.
    assert!(matches!(server.state, ServerLifecycle::Terminated));
}

const COMPILER_STDOUT: &[u8] = b"some stdout";
const COMPILER_STDERR: &[u8] = b"some stderr";
const PREPROCESSOR_STDOUT: &[u8] = b"preprocessor stdout";
const PREPROCESSOR_STDERR: &[u8] = b"preprocessor stderr";

#[test]
fn test_server_unsupported_compiler() {
    let f = test_fixture_dir();
    let (mut server, _port) = run_server_thread(&f, None);
    // Connect to the server.
    connect_to_server(&server).unwrap();
    {
        let c = server.command_creator();
        // The server will check the compiler, so pretend to be an unsupported
        // compiler.
        c.next_command_spawns(Ok(MockChild::new(
            exit_status(0),
            b"hello".to_vec(),
            b"error".to_vec(),
        )));
        // The direct execution of the original invocation.
        c.next_command_spawns(Ok(MockChild::new(
            exit_status(0),
            COMPILER_STDOUT.to_vec(),
            COMPILER_STDERR.to_vec(),
        )));
    }
    // Ask the server to compile something.
    let exe = "/bin/cc".to_owned();
    let cmdline = strings(vec!["-c", "file.c", "-o", "file.o"]);
    let cwd = f.clone();
    let path = Some(strings(vec!["/bin", "/usr/bin"]));
    let mut stdout = Vec::new();
    let mut stderr = Vec::new();
    assert_eq!(
        0,
        do_compile(&mut server, &exe, &cmdline, &cwd, path, &mut stdout, &mut stderr).unwrap()
    );
    // Make sure we ran the mock processes.
    assert_eq!(0, server.command_creator().children.len());
    assert_eq!(COMPILER_STDOUT, &stdout[..]);
    assert_eq!(COMPILER_STDERR, &stderr[..]);
    // No cache operation took place: the store holds nothing.
    let key = derive_key(CompilerKind::Gcc, &exe, &cmdline, &PREPROCESSOR_STDOUT.to_vec());
    assert!(server.cache.get(&key).is_none());
    // The request was counted as not cached.
    let stats = cache_stats_map(request_stats(&mut server).unwrap());
    assert_eq!(&CacheStat::Count(1), stats.get("Compile requests").unwrap());
    assert_eq!(&CacheStat::Count(1), stats.get("Not cached").unwrap());
    assert_eq!(&CacheStat::Count(0), stats.get("Cache hits").unwrap());
    // Shut down the server.
    server.notify(ServerMessage::Shutdown);
    // Ensure that it shuts down.
    assert!(matches!(server.state, ServerLifecycle::Terminated));
}

#[test]
fn test_server_compile() {
    let f = test_fixture_dir();
    let (mut server, _port) = run_server_thread(&f, None);
    // Connect to the server.
    connect_to_server(&server).unwrap();
    {
        let c = server.command_creator();
        // The server will check the compiler. Pretend it's GCC.
        c.next_command_spawns(Ok(MockChild::new(exit_status(0), b"gcc".to_vec(), b"".to_vec())));
        // Preprocessor invocation.
        c.next_command_spawns(Ok(MockChild::new(
            exit_status(0),
            PREPROCESSOR_STDOUT.to_vec(),
            PREPROCESSOR_STDERR.to_vec(),
        )));
        // Compiler invocation: pretend to compile something, writing the
        // object file before claiming success.
        c.next_command_calls(
            "file.o".to_owned(),
            b"file contents".to_vec(),
            Ok(MockChild::new(exit_status(0), COMPILER_STDOUT.to_vec(), COMPILER_STDERR.to_vec())),
        );
    }
    // Ask the server to compile something.
    let exe = "/bin/cc".to_owned();
    let cmdline = strings(vec!["-c", "file.c", "-o", "file.o"]);
    let cwd = f.clone();
    let path = Some(strings(vec!["/bin", "/usr/bin"]));
    let mut stdout = Vec::new();
    let mut stderr = Vec::new();
    assert_eq!(
        0,
        do_compile(&mut server, &exe, &cmdline, &cwd, path, &mut stdout, &mut stderr).unwrap()
    );
    // Make sure we ran the mock processes.
    assert_eq!(0, server.command_creator().children.len());
    // The response relays the compile step's output, not the preprocessor's.
    assert_eq!(COMPILER_STDOUT, stdout.as_slice());
    assert_eq!(COMPILER_STDERR, stderr.as_slice());
    // The object file's bytes ended up stored in the cache.
    let key = derive_key(CompilerKind::Gcc, &exe, &cmdline, &PREPROCESSOR_STDOUT.to_vec());
    let entry = server.cache.get(&key).expect("compiled object was not stored");
    assert_eq!(b"file contents", entry.object.as_slice());
    assert_eq!(COMPILER_STDOUT, entry.stdout.as_slice());
    assert_eq!(COMPILER_STDERR, entry.stderr.as_slice());
    // Shut down the server.
    server.notify(ServerMessage::Shutdown);
    // Ensure that it shuts down.
    assert!(matches!(server.state, ServerLifecycle::Terminated));
}

/// A second, identical request is served from the cache: one "Cache hits"
/// count and no further compiler execution beyond the preprocessor.
#[test]
fn test_repeat_compile_hits_cache() {
    let f = test_fixture_dir();
    let (mut server, _port) = run_server_thread(&f, None);
    {
        let c = server.command_creator();
        c.next_command_spawns(Ok(MockChild::new(exit_status(0), b"gcc".to_vec(), b"".to_vec())));
        c.next_command_spawns(Ok(MockChild::new(
            exit_status(0),
            PREPROCESSOR_STDOUT.to_vec(),
            PREPROCESSOR_STDERR.to_vec(),
        )));
        c.next_command_calls(
            "file.o".to_owned(),
            b"file contents".to_vec(),
            Ok(MockChild::new(exit_status(0), COMPILER_STDOUT.to_vec(), COMPILER_STDERR.to_vec())),
        );
        // The second request needs only the preprocessor: queue nothing else,
        // so any further execution would fail the test.
        c.next_command_spawns(Ok(MockChild::new(
            exit_status(0),
            PREPROCESSOR_STDOUT.to_vec(),
            PREPROCESSOR_STDERR.to_vec(),
        )));
    }
    let exe = "/bin/cc".to_owned();
    let cmdline = strings(vec!["-c", "file.c", "-o", "file.o"]);
    let cwd = f.clone();
    let mut stdout = Vec::new();
    let mut stderr = Vec::new();
    assert_eq!(
        0,
        do_compile(&mut server, &exe, &cmdline, &cwd, None, &mut stdout, &mut stderr).unwrap()
    );
    let mut stdout2 = Vec::new();
    let mut stderr2 = Vec::new();
    assert_eq!(
        0,
        do_compile(&mut server, &exe, &cmdline, &cwd, None, &mut stdout2, &mut stderr2).unwrap()
    );
    // Every queued execution was consumed and none beyond them.
    assert_eq!(0, server.command_creator().children.len());
    // The cached compile output was relayed.
    assert_eq!(COMPILER_STDOUT, stdout2.as_slice());
    assert_eq!(COMPILER_STDERR, stderr2.as_slice());
    let stats = cache_stats_map(request_stats(&mut server).unwrap());
    assert_eq!(&CacheStat::Count(2), stats.get("Compile requests").unwrap());
    assert_eq!(&CacheStat::Count(1), stats.get("Cache misses").unwrap());
    assert_eq!(&CacheStat::Count(1), stats.get("Cache hits").unwrap());
}

/// A fresh daemon reports zero compile requests; after exactly one
/// successful supported-path compile with a cache miss, it reports one
/// request and one miss.
#[test]
fn test_stats_after_one_miss() {
    let f = test_fixture_dir();
    let (mut server, _port) = run_server_thread(&f, None);
    let stats = cache_stats_map(request_stats(&mut server).unwrap());
    assert_eq!(&CacheStat::Count(0), stats.get("Compile requests").unwrap());
    {
        let c = server.command_creator();
        c.next_command_spawns(Ok(MockChild::new(exit_status(0), b"gcc".to_vec(), b"".to_vec())));
        c.next_command_spawns(Ok(MockChild::new(exit_status(0), b"".to_vec(), b"".to_vec())));
        c.next_command_calls(
            "out.o".to_owned(),
            b"object".to_vec(),
            Ok(MockChild::new(exit_status(0), b"".to_vec(), b"".to_vec())),
        );
    }
    let exe = "/bin/cc".to_owned();
    let cmdline = strings(vec!["-c", "in.c", "-o", "out.o"]);
    let cwd = f.clone();
    let mut stdout = Vec::new();
    let mut stderr = Vec::new();
    assert_eq!(
        0,
        do_compile(&mut server, &exe, &cmdline, &cwd, None, &mut stdout, &mut stderr).unwrap()
    );
    let stats = cache_stats_map(request_stats(&mut server).unwrap());
    assert_eq!(&CacheStat::Count(1), stats.get("Compile requests").unwrap());
    assert_eq!(&CacheStat::Count(1), stats.get("Cache misses").unwrap());
    assert_eq!(&CacheStat::Count(0), stats.get("Cache hits").unwrap());
    assert_eq!(&CacheStat::Count(0), stats.get("Compile errors").unwrap());
}

/// A shutdown message terminates the daemon even under an enormous idle
/// timeout, with its idle timer far from expiry.
#[test]
fn test_shutdown_overrides_idle_timeout() {
    let f = test_fixture_dir();
    let (mut server, _port) = run_server_thread(
        &f,
        Some(ServerOptions { idle_timeout: Some(u64::MAX), ..Default::default() }),
    );
    server.advance_time(1000);
    assert!(matches!(server.state, ServerLifecycle::Listening));
    server.notify(ServerMessage::Shutdown);
    assert!(matches!(server.state, ServerLifecycle::Terminated));
}

/// Time short of the idle timeout does not terminate the daemon; reaching
/// it does.
#[test]
fn test_idle_timeout_boundary() {
    let f = test_fixture_dir();
    let (mut server, _port) = run_server_thread(
        &f,
        Some(ServerOptions { idle_timeout: Some(10), ..Default::default() }),
    );
    server.advance_time(9);
    assert!(matches!(server.state, ServerLifecycle::Listening));
    server.advance_time(1);
    assert!(matches!(server.state, ServerLifecycle::Terminated));
}

/// A failing preprocessor run is relayed at once as a compile error, and
/// nothing is cached.
#[test]
fn test_preprocess_failure_relayed() {
    let f = test_fixture_dir();
    let (mut server, _port) = run_server_thread(&f, None);
    {
        let c = server.command_creator();
        c.next_command_spawns(Ok(MockChild::new(exit_status(0), b"gcc".to_vec(), b"".to_vec())));
        c.next_command_spawns(Ok(MockChild::new(
            exit_status(1),
            b"".to_vec(),
            b"missing include".to_vec(),
        )));
    }
    let exe = "/bin/cc".to_owned();
    let cmdline = strings(vec!["-c", "bad.c", "-o", "bad.o"]);
    let cwd = f.clone();
    let mut stdout = Vec::new();
    let mut stderr = Vec::new();
    assert_eq!(
        1,
        do_compile(&mut server, &exe, &cmdline, &cwd, None, &mut stdout, &mut stderr).unwrap()
    );
    assert_eq!(b"missing include", stderr.as_slice());
    let stats = cache_stats_map(request_stats(&mut server).unwrap());
    assert_eq!(&CacheStat::Count(1), stats.get("Compile errors").unwrap());
    assert_eq!(&CacheStat::Count(0), stats.get("Cache misses").unwrap());
}

/// A compiler that reports success without producing its output file is a
/// pipeline error, distinct from a compiler error, and nothing is cached.
#[test]
fn test_missing_output_is_error() {
    let f = test_fixture_dir();
    let (mut server, _port) = run_server_thread(&f, None);
    {
        let c = server.command_creator();
        c.next_command_spawns(Ok(MockChild::new(exit_status(0), b"gcc".to_vec(), b"".to_vec())));
        c.next_command_spawns(Ok(MockChild::new(exit_status(0), b"".to_vec(), b"".to_vec())));
        // Success claimed, but no object file written.
        c.next_command_spawns(Ok(MockChild::new(exit_status(0), b"".to_vec(), b"".to_vec())));
    }
    let exe = "/bin/cc".to_owned();
    let cmdline = strings(vec!["-c", "in.c", "-o", "out.o"]);
    let cwd = f.clone();
    let mut stdout = Vec::new();
    let mut stderr = Vec::new();
    let r = do_compile(&mut server, &exe, &cmdline, &cwd, None, &mut stdout, &mut stderr);
    assert_eq!(r, Err(ClientError::MissingOutput));
}

/// An executable that cannot be launched at all surfaces as a launch error,
/// distinguishable from a non-zero exit status.
#[test]
fn test_launch_failure_is_error() {
    let f = test_fixture_dir();
    let (mut server, _port) = run_server_thread(&f, None);
    {
        let c = server.command_creator();
        c.next_command_spawns(Err(ExecError::LaunchFailed));
    }
    let exe = "/bin/nonexistent".to_owned();
    let cmdline = strings(vec!["-c", "in.c", "-o", "out.o"]);
    let cwd = f.clone();
    let mut stdout = Vec::new();
    let mut stderr = Vec::new();
    let r = do_compile(&mut server, &exe, &cmdline, &cwd, None, &mut stdout, &mut stderr);
    assert_eq!(r, Err(ClientError::Launch));
}

/// A terminated daemon cannot be reached: every client operation reports a
/// connection error.
#[test]
fn test_connection_error_after_shutdown() {
    let f = test_fixture_dir();
    let (mut server, _port) = run_server_thread(&f, None);
    request_shutdown(&mut server).unwrap();
    assert_eq!(connect_to_server(&server), Err(ClientError::Connection));
    assert_eq!(request_shutdown(&mut server), Err(ClientError::Connection));
    assert!(request_stats(&mut server).is_err());
    let exe = "/bin/cc".to_owned();
    let cmdline = strings(vec!["-c", "in.c", "-o", "out.o"]);
    let cwd = f.clone();
    let mut stdout = Vec::new();
    let mut stderr = Vec::new();
    let r = do_compile(&mut server, &exe, &cmdline, &cwd, None, &mut stdout, &mut stderr);
    assert_eq!(r, Err(ClientError::Connection));
}

/// A clang probe banner is a supported compiler too.
#[test]
fn test_clang_detected_and_cached() {
    let f = test_fixture_dir();
    let (mut server, _port) = run_server_thread(&f, None);
    {
        let c = server.command_creator();
        c.next_command_spawns(Ok(MockChild::new(exit_status(0), b"clang".to_vec(), b"".to_vec())));
        c.next_command_spawns(Ok(MockChild::new(exit_status(0), b"pre".to_vec(), b"".to_vec())));
        c.next_command_calls(
            "out.o".to_owned(),
            b"clang object".to_vec(),
            Ok(MockChild::new(exit_status(0), b"".to_vec(), b"".to_vec())),
        );
    }
    let exe = "/bin/clang".to_owned();
    let cmdline = strings(vec!["-c", "in.c", "-o", "out.o"]);
    let cwd = f.clone();
    let mut stdout = Vec::new();
    let mut stderr = Vec::new();
    assert_eq!(
        0,
        do_compile(&mut server, &exe, &cmdline, &cwd, None, &mut stdout, &mut stderr).unwrap()
    );
    let key = derive_key(CompilerKind::Clang, &exe, &cmdline, &b"pre".to_vec());
    assert_eq!(
        b"clang object",
        server.cache.get(&key).unwrap().object.as_slice()
    );
}

/// A supported compiler invoked without a compilation (no `-c`/`-o` pair)
/// is passed through uncached, like an unsupported one.
#[test]
fn test_non_compilation_passthrough() {
    let f = test_fixture_dir();
    let (mut server, _port) = run_server_thread(&f, None);
    {
        let c = server.command_creator();
        c.next_command_spawns(Ok(MockChild::new(exit_status(0), b"gcc".to_vec(), b"".to_vec())));
        // The direct execution of the original invocation.
        c.next_command_spawns(Ok(MockChild::new(
            exit_status(0),
            b"gcc (GCC) 4.x".to_vec(),
            b"".to_vec(),
        )));
    }
    let exe = "/bin/cc".to_owned();
    let cmdline = strings(vec!["--version"]);
    let cwd = f.clone();
    let mut stdout = Vec::new();
    let mut stderr = Vec::new();
    assert_eq!(
        0,
        do_compile(&mut server, &exe, &cmdline, &cwd, None, &mut stdout, &mut stderr).unwrap()
    );
    assert_eq!(b"gcc (GCC) 4.x", stdout.as_slice());
    let stats = cache_stats_map(request_stats(&mut server).unwrap());
    assert_eq!(&CacheStat::Count(1), stats.get("Not cached").unwrap());
    assert_eq!(&CacheStat::Count(0), stats.get("Cache misses").unwrap());
}

/// An execution with nothing queued on the mock is a hard failure of the
/// request, never a silently passing compile.
#[test]
fn test_unqueued_spawn_fails_loudly() {
    let f = test_fixture_dir();
    let (mut server, _port) = run_server_thread(&f, None);
    let exe = "/bin/cc".to_owned();
    let cmdline = strings(vec!["-c", "in.c", "-o", "out.o"]);
    let cwd = f.clone();
    let mut stdout = Vec::new();
    let mut stderr = Vec::new();
    let r = do_compile(&mut server, &exe, &cmdline, &cwd, None, &mut stdout, &mut stderr);
    assert_eq!(r, Err(ClientError::UnexpectedSpawn));
    assert!(stdout.is_empty());
    assert!(stderr.is_empty());
}

/// The stats response carries all five named counters.
#[test]
fn test_stats_names() {
    let f = test_fixture_dir();
    let (mut server, _port) = run_server_thread(&f, None);
    let stats = request_stats(&mut server).unwrap();
    let names: Vec<&str> = stats.iter().map(|p| p.0.as_str()).collect();
    assert_eq!(
        vec!["Compile requests", "Cache hits", "Cache misses", "Compile errors", "Not cached"],
        names
    );
    for (_, v) in stats {
        assert_eq!(CacheStat::Count(0), v);
    }
}

/// A failed compilation (non-zero exit) is relayed verbatim and never
/// stored: an identical later request compiles again.
#[test]
fn test_failed_compile_not_cached() {
    let f = test_fixture_dir();
    let (mut server, _port) = run_server_thread(&f, None);
    {
        let c = server.command_creator();
        c.next_command_spawns(Ok(MockChild::new(exit_status(0), b"gcc".to_vec(), b"".to_vec())));
        c.next_command_spawns(Ok(MockChild::new(exit_status(0), b"pre".to_vec(), b"".to_vec())));
        c.next_command_spawns(Ok(MockChild::new(
            exit_status(2),
            b"".to_vec(),
            b"syntax error".to_vec(),
        )));
    }
    let exe = "/bin/cc".to_owned();
    let cmdline = strings(vec!["-c", "in.c", "-o", "out.o"]);
    let cwd = f.clone();
    let mut stdout = Vec::new();
    let mut stderr = Vec::new();
    assert_eq!(
        2,
        do_compile(&mut server, &exe, &cmdline, &cwd, None, &mut stdout, &mut stderr).unwrap()
    );
    assert_eq!(b"syntax error", stderr.as_slice());
    // Nothing was stored for that key.
    let key = derive_key(CompilerKind::Gcc, &exe, &cmdline, &b"pre".to_vec());
    assert!(server.cache.get(&key).is_none());
    let stats = cache_stats_map(request_stats(&mut server).unwrap());
    assert_eq!(&CacheStat::Count(1), stats.get("Compile errors").unwrap());
}
