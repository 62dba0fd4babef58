use sccache::cache::DiskCache;
use sccache::fs::InMemoryFs;
use sccache::mock_command::ExecError;
use sccache::pipeline::{start_job, CompilerMemo, JobAction};
use sccache::protocol::{
    exit_status, CompileFailure, CompileRequest, ProcessOutput, Response,
};

fn strings(v: Vec<&str>) -> Vec<String> {
    v.into_iter().map(|s| s.to_owned()).collect()
}

fn request() -> CompileRequest {
    CompileRequest {
        exe: "/bin/cc".to_owned(),
        args: strings(vec!["-c", "file.c", "-o", "file.o"]),
        cwd: "/work".to_owned(),
        path: None,
    }
}

/// Drives one job with scripted process outcomes, using an in-memory file
/// store as the disk, and returns the response with how many processes ran.
fn drive(
    cache: &mut DiskCache,
    memo: &mut CompilerMemo,
    fs: &mut InMemoryFs,
    mut outcomes: Vec<Result<ProcessOutput, ExecError>>,
    write_on_compile: Option<(String, Vec<u8>)>,
) -> (Response, usize) {
    let mut ran = 0;
    let mut action = start_job(request(), memo);
    loop {
        action = match action {
            JobAction::RunProcess(job, _cmd) => {
                assert!(!outcomes.is_empty(), "unexpected process execution");
                let outcome = outcomes.remove(0);
                ran += 1;
                // The last scripted run may produce the object file first,
                // the way a real compiler would.
                if outcomes.is_empty() {
                    if let Some((file, bytes)) = &write_on_compile {
                        fs.write(file, bytes.clone());
                    }
                }
                job.process_done(cache, memo, outcome)
            }
            JobAction::WriteFile(job, file, bytes) => {
                fs.write(&file, bytes);
                job.file_written()
            }
            JobAction::ReadFile(job, file) => job.file_read(cache, fs.read(&file)),
            JobAction::Respond(resp) => return (resp, ran),
        };
    }
}

fn ok(stdout: &[u8], stderr: &[u8]) -> Result<ProcessOutput, ExecError> {
    Ok(ProcessOutput::new(exit_status(0), stdout.to_vec(), stderr.to_vec()))
}

/// A first compile probes, preprocesses, compiles and stores; a repeat with
/// identical inputs is served from the store with no probe and no compile
/// step, relaying the stored output.
#[test]
fn test_job_miss_then_hit() {
    let root = "/tmp/cache".to_owned();
    let mut cache = DiskCache::new(&root, usize::MAX);
    let mut memo = CompilerMemo::new();
    let mut fs = InMemoryFs::new();
    let (resp, ran) = drive(
        &mut cache,
        &mut memo,
        &mut fs,
        vec![ok(b"gcc", b""), ok(b"pre", b""), ok(b"built it", b"")],
        Some(("file.o".to_owned(), b"object bytes".to_vec())),
    );
    assert_eq!(3, ran);
    match resp {
        Response::CompileFinished(f) => {
            assert_eq!(exit_status(0), f.status);
            assert_eq!(b"built it", f.stdout.as_slice());
        }
        _ => panic!("expected a finished compile"),
    }
    // The repeat: the probe is memoized and the artifact stored, so only
    // the preprocessor runs.
    let mut fs2 = InMemoryFs::new();
    let (resp2, ran2) = drive(&mut cache, &mut memo, &mut fs2, vec![ok(b"pre", b"")], None);
    assert_eq!(1, ran2);
    match resp2 {
        Response::CompileFinished(f) => {
            assert_eq!(exit_status(0), f.status);
            assert_eq!(b"built it", f.stdout.as_slice());
        }
        _ => panic!("expected the cached compile"),
    }
    // The cached object was written to the requested output path.
    assert_eq!(b"object bytes", fs2.read(&"file.o".to_owned()).unwrap().as_slice());
}

/// An unsupported compiler is probed once, then every request is one direct
/// execution, relayed verbatim.
#[test]
fn test_job_unsupported_passthrough() {
    let root = "/tmp/cache".to_owned();
    let mut cache = DiskCache::new(&root, usize::MAX);
    let mut memo = CompilerMemo::new();
    let mut fs = InMemoryFs::new();
    let (resp, ran) = drive(
        &mut cache,
        &mut memo,
        &mut fs,
        vec![ok(b"hello", b"error"), ok(b"some stdout", b"some stderr")],
        None,
    );
    assert_eq!(2, ran);
    match resp {
        Response::CompileFinished(f) => {
            assert_eq!(b"some stdout", f.stdout.as_slice());
            assert_eq!(b"some stderr", f.stderr.as_slice());
        }
        _ => panic!("expected a relayed execution"),
    }
    // Probed once: the repeat goes straight to the direct execution.
    let (_, ran2) = drive(&mut cache, &mut memo, &mut fs, vec![ok(b"", b"")], None);
    assert_eq!(1, ran2);
}

/// A compiler that claims success without producing its output file is a
/// pipeline error, and a launch failure keeps its own kind.
#[test]
fn test_job_failures() {
    let root = "/tmp/cache".to_owned();
    let mut cache = DiskCache::new(&root, usize::MAX);
    let mut memo = CompilerMemo::new();
    let mut fs = InMemoryFs::new();
    let (resp, _) = drive(
        &mut cache,
        &mut memo,
        &mut fs,
        vec![ok(b"gcc", b""), ok(b"pre", b""), ok(b"", b"")],
        None,
    );
    assert!(matches!(resp, Response::CompileFailed(CompileFailure::MissingOutput)));
    let (resp2, _) = drive(
        &mut cache,
        &mut memo,
        &mut fs,
        vec![ok(b"pre", b""), Err(ExecError::LaunchFailed)],
        None,
    );
    assert!(matches!(resp2, Response::CompileFailed(CompileFailure::LaunchFailed)));
}
