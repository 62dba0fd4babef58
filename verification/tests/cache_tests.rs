use sccache::cache::{CacheEntry, DiskCache};
use sccache::compiler::{
    derive_key, detect_compiler, key_eq, parse_arguments, CompilerInfo, CompilerKind,
    ParsedArguments,
};
use sccache::fs::InMemoryFs;
use sccache::protocol::{exit_status, ExitStatus, ProcessOutput};

fn strings(v: Vec<&str>) -> Vec<String> {
    v.into_iter().map(|s| s.to_owned()).collect()
}

fn key_of(compiler: &str, args: Vec<&str>, preprocessed: &[u8]) -> sccache::compiler::CacheKey {
    derive_key(
        CompilerKind::Gcc,
        &compiler.to_owned(),
        &strings(args),
        &preprocessed.to_vec(),
    )
}

fn entry_of(object: &[u8], stdout: &[u8], stderr: &[u8]) -> CacheEntry {
    CacheEntry { object: object.to_vec(), stdout: stdout.to_vec(), stderr: stderr.to_vec() }
}

/// Storing an entry under a key and retrieving it yields byte-identical
/// object content, stdout and stderr.
#[test]
fn test_cache_round_trip() {
    let root = "/tmp/cache".to_owned();
    let mut cache = DiskCache::new(&root, usize::MAX);
    let k = key_of("/bin/cc", vec!["-c", "a.c", "-o", "a.o"], b"int main(){}");
    cache.put(k, entry_of(b"object bytes", b"warnings", b"notes"));
    let k2 = key_of("/bin/cc", vec!["-c", "a.c", "-o", "a.o"], b"int main(){}");
    let e = cache.get(&k2).expect("stored entry must be retrievable");
    assert_eq!(b"object bytes", e.object.as_slice());
    assert_eq!(b"warnings", e.stdout.as_slice());
    assert_eq!(b"notes", e.stderr.as_slice());
}

/// A write with an existing key overwrites: last writer wins.
#[test]
fn test_cache_overwrite() {
    let root = "/tmp/cache".to_owned();
    let mut cache = DiskCache::new(&root, usize::MAX);
    let k = key_of("/bin/cc", vec!["-c", "a.c"], b"text");
    cache.put(k, entry_of(b"first", b"", b""));
    let k = key_of("/bin/cc", vec!["-c", "a.c"], b"text");
    cache.put(k, entry_of(b"second", b"", b""));
    let k = key_of("/bin/cc", vec!["-c", "a.c"], b"text");
    let e = cache.get(&k).unwrap();
    assert_eq!(b"second", e.object.as_slice());
}

/// Under a finite maximum, inserting past the budget evicts the least
/// recently accessed entries first; a read refreshes recency.
#[test]
fn test_cache_lru_eviction() {
    let root = "/tmp/cache".to_owned();
    // Room for exactly two six-byte entries.
    let mut cache = DiskCache::new(&root, 12);
    let ka = key_of("/bin/cc", vec!["-c", "a.c"], b"a");
    let kb = key_of("/bin/cc", vec!["-c", "b.c"], b"b");
    let kc = key_of("/bin/cc", vec!["-c", "c.c"], b"c");
    cache.put(key_of("/bin/cc", vec!["-c", "a.c"], b"a"), entry_of(b"aaaaaa", b"", b""));
    cache.put(key_of("/bin/cc", vec!["-c", "b.c"], b"b"), entry_of(b"bbbbbb", b"", b""));
    // Touch `a`, making `b` the least recently used entry.
    assert!(cache.get(&ka).is_some());
    cache.put(key_of("/bin/cc", vec!["-c", "c.c"], b"c"), entry_of(b"cccccc", b"", b""));
    // `b` was evicted first; `a` and `c` survive.
    assert!(cache.get(&kb).is_none());
    assert!(cache.get(&ka).is_some());
    assert!(cache.get(&kc).is_some());
}

/// An entry larger than the whole budget is never stored, and the store is
/// left as it was.
#[test]
fn test_cache_oversized_entry_dropped() {
    let root = "/tmp/cache".to_owned();
    let mut cache = DiskCache::new(&root, 4);
    let ka = key_of("/bin/cc", vec!["-c", "a.c"], b"a");
    cache.put(key_of("/bin/cc", vec!["-c", "a.c"], b"a"), entry_of(b"tiny", b"", b""));
    assert!(cache.get(&ka).is_some());
    let kb = key_of("/bin/cc", vec!["-c", "b.c"], b"b");
    cache.put(key_of("/bin/cc", vec!["-c", "b.c"], b"b"), entry_of(b"way too large", b"", b""));
    assert!(cache.get(&kb).is_none());
    assert!(cache.get(&ka).is_some());
}

/// A missing key is a miss, not an error.
#[test]
fn test_cache_miss() {
    let root = "/tmp/cache".to_owned();
    let mut cache = DiskCache::new(&root, usize::MAX);
    let k = key_of("/bin/cc", vec!["-c", "a.c"], b"never stored");
    assert!(cache.get(&k).is_none());
}

/// Identical effective inputs produce matching keys; any differing input —
/// compiler, arguments, or preprocessed text — produces a different key.
#[test]
fn test_key_derivation() {
    let k1 = key_of("/bin/cc", vec!["-c", "a.c", "-o", "a.o"], b"text");
    let k2 = key_of("/bin/cc", vec!["-c", "a.c", "-o", "a.o"], b"text");
    assert!(key_eq(&k1, &k2));
    let other_pre = key_of("/bin/cc", vec!["-c", "a.c", "-o", "a.o"], b"text2");
    assert!(!key_eq(&k1, &other_pre));
    let other_args = key_of("/bin/cc", vec!["-c", "a.c", "-o", "b.o"], b"text");
    assert!(!key_eq(&k1, &other_args));
    let other_exe = key_of("/bin/gcc", vec!["-c", "a.c", "-o", "a.o"], b"text");
    assert!(!key_eq(&k1, &other_exe));
}

/// Probe classification: exit 0 with a known banner names the kind; any
/// other output, and any failing probe, is unsupported.
#[test]
fn test_detect_compiler() {
    let gcc = ProcessOutput::new(exit_status(0), b"gcc".to_vec(), b"".to_vec());
    assert_eq!(CompilerInfo::Supported(CompilerKind::Gcc), detect_compiler(&gcc));
    let clang = ProcessOutput::new(exit_status(0), b"clang".to_vec(), b"".to_vec());
    assert_eq!(CompilerInfo::Supported(CompilerKind::Clang), detect_compiler(&clang));
    let other = ProcessOutput::new(exit_status(0), b"hello".to_vec(), b"error".to_vec());
    assert_eq!(CompilerInfo::Unsupported, detect_compiler(&other));
    let failing = ProcessOutput::new(exit_status(1), b"gcc".to_vec(), b"".to_vec());
    assert_eq!(CompilerInfo::Unsupported, detect_compiler(&failing));
    let signalled = ProcessOutput::new(ExitStatus::Signal(9), b"gcc".to_vec(), b"".to_vec());
    assert_eq!(CompilerInfo::Unsupported, detect_compiler(&signalled));
}

/// Argument parsing: the input follows the first `-c`, the output the first
/// `-o`; anything without both is not a compilation.
#[test]
fn test_parse_arguments() {
    match parse_arguments(&strings(vec!["-c", "file.c", "-o", "file.o"])) {
        ParsedArguments::Compile { input, output } => {
            assert_eq!("file.c", input);
            assert_eq!("file.o", output);
        },
        ParsedArguments::NotCompilation => panic!("expected a compilation"),
    }
    assert!(matches!(
        parse_arguments(&strings(vec!["-c", "file.c"])),
        ParsedArguments::NotCompilation
    ));
    assert!(matches!(
        parse_arguments(&strings(vec!["--version"])),
        ParsedArguments::NotCompilation
    ));
    assert!(matches!(
        parse_arguments(&strings(vec!["-o", "file.o", "-c"])),
        ParsedArguments::NotCompilation
    ));
}

/// The in-memory file store: reads see the latest write, absent paths are
/// absent, writes to one path leave others alone.
#[test]
fn test_in_memory_fs() {
    let mut fs = InMemoryFs::new();
    let a = "dir/a.o".to_owned();
    let b = "dir/b.o".to_owned();
    assert!(fs.read(&a).is_none());
    fs.write(&a, b"alpha".to_vec());
    fs.write(&b, b"beta".to_vec());
    assert_eq!(b"alpha", fs.read(&a).unwrap().as_slice());
    fs.write(&a, b"alpha2".to_vec());
    assert_eq!(b"alpha2", fs.read(&a).unwrap().as_slice());
    assert_eq!(b"beta", fs.read(&b).unwrap().as_slice());
    assert!(fs.contains(&b));
    assert!(!fs.contains(&"dir/c.o".to_owned()));
}

/// Exit status: code 0 is the only success.
#[test]
fn test_exit_status() {
    assert!(exit_status(0).success());
    assert!(!exit_status(1).success());
    assert!(!ExitStatus::Signal(11).success());
}
