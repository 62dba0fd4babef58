//! Compiler-support detection, argument parsing, and cache-key derivation.
//!
//! A compiler is probed once per executable path; its probe output decides
//! whether its argument conventions are understood well enough to cache
//! safely. For a supported compiler the cache key captures every input that
//! affects the produced object — the compiler's identity, the full argument
//! list in order, and the preprocessed source — and nothing else, so that
//! identical effective inputs always meet the same key and different ones
//! never collide.

use vstd::prelude::*;

use crate::bytes::{bytes_eq, clone_bytes, clone_strings, strings_eq};
use crate::protocol::{Command, ProcessOutput};

verus! {

/// A supported, cacheable compiler family: the tag decides which argument
/// and preprocessing conventions apply.
#[derive(Clone, Copy, PartialEq, Eq, Structural, Debug)]
pub enum CompilerKind {
    Gcc,
    Clang,
}

/// What probing an executable established: a supported kind, or an
/// executable whose invocations are passed through uncached.
#[derive(Clone, Copy, PartialEq, Eq, Structural, Debug)]
pub enum CompilerInfo {
    Supported(CompilerKind),
    Unsupported,
}

/// The probe banner a gcc-family compiler prints: the bytes of "gcc".
pub open spec fn gcc_banner() -> Seq<u8> {
    seq![103u8, 99u8, 99u8]
}

/// The probe banner a clang-family compiler prints: the bytes of "clang".
pub open spec fn clang_banner() -> Seq<u8> {
    seq![99u8, 108u8, 97u8, 110u8, 103u8]
}

/// What a probe outcome means: a known banner on a successful probe names
/// the kind; anything else is unsupported.
pub open spec fn spec_detect(status_ok: bool, stdout: Seq<u8>) -> CompilerInfo {
    if status_ok && stdout == gcc_banner() {
        CompilerInfo::Supported(CompilerKind::Gcc)
    } else if status_ok && stdout == clang_banner() {
        CompilerInfo::Supported(CompilerKind::Clang)
    } else {
        CompilerInfo::Unsupported
    }
}

/// The invocation used to probe an executable's identity.
pub fn probe_command(exe: &String, cwd: &String) -> (c: Command)
    ensures
        c.program@ == exe@,
        c.args@.len() == 1,
        c.args@[0]@ == "--version"@,
        c.cwd@ == cwd@,
{
    let mut args: Vec<String> = Vec::new();
    args.push("--version".to_owned());
    Command { program: exe.clone(), args, cwd: cwd.clone() }
}

/// Classifies a finished probe: exit 0 with a recognised banner on stdout
/// names a supported kind, anything else is unsupported.
pub fn detect_compiler(probe: &ProcessOutput) -> (r: CompilerInfo)
    ensures
        r == spec_detect(probe.status.is_success(), probe.stdout@),
{
    if !probe.status.success() {
        return CompilerInfo::Unsupported;
    }
    let s = &probe.stdout;
    if s.len() == 3 && s[0] == 103u8 && s[1] == 99u8 && s[2] == 99u8 {
        proof {
            assert(s@ =~= gcc_banner());
        }
        CompilerInfo::Supported(CompilerKind::Gcc)
    } else if s.len() == 5 && s[0] == 99u8 && s[1] == 108u8 && s[2] == 97u8 && s[3] == 110u8 && s[4]
        == 103u8 {
        proof {
            assert(s@ =~= clang_banner());
        }
        CompilerInfo::Supported(CompilerKind::Clang)
    } else {
        proof {
            if s@ == gcc_banner() {
                assert(s@.len() == 3 && s@[0] == 103u8 && s@[1] == 99u8 && s@[2] == 99u8);
            }
            if s@ == clang_banner() {
                assert(s@.len() == 5 && s@[0] == 99u8 && s@[1] == 108u8 && s@[2] == 97u8 && s@[3]
                    == 110u8 && s@[4] == 103u8);
            }
        }
        CompilerInfo::Unsupported
    }
}

/// The string views of an argument list.
pub open spec fn arg_views(args: Seq<String>) -> Seq<Seq<char>> {
    args.map_values(|s: String| s@)
}

/// `f` occurs at index `i` and nowhere earlier.
pub open spec fn flag_pos(v: Seq<Seq<char>>, f: Seq<char>, i: int) -> bool {
    &&& 0 <= i < v.len()
    &&& v[i] == f
    &&& forall|j: int| 0 <= j < i ==> v[j] != f
}

/// `f` occurs somewhere with an argument following it.
pub open spec fn has_flag_with_value(v: Seq<Seq<char>>, f: Seq<char>) -> bool {
    exists|i: int| flag_pos(v, f, i) && i + 1 < v.len()
}

/// Index of the first occurrence of `f` (meaningful when one exists).
pub open spec fn first_flag_idx(v: Seq<Seq<char>>, f: Seq<char>) -> int {
    choose|i: int| flag_pos(v, f, i)
}

/// A flag has exactly one first occurrence.
pub proof fn lemma_flag_pos_unique(v: Seq<Seq<char>>, f: Seq<char>, a: int, b: int)
    requires
        flag_pos(v, f, a),
        flag_pos(v, f, b),
    ensures
        a == b,
{
    if a < b {
        assert(v[a] == f);
    }
    if b < a {
        assert(v[b] == f);
    }
}

/// An argument list names a compilation when both `-c` and `-o` carry a
/// value.
pub open spec fn parses_to_compile(v: Seq<Seq<char>>) -> bool {
    has_flag_with_value(v, "-c"@) && has_flag_with_value(v, "-o"@)
}

/// The input file of a compilation argument list.
pub open spec fn input_of(v: Seq<Seq<char>>) -> Seq<char> {
    v[first_flag_idx(v, "-c"@) + 1]
}

/// The output file of a compilation argument list.
pub open spec fn output_of(v: Seq<Seq<char>>) -> Seq<char> {
    v[first_flag_idx(v, "-o"@) + 1]
}

/// What an argument list asks for, as far as caching needs to know: a single
/// compile with one input and one output, or something this design does not
/// cache.
pub enum ParsedArguments {
    Compile { input: String, output: String },
    NotCompilation,
}

/// Index of the first occurrence of `flag`, provided an argument follows it.
fn find_flag_value(args: &Vec<String>, flag: &String) -> (r: Option<usize>)
    ensures
        match r {
            Some(i) => flag_pos(arg_views(args@), flag@, i as int) && i + 1 < args@.len(),
            None => !has_flag_with_value(arg_views(args@), flag@),
        },
{
    let ghost v = arg_views(args@);
    let mut i: usize = 0;
    let n = args.len();
    while i < n
        invariant
            i <= n,
            n == args.len(),
            v == arg_views(args@),
            forall|j: int| 0 <= j < i ==> v[j] != flag@,
        decreases n - i,
    {
        if args[i] == *flag {
            proof {
                assert(v[i as int] == flag@);
            }
            if i + 1 < n {
                return Some(i);
            } else {
                proof {
                    assert forall|k: int| flag_pos(v, flag@, k) implies !(k + 1 < v.len()) by {
                        assert(k == i as int);
                    }
                }
                return None;
            }
        }
        proof {
            assert(v[i as int] != flag@);
        }
        i = i + 1;
    }
    proof {
        assert forall|k: int| flag_pos(v, flag@, k) implies false by {
            assert(v[k] != flag@);
        }
    }
    None
}

/// Reads a compile invocation off an argument list: the input file is the
/// argument after the first `-c`, the output file the argument after the
/// first `-o`. Anything without both is not a compilation and is never
/// cached.
pub fn parse_arguments(args: &Vec<String>) -> (r: ParsedArguments)
    ensures
        match r {
            ParsedArguments::Compile { input, output } => {
                &&& parses_to_compile(arg_views(args@))
                &&& input@ == input_of(arg_views(args@))
                &&& output@ == output_of(arg_views(args@))
            },
            ParsedArguments::NotCompilation => !parses_to_compile(arg_views(args@)),
        },
{
    let ghost v = arg_views(args@);
    let flag_c: String = "-c".to_owned();
    let flag_o: String = "-o".to_owned();
    let ci = find_flag_value(args, &flag_c);
    let oi = find_flag_value(args, &flag_o);
    match (ci, oi) {
        (Some(i), Some(j)) => {
            let n = args.len();
            proof {
                assert(i + 1 < n);
                assert(j + 1 < n);
                assert(flag_pos(v, "-c"@, first_flag_idx(v, "-c"@)));
                lemma_flag_pos_unique(v, "-c"@, first_flag_idx(v, "-c"@), i as int);
                assert(flag_pos(v, "-o"@, first_flag_idx(v, "-o"@)));
                lemma_flag_pos_unique(v, "-o"@, first_flag_idx(v, "-o"@), j as int);
            }
            ParsedArguments::Compile { input: args[i + 1].clone(), output: args[j + 1].clone() }
        },
        _ => ParsedArguments::NotCompilation,
    }
}

/// The fingerprint a compile request is cached under. It captures exactly
/// the inputs that determine the compiler's output: the detected kind, the
/// compiler's path, the argument list in order, and the preprocessed source.
/// Two requests with identical effective inputs meet the same key, and two
/// whose inputs differ never collide, because the key holds those inputs in
/// full.
pub struct CacheKey {
    pub kind: CompilerKind,
    pub compiler: String,
    pub args: Vec<String>,
    pub preprocessed: Vec<u8>,
}

/// Whether `k` is the key of the request with the given effective inputs.
/// Any two keys for which this holds of the same inputs match each other.
pub open spec fn key_is(
    k: CacheKey,
    kind: CompilerKind,
    exe: Seq<char>,
    args: Seq<Seq<char>>,
    pre: Seq<u8>,
) -> bool {
    &&& k.kind == kind
    &&& k.compiler@ == exe
    &&& arg_views(k.args@) == args
    &&& k.preprocessed@ == pre
}

/// Key equality: every output-affecting input agrees.
pub open spec fn key_matches(a: CacheKey, b: CacheKey) -> bool {
    &&& a.kind == b.kind
    &&& a.compiler@ == b.compiler@
    &&& arg_views(a.args@) == arg_views(b.args@)
    &&& a.preprocessed@ == b.preprocessed@
}

/// Decides `key_matches` on two keys.
pub fn key_eq(a: &CacheKey, b: &CacheKey) -> (r: bool)
    ensures
        r == key_matches(*a, *b),
{
    let kind_eq = match (a.kind, b.kind) {
        (CompilerKind::Gcc, CompilerKind::Gcc) => true,
        (CompilerKind::Clang, CompilerKind::Clang) => true,
        _ => false,
    };
    kind_eq && a.compiler == b.compiler && strings_eq(&a.args, &b.args) && bytes_eq(
        &a.preprocessed,
        &b.preprocessed,
    )
}

/// Derives the cache key of a compile request from its effective inputs.
pub fn derive_key(
    kind: CompilerKind,
    compiler: &String,
    args: &Vec<String>,
    preprocessed: &Vec<u8>,
) -> (r: CacheKey)
    ensures
        r.kind == kind,
        r.compiler@ == compiler@,
        arg_views(r.args@) == arg_views(args@),
        r.preprocessed@ == preprocessed@,
{
    let r = CacheKey {
        kind,
        compiler: compiler.clone(),
        args: clone_strings(args),
        preprocessed: clone_bytes(preprocessed),
    };
    proof {
        assert(arg_views(r.args@) =~= arg_views(args@));
    }
    r
}

/// The invocation that runs only the compiler's preprocessor on the input
/// file, producing the text that fully determines the compiled output.
pub fn preprocess_command(exe: &String, input: &String, cwd: &String) -> (c: Command)
    ensures
        c.program@ == exe@,
        c.args@.len() == 2,
        c.args@[0]@ == "-E"@,
        c.args@[1]@ == input@,
        c.cwd@ == cwd@,
{
    let mut args: Vec<String> = Vec::new();
    args.push("-E".to_owned());
    args.push(input.clone());
    Command { program: exe.clone(), args, cwd: cwd.clone() }
}

/// The real compile invocation: the original arguments, verbatim.
pub fn compile_command(exe: &String, args: &Vec<String>, cwd: &String) -> (c: Command)
    ensures
        c.program@ == exe@,
        arg_views(c.args@) == arg_views(args@),
        c.cwd@ == cwd@,
{
    let c = Command { program: exe.clone(), args: clone_strings(args), cwd: cwd.clone() };
    proof {
        assert(arg_views(c.args@) =~= arg_views(args@));
    }
    c
}

} // verus!
