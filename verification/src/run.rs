//! Per-cell run logic: the invocation each execution mode makes, the
//! native-toolchain data of the compiled modes, and the classification of a
//! finished process into a cell outcome.

use vstd::prelude::*;

use crate::decimal::dec_i32;
use crate::decimal::dec_int;
use crate::extract::extract_spec;
use crate::extract::parse_stdout;
use crate::stats::Cell;
use crate::stats::Mode;
use crate::stats::Outcome;
use crate::util::views_of;

verus! {

/// The recorded reason for a process that exited with a non-zero status.
pub open spec fn exit_reason(code: int) -> Seq<char> {
    "non-zero exit status "@ + dec_int(code)
}

/// The recorded reason when the generation step of a compiled mode misses
/// its deadline. Generation is not the quantity being measured, so this is a
/// failure, not a timeout.
pub open spec fn gen_timeout_reason() -> Seq<char> {
    "generation timed out"@
}

/// The recorded reason when no line of captured output carries the timing
/// marker.
pub open spec fn no_marker_reason() -> Seq<char> {
    "marker not found"@
}

/// The recorded reason when the native compiler fails.
pub open spec fn compile_error_reason() -> Seq<char> {
    "compile error"@
}

/// The cell outcome of one benchmarked process: a timeout, a non-zero exit,
/// or whatever timing extraction makes of its captured output.
pub open spec fn run_cell(timed_out: bool, code: int, stdout: Seq<char>) -> Cell {
    if timed_out {
        Cell::Timeout
    } else if code != 0 {
        Cell::Failure(exit_reason(code))
    } else {
        match extract_spec(stdout) {
            Some(t) => Cell::Timing(t),
            None => Cell::Failure(no_marker_reason()),
        }
    }
}

/// What the generation step of a compiled mode decides: a settled failure
/// cell, or leave to go on to compilation.
pub open spec fn gen_cell(timed_out: bool, code: int) -> Option<Cell> {
    if timed_out {
        Some(Cell::Failure(gen_timeout_reason()))
    } else if code != 0 {
        Some(Cell::Failure(exit_reason(code)))
    } else {
        None
    }
}

/// Classify a finished benchmark process into its cell outcome.
pub fn run_outcome(timed_out: bool, code: i32, stdout: &str) -> (r: Outcome)
    ensures
        r@ == run_cell(timed_out, code as int, stdout@),
{
    if timed_out {
        Outcome::Timeout
    } else if code != 0 {
        let mut reason = String::from_str("non-zero exit status ");
        reason.append(dec_i32(code).as_str());
        Outcome::Failure(reason)
    } else {
        match parse_stdout(stdout) {
            Some(t) => Outcome::Timing(t),
            None => Outcome::Failure(String::from_str("marker not found")),
        }
    }
}

/// The argument handed to the runtime binary for each mode: the run
/// sub-command of an interpreted mode, or the generation sub-command of a
/// compiled mode.
pub open spec fn mode_arg(m: Mode) -> Seq<char> {
    match m {
        Mode::InterpretedC => "run-c"@,
        Mode::InterpretedCuda => "run-cu"@,
        Mode::InterpretedRust => "run"@,
        Mode::CompiledC => "gen-c"@,
        Mode::CompiledCuda => "gen-cu"@,
    }
}

/// The scratch-file suffix a compiled mode requires; empty for interpreted
/// modes, which compile nothing.
pub open spec fn mode_suffix(m: Mode) -> Seq<char> {
    match m {
        Mode::CompiledC => ".c"@,
        Mode::CompiledCuda => ".cu"@,
        _ => ""@,
    }
}

/// The native compiler a compiled mode invokes; empty for interpreted modes.
pub open spec fn mode_compiler(m: Mode) -> Seq<char> {
    match m {
        Mode::CompiledC => "gcc"@,
        Mode::CompiledCuda => "nvcc"@,
        _ => ""@,
    }
}

/// The fixed flags handed to a compiled mode's native compiler.
pub open spec fn mode_flags(m: Mode) -> Seq<Seq<char>> {
    match m {
        Mode::CompiledC => seq!["-lm"@, "-O2"@],
        Mode::CompiledCuda => seq!["-w"@, "-O3"@],
        _ => seq![],
    }
}

/// The argument handed to the runtime binary for each mode.
pub fn mode_arg_str(m: Mode) -> (r: &'static str)
    ensures
        r@ == mode_arg(m),
{
    match m {
        Mode::InterpretedC => "run-c",
        Mode::InterpretedCuda => "run-cu",
        Mode::InterpretedRust => "run",
        Mode::CompiledC => "gen-c",
        Mode::CompiledCuda => "gen-cu",
    }
}

/// The scratch-file suffix a compiled mode requires.
pub fn mode_suffix_str(m: Mode) -> (r: &'static str)
    ensures
        r@ == mode_suffix(m),
{
    match m {
        Mode::CompiledC => ".c",
        Mode::CompiledCuda => ".cu",
        _ => "",
    }
}

/// The native compiler a compiled mode invokes.
pub fn mode_compiler_str(m: Mode) -> (r: &'static str)
    ensures
        r@ == mode_compiler(m),
{
    match m {
        Mode::CompiledC => "gcc",
        Mode::CompiledCuda => "nvcc",
        _ => "",
    }
}

/// The fixed flags handed to a compiled mode's native compiler.
pub fn mode_flags_vec(m: Mode) -> (r: Vec<String>)
    ensures
        views_of(r@) == mode_flags(m),
{
    let mut flags: Vec<String> = Vec::new();
    match m {
        Mode::CompiledC => {
            flags.push(String::from_str("-lm"));
            flags.push(String::from_str("-O2"));
        },
        Mode::CompiledCuda => {
            flags.push(String::from_str("-w"));
            flags.push(String::from_str("-O3"));
        },
        _ => {},
    }
    proof {
        assert(views_of(flags@) =~= mode_flags(m));
    }
    flags
}

/// One subprocess to spawn: an executable, its arguments, and the wall-clock
/// deadline to enforce on it.
pub struct Invocation {
    pub exe: String,
    pub args: Vec<String>,
    pub timeout_secs: u64,
}

fn invocation(exe: &str, arg: &str, path: &str, timeout_secs: u64) -> (inv: Invocation)
    ensures
        inv.exe@ == exe@,
        views_of(inv.args@) == seq![arg@, path@],
        inv.timeout_secs == timeout_secs,
{
    let mut args: Vec<String> = Vec::new();
    args.push(String::from_str(arg));
    args.push(String::from_str(path));
    proof {
        assert(views_of(args@) =~= seq![arg@, path@]);
    }
    Invocation { exe: String::from_str(exe), args, timeout_secs }
}

/// The invocation that benchmarks `program` under the C interpreter of the
/// runtime at `hvm_bin`.
pub fn interpreted_c(hvm_bin: &str, program: &str, timeout_secs: u64) -> (inv: Invocation)
    ensures
        inv.exe@ == hvm_bin@,
        views_of(inv.args@) == seq![mode_arg(Mode::InterpretedC), program@],
        inv.timeout_secs == timeout_secs,
{
    invocation(hvm_bin, mode_arg_str(Mode::InterpretedC), program, timeout_secs)
}

/// The invocation that benchmarks `program` under the CUDA interpreter of
/// the runtime at `hvm_bin`.
pub fn interpreted_cuda(hvm_bin: &str, program: &str, timeout_secs: u64) -> (inv: Invocation)
    ensures
        inv.exe@ == hvm_bin@,
        views_of(inv.args@) == seq![mode_arg(Mode::InterpretedCuda), program@],
        inv.timeout_secs == timeout_secs,
{
    invocation(hvm_bin, mode_arg_str(Mode::InterpretedCuda), program, timeout_secs)
}

/// The invocation that benchmarks `program` under the Rust interpreter of
/// the runtime at `hvm_bin`.
pub fn interpreted_rust(hvm_bin: &str, program: &str, timeout_secs: u64) -> (inv: Invocation)
    ensures
        inv.exe@ == hvm_bin@,
        views_of(inv.args@) == seq![mode_arg(Mode::InterpretedRust), program@],
        inv.timeout_secs == timeout_secs,
{
    invocation(hvm_bin, mode_arg_str(Mode::InterpretedRust), program, timeout_secs)
}

/// The two-stage plan of a compiled mode: generate source text from the
/// runtime binary, then hand it to the mode's native compiler and run the
/// produced binary under the benchmark deadline.
pub struct CompiledPlan {
    pub generate: Invocation,
    pub suffix: String,
    pub compiler: String,
    pub flags: Vec<String>,
    pub run_timeout_secs: u64,
}

/// What the plan of a compiled mode must hold.
pub open spec fn plan_matches(
    p: CompiledPlan,
    m: Mode,
    hvm_bin: Seq<char>,
    program: Seq<char>,
    gen_timeout_secs: u64,
    run_timeout_secs: u64,
) -> bool {
    &&& p.generate.exe@ == hvm_bin
    &&& views_of(p.generate.args@) == seq![mode_arg(m), program]
    &&& p.generate.timeout_secs == gen_timeout_secs
    &&& p.suffix@ == mode_suffix(m)
    &&& p.compiler@ == mode_compiler(m)
    &&& views_of(p.flags@) == mode_flags(m)
    &&& p.run_timeout_secs == run_timeout_secs
}

fn compiled_plan(
    m: Mode,
    hvm_bin: &str,
    program: &str,
    gen_timeout_secs: u64,
    run_timeout_secs: u64,
) -> (p: CompiledPlan)
    requires
        m == Mode::CompiledC || m == Mode::CompiledCuda,
    ensures
        plan_matches(p, m, hvm_bin@, program@, gen_timeout_secs, run_timeout_secs),
{
    let generate = invocation(hvm_bin, mode_arg_str(m), program, gen_timeout_secs);
    let mut flags: Vec<String> = Vec::new();
    let suffix: &str;
    let compiler: &str;
    match m {
        Mode::CompiledC => {
            suffix = ".c";
            compiler = "gcc";
            flags.push(String::from_str("-lm"));
            flags.push(String::from_str("-O2"));
        },
        _ => {
            suffix = ".cu";
            compiler = "nvcc";
            flags.push(String::from_str("-w"));
            flags.push(String::from_str("-O3"));
        },
    }
    proof {
        assert(views_of(flags@) =~= mode_flags(m));
    }
    CompiledPlan {
        generate,
        suffix: String::from_str(suffix),
        compiler: String::from_str(compiler),
        flags,
        run_timeout_secs,
    }
}

/// The plan that benchmarks `program` under the generated-C backend of the
/// runtime at `hvm_bin`.
pub fn compiled_c(
    hvm_bin: &str,
    program: &str,
    gen_timeout_secs: u64,
    run_timeout_secs: u64,
) -> (p: CompiledPlan)
    ensures
        plan_matches(p, Mode::CompiledC, hvm_bin@, program@, gen_timeout_secs, run_timeout_secs),
{
    compiled_plan(Mode::CompiledC, hvm_bin, program, gen_timeout_secs, run_timeout_secs)
}

/// The plan that benchmarks `program` under the generated-CUDA backend of
/// the runtime at `hvm_bin`.
pub fn compiled_cuda(
    hvm_bin: &str,
    program: &str,
    gen_timeout_secs: u64,
    run_timeout_secs: u64,
) -> (p: CompiledPlan)
    ensures
        plan_matches(p, Mode::CompiledCuda, hvm_bin@, program@, gen_timeout_secs, run_timeout_secs),
{
    compiled_plan(Mode::CompiledCuda, hvm_bin, program, gen_timeout_secs, run_timeout_secs)
}

} // verus!
