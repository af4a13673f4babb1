use hvm_bench::bench::file_stem_of;
use hvm_bench::decimal::dec_i32;
use hvm_bench::decimal::dec_u32;
use hvm_bench::run::compiled_c;
use hvm_bench::run::compiled_cuda;
use hvm_bench::run::interpreted_c;
use hvm_bench::run::interpreted_cuda;
use hvm_bench::run::interpreted_rust;
use hvm_bench::run::run_outcome;
use hvm_bench::stats::Outcome;

#[test]
fn run_outcome_timeout() {
    let o = run_outcome(true, 0, "- TIME: 1s\n");
    assert!(matches!(o, Outcome::Timeout));
}

#[test]
fn run_outcome_nonzero_exit() {
    let o = run_outcome(false, 3, "- TIME: 1s\n");
    match o {
        Outcome::Failure(r) => assert_eq!(r, "non-zero exit status 3"),
        _ => panic!("expected a failure"),
    }
}

#[test]
fn run_outcome_negative_exit_code() {
    let o = run_outcome(false, -9, "");
    match o {
        Outcome::Failure(r) => assert_eq!(r, "non-zero exit status -9"),
        _ => panic!("expected a failure"),
    }
}

#[test]
fn run_outcome_success_extracts_token() {
    let o = run_outcome(false, 0, "ITRS: 5\n- TIME: 0.42s\n");
    match o {
        Outcome::Timing(t) => assert_eq!(t, "0.42s"),
        _ => panic!("expected a timing"),
    }
}

#[test]
fn run_outcome_success_without_marker_fails() {
    let o = run_outcome(false, 0, "no timing\n");
    match o {
        Outcome::Failure(r) => assert_eq!(r, "marker not found"),
        _ => panic!("expected a failure"),
    }
}

#[test]
fn interpreted_invocations_carry_mode_and_program() {
    let inv = interpreted_c("bin/local_hvm", "programs/fib.hvm", 60);
    assert_eq!(inv.exe, "bin/local_hvm");
    assert_eq!(inv.args, vec!["run-c".to_string(), "programs/fib.hvm".to_string()]);
    assert_eq!(inv.timeout_secs, 60);

    let inv = interpreted_cuda("b", "p", 5);
    assert_eq!(inv.args[0], "run-cu");

    let inv = interpreted_rust("b", "p", 5);
    assert_eq!(inv.args[0], "run");
}

#[test]
fn compiled_c_plan_uses_gcc() {
    let p = compiled_c("bin/local_hvm", "programs/fib.hvm", 300, 60);
    assert_eq!(p.generate.exe, "bin/local_hvm");
    assert_eq!(p.generate.args, vec!["gen-c".to_string(), "programs/fib.hvm".to_string()]);
    assert_eq!(p.generate.timeout_secs, 300);
    assert_eq!(p.suffix, ".c");
    assert_eq!(p.compiler, "gcc");
    assert_eq!(p.flags, vec!["-lm".to_string(), "-O2".to_string()]);
    assert_eq!(p.run_timeout_secs, 60);
}

#[test]
fn compiled_cuda_plan_uses_nvcc() {
    let p = compiled_cuda("bin/local_hvm", "programs/fib.hvm", 300, 60);
    assert_eq!(p.generate.args[0], "gen-cu");
    assert_eq!(p.suffix, ".cu");
    assert_eq!(p.compiler, "nvcc");
    assert_eq!(p.flags, vec!["-w".to_string(), "-O3".to_string()]);
}

#[test]
fn decimal_renders_exactly() {
    assert_eq!(dec_u32(0), "0");
    assert_eq!(dec_u32(7), "7");
    assert_eq!(dec_u32(10), "10");
    assert_eq!(dec_u32(1234567890), "1234567890");
    assert_eq!(dec_i32(0), "0");
    assert_eq!(dec_i32(-1), "-1");
    assert_eq!(dec_i32(-32), "-32");
    assert_eq!(dec_i32(i32::MIN), "-2147483648");
    assert_eq!(dec_i32(i32::MAX), "2147483647");
}

#[test]
fn file_stem_drops_directory_and_extension() {
    assert_eq!(file_stem_of("programs/fib.hvm"), "fib");
    assert_eq!(file_stem_of("fib.hvm"), "fib");
    assert_eq!(file_stem_of("a/b/c.d.e"), "c.d");
    assert_eq!(file_stem_of(".hidden"), ".hidden");
    assert_eq!(file_stem_of("noext"), "noext");
    assert_eq!(file_stem_of("dir.x/noext"), "noext");
    assert_eq!(file_stem_of(""), "");
}
