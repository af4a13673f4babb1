use hvm_bench::stats::lookup;
use hvm_bench::stats::programs_for;
use hvm_bench::stats::Mode;
use hvm_bench::stats::Outcome;
use hvm_bench::stats::Program;
use hvm_bench::stats::Stats;

fn sample() -> Program {
    Program {
        compiled_c: Outcome::Timing("cc".to_string()),
        compiled_cuda: Outcome::Timing("ccu".to_string()),
        interpreted_c: Outcome::Timing("ic".to_string()),
        interpreted_cuda: Outcome::Timing("icu".to_string()),
        interpreted_rust: Outcome::Timing("ir".to_string()),
    }
}

fn token(o: &Outcome) -> &str {
    match o {
        Outcome::Timing(t) => t.as_str(),
        _ => panic!("expected a timing"),
    }
}

#[test]
fn compiled_selects_by_runtime_name() {
    let p = sample();
    assert_eq!(token(p.compiled("c")), "cc");
    assert_eq!(token(p.compiled("cuda")), "ccu");
}

#[test]
fn interpreted_selects_by_runtime_name() {
    let p = sample();
    assert_eq!(token(p.interpreted("c")), "ic");
    assert_eq!(token(p.interpreted("cuda")), "icu");
    assert_eq!(token(p.interpreted("rust")), "ir");
}

#[test]
fn outcome_selects_by_mode() {
    let p = sample();
    assert_eq!(token(p.outcome(Mode::InterpretedC)), "ic");
    assert_eq!(token(p.outcome(Mode::InterpretedCuda)), "icu");
    assert_eq!(token(p.outcome(Mode::InterpretedRust)), "ir");
    assert_eq!(token(p.outcome(Mode::CompiledC)), "cc");
    assert_eq!(token(p.outcome(Mode::CompiledCuda)), "ccu");
}

#[test]
fn outcome_text_renders_cells() {
    assert_eq!(Outcome::Timing("0.1s".to_string()).text(), "0.1s");
    assert_eq!(Outcome::Timeout.text(), "timeout");
    assert_eq!(Outcome::Failure("anything at all".to_string()).text(), "error");
}

#[test]
fn lookup_finds_the_recorded_cell() {
    let stats = vec![
        ("r1".to_string(), Stats { programs: vec![("fib".to_string(), sample())] }),
        ("(local)".to_string(), Stats { programs: vec![("sort".to_string(), sample())] }),
    ];
    match lookup(&stats, "r1", "fib", Mode::CompiledCuda) {
        Some(Outcome::Timing(t)) => assert_eq!(t, "ccu"),
        _ => panic!("expected the recorded timing"),
    }
    assert!(lookup(&stats, "r1", "sort", Mode::CompiledC).is_none());
    assert!(lookup(&stats, "r3", "fib", Mode::CompiledC).is_none());
    match lookup(&stats, "(local)", "sort", Mode::InterpretedRust) {
        Some(Outcome::Timing(t)) => assert_eq!(t, "ir"),
        _ => panic!("expected the recorded timing"),
    }
}

#[test]
fn programs_for_lists_names_in_recorded_order() {
    let stats = vec![(
        "r1".to_string(),
        Stats {
            programs: vec![("fib".to_string(), sample()), ("sort".to_string(), sample())],
        },
    )];
    let names = programs_for(&stats, "r1").expect("revision is recorded");
    assert_eq!(names, vec!["fib".to_string(), "sort".to_string()]);
    assert!(programs_for(&stats, "r2").is_none());
}

#[test]
fn duplicate_preserves_every_field() {
    let p = sample();
    let q = p.duplicate();
    assert_eq!(token(&q.compiled_c), "cc");
    assert_eq!(token(&q.compiled_cuda), "ccu");
    assert_eq!(token(&q.interpreted_c), "ic");
    assert_eq!(token(&q.interpreted_cuda), "icu");
    assert_eq!(token(&q.interpreted_rust), "ir");
}
