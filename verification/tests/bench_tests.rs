use hvm_bench::bench::Action;
use hvm_bench::bench::Bench;
use hvm_bench::bench::Event;
use hvm_bench::bench::Phase;
use hvm_bench::bench::Stage;
use hvm_bench::stats::Outcome;

fn new_bench(revs: &[&str], programs: &[&str]) -> Bench {
    Bench::new(
        "hvm".to_string(),
        revs.iter().map(|s| s.to_string()).collect(),
        programs.iter().map(|s| s.to_string()).collect(),
        60,
        300,
    )
}

fn ok_run(tok: &str) -> Event {
    Event::ProcessFinished { timed_out: false, code: 0, stdout: format!("- TIME: {}\n", tok) }
}

fn gen_ok(source: &str) -> Event {
    Event::ProcessFinished { timed_out: false, code: 0, stdout: source.to_string() }
}

fn build_all_ok(b: &mut Bench) {
    b.step(Event::CloneFinished { ok: true });
    while matches!(b.phase, Phase::Building { .. }) {
        b.step(Event::BuildFinished { ok: true });
    }
}

fn run_compiled_ok(b: &mut Bench, tok: &str) {
    b.step(gen_ok("generated source"));
    b.step(Event::CompileFinished { ok: true });
    b.step(ok_run(tok));
}

fn run_program_all_ok(b: &mut Bench, t: [&str; 5]) {
    b.step(ok_run(t[0]));
    b.step(ok_run(t[1]));
    b.step(ok_run(t[2]));
    run_compiled_ok(b, t[3]);
    run_compiled_ok(b, t[4]);
}

fn token(o: &Outcome) -> &str {
    match o {
        Outcome::Timing(t) => t.as_str(),
        _ => panic!("expected a timing"),
    }
}

#[test]
fn local_fib_full_run_and_report() {
    let mut b = new_bench(&[], &["programs/fib.hvm"]);
    assert!(matches!(b.next_action(), Action::CloneRepo));
    b.step(Event::CloneFinished { ok: true });

    match b.next_action() {
        Action::BuildLocal { dir, dest } => {
            assert_eq!(dir, "hvm");
            assert_eq!(dest, "bin/local_hvm");
        },
        _ => panic!("expected the local build"),
    }
    b.step(Event::BuildFinished { ok: true });

    match b.next_action() {
        Action::Run { invocation } => {
            assert_eq!(invocation.exe, "bin/local_hvm");
            assert_eq!(
                invocation.args,
                vec!["run-c".to_string(), "programs/fib.hvm".to_string()]
            );
            assert_eq!(invocation.timeout_secs, 60);
        },
        _ => panic!("expected a benchmark run"),
    }
    run_program_all_ok(&mut b, ["0.01s", "0.02s", "0.03s", "0.04s", "0.05s"]);

    assert_eq!(b.phase, Phase::Done);
    assert!(b.finished());
    assert!(matches!(b.next_action(), Action::Report));
    assert_eq!(b.stats.len(), 1);
    assert_eq!(b.stats[0].0, "(local)");
    assert_eq!(b.stats[0].1.programs.len(), 1);
    assert_eq!(b.stats[0].1.programs[0].0, "fib");
    let row = &b.stats[0].1.programs[0].1;
    assert_eq!(token(&row.interpreted_c), "0.01s");

    let report = hvm_bench::format::format(&b.stats);
    let expected_row = format!("{:<14}  {:<14}  {:>14}", "fib", "c", "0.01s");
    assert!(report.contains(&expected_row));
}

#[test]
fn hanging_run_records_timeout_and_run_continues() {
    let mut b = new_bench(&[], &["programs/fib.hvm"]);
    build_all_ok(&mut b);
    b.step(Event::ProcessFinished { timed_out: true, code: 0, stdout: String::new() });
    assert!(matches!(b.phase, Phase::Running { .. }));
    b.step(ok_run("0.02s"));
    b.step(ok_run("0.03s"));
    run_compiled_ok(&mut b, "0.04s");
    run_compiled_ok(&mut b, "0.05s");
    assert_eq!(b.phase, Phase::Done);
    let row = &b.stats[0].1.programs[0].1;
    assert!(matches!(row.interpreted_c, Outcome::Timeout));
    assert_eq!(token(&row.interpreted_cuda), "0.02s");
    let report = hvm_bench::format::format(&b.stats);
    let expected_row = format!("{:<14}  {:<14}  {:>14}", "fib", "c", "timeout");
    assert!(report.contains(&expected_row));
}

#[test]
fn compiler_failure_renders_error_and_siblings_survive() {
    let mut b = new_bench(&[], &["programs/fib.hvm"]);
    build_all_ok(&mut b);
    b.step(ok_run("0.01s"));
    b.step(ok_run("0.02s"));
    b.step(ok_run("0.03s"));
    b.step(gen_ok("generated source"));
    b.step(Event::CompileFinished { ok: false });
    run_compiled_ok(&mut b, "0.05s");
    assert_eq!(b.phase, Phase::Done);
    let row = &b.stats[0].1.programs[0].1;
    match &row.compiled_c {
        Outcome::Failure(r) => assert_eq!(r, "compile error"),
        _ => panic!("expected a failure"),
    }
    assert_eq!(token(&row.compiled_cuda), "0.05s");
    let report = hvm_bench::format::format(&b.stats);
    let error_row = format!("{:<14}  {:<14}  {:>14}", "fib", "c", "error");
    let cuda_row = format!("{:<14}  {:<14}  {:>14}", "", "cuda", "0.05s");
    assert!(report.contains(&error_row));
    assert!(report.contains(&cuda_row));
}

#[test]
fn cell_failure_does_not_block_other_cells_or_revisions() {
    let mut b = new_bench(&["r1"], &["programs/fib.hvm"]);
    build_all_ok(&mut b);
    // Revision r1: the generation step of compiled-C exits non-zero.
    b.step(ok_run("1s"));
    b.step(ok_run("2s"));
    b.step(ok_run("3s"));
    b.step(Event::ProcessFinished { timed_out: false, code: 2, stdout: String::new() });
    run_compiled_ok(&mut b, "5s");
    // The local revision is still benchmarked in full.
    run_program_all_ok(&mut b, ["6s", "7s", "8s", "9s", "10s"]);
    assert_eq!(b.phase, Phase::Done);
    assert_eq!(b.stats.len(), 2);
    assert_eq!(b.stats[0].0, "r1");
    assert_eq!(b.stats[1].0, "(local)");
    let r1_row = &b.stats[0].1.programs[0].1;
    match &r1_row.compiled_c {
        Outcome::Failure(r) => assert_eq!(r, "non-zero exit status 2"),
        _ => panic!("expected a failure"),
    }
    assert_eq!(token(&r1_row.compiled_cuda), "5s");
    let local_row = &b.stats[1].1.programs[0].1;
    assert_eq!(token(&local_row.compiled_c), "9s");
}

#[test]
fn fatal_build_failure_aborts_with_no_cells() {
    let mut b = new_bench(&["r1"], &["programs/fib.hvm"]);
    b.step(Event::CloneFinished { ok: true });
    b.step(Event::BuildFinished { ok: true });
    match b.next_action() {
        Action::BuildRemote { rev, dest } => {
            assert_eq!(rev, "r1");
            assert_eq!(dest, "bin/r1/hvm");
        },
        _ => panic!("expected the remote build"),
    }
    b.step(Event::BuildFinished { ok: false });
    assert_eq!(b.phase, Phase::Aborted);
    assert!(b.finished());
    assert!(b.stats.is_empty());
    assert!(matches!(b.next_action(), Action::Abort));
}

#[test]
fn clone_failure_aborts_with_no_cells() {
    let mut b = new_bench(&["r1"], &["programs/fib.hvm"]);
    b.step(Event::CloneFinished { ok: false });
    assert_eq!(b.phase, Phase::Aborted);
    assert!(b.stats.is_empty());
}

#[test]
fn compiled_cell_walks_generate_compile_run() {
    let mut b = new_bench(&[], &["programs/fib.hvm"]);
    build_all_ok(&mut b);
    b.step(ok_run("1s"));
    b.step(ok_run("2s"));
    b.step(ok_run("3s"));
    match b.next_action() {
        Action::Run { invocation } => {
            assert_eq!(invocation.exe, "bin/local_hvm");
            assert_eq!(
                invocation.args,
                vec!["gen-c".to_string(), "programs/fib.hvm".to_string()]
            );
            assert_eq!(invocation.timeout_secs, 300);
        },
        _ => panic!("expected the generation run"),
    }
    b.step(gen_ok("int main() { return 0; }"));
    assert!(matches!(b.phase, Phase::Running { stage: Stage::Compile, .. }));
    match b.next_action() {
        Action::CompileScratch { source, suffix, compiler, flags } => {
            assert_eq!(source, "int main() { return 0; }");
            assert_eq!(suffix, ".c");
            assert_eq!(compiler, "gcc");
            assert_eq!(flags, vec!["-lm".to_string(), "-O2".to_string()]);
        },
        _ => panic!("expected the native compile"),
    }
    b.step(Event::CompileFinished { ok: true });
    match b.next_action() {
        Action::RunScratch { timeout_secs } => assert_eq!(timeout_secs, 60),
        _ => panic!("expected the scratch run"),
    }
    b.step(ok_run("4s"));
    match b.next_action() {
        Action::Run { invocation } => {
            assert_eq!(invocation.args[0], "gen-cu");
        },
        _ => panic!("expected the CUDA generation run"),
    }
}

#[test]
fn generation_timeout_is_a_failure_not_a_timeout() {
    let mut b = new_bench(&[], &["programs/fib.hvm"]);
    build_all_ok(&mut b);
    b.step(ok_run("1s"));
    b.step(ok_run("2s"));
    b.step(ok_run("3s"));
    b.step(Event::ProcessFinished { timed_out: true, code: 0, stdout: String::new() });
    run_compiled_ok(&mut b, "5s");
    assert_eq!(b.phase, Phase::Done);
    let row = &b.stats[0].1.programs[0].1;
    match &row.compiled_c {
        Outcome::Failure(r) => assert_eq!(r, "generation timed out"),
        _ => panic!("expected a failure"),
    }
    let report = hvm_bench::format::format(&b.stats);
    let error_row = format!("{:<14}  {:<14}  {:>14}", "fib", "c", "error");
    assert!(report.contains(&error_row));
}

#[test]
fn builds_local_first_then_remotes_and_benches_remotes_first() {
    let mut b = new_bench(&["r1", "r2"], &["programs/fib.hvm"]);
    b.step(Event::CloneFinished { ok: true });
    assert!(matches!(b.next_action(), Action::BuildLocal { .. }));
    b.step(Event::BuildFinished { ok: true });
    match b.next_action() {
        Action::BuildRemote { rev, .. } => assert_eq!(rev, "r1"),
        _ => panic!("expected the first remote build"),
    }
    b.step(Event::BuildFinished { ok: true });
    match b.next_action() {
        Action::BuildRemote { rev, dest } => {
            assert_eq!(rev, "r2");
            assert_eq!(dest, "bin/r2/hvm");
        },
        _ => panic!("expected the second remote build"),
    }
    b.step(Event::BuildFinished { ok: true });
    match b.next_action() {
        Action::Run { invocation } => assert_eq!(invocation.exe, "bin/r1/hvm"),
        _ => panic!("expected the first benchmark run"),
    }
    for _ in 0..3 {
        run_program_all_ok(&mut b, ["1s", "2s", "3s", "4s", "5s"]);
    }
    assert_eq!(b.phase, Phase::Done);
    let labels: Vec<&str> = b.stats.iter().map(|e| e.0.as_str()).collect();
    assert_eq!(labels, vec!["r1", "r2", "(local)"]);
    // The report's columns reverse that order.
    let report = hvm_bench::format::format(&b.stats);
    let line = format!(
        "{:<14}  {:<14}  {:<14}  {:<14}  {:<14}",
        "file", "runtime", "(local)", "r2", "r1"
    );
    assert!(report.contains(&line));
}

#[test]
fn every_cell_of_the_cross_product_is_populated_once() {
    let mut b = new_bench(&["r1", "r2"], &["programs/fib.hvm", "programs/sort.hvm"]);
    build_all_ok(&mut b);
    let mut cell: u32 = 0;
    while !b.finished() {
        cell += 1;
        run_program_all_ok(
            &mut b,
            ["1s", "2s", "3s", "4s", "5s"],
        );
    }
    // Three revisions, two programs each.
    assert_eq!(cell, 6);
    assert_eq!(b.stats.len(), 3);
    for (_, stats) in &b.stats {
        assert_eq!(stats.programs.len(), 2);
        assert_eq!(stats.programs[0].0, "fib");
        assert_eq!(stats.programs[1].0, "sort");
    }
    let labels: Vec<&str> = b.stats.iter().map(|e| e.0.as_str()).collect();
    assert_eq!(labels, vec!["r1", "r2", "(local)"]);
}

#[test]
fn empty_corpus_completes_with_empty_store() {
    let mut b = new_bench(&["r1"], &[]);
    build_all_ok(&mut b);
    assert_eq!(b.phase, Phase::Done);
    assert!(b.stats.is_empty());
    assert!(matches!(b.next_action(), Action::Report));
}
