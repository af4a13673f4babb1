use hvm_bench::format::by_program_revision;
use hvm_bench::format::format_compiled_rows;
use hvm_bench::format::format_header;
use hvm_bench::format::format_interpreted_rows;
use hvm_bench::stats::Outcome;
use hvm_bench::stats::Program;
use hvm_bench::stats::Stats;

fn timing(t: &str) -> Outcome {
    Outcome::Timing(t.to_string())
}

fn row(ic: Outcome, icu: Outcome, ir: Outcome, cc: Outcome, ccu: Outcome) -> Program {
    Program {
        compiled_c: cc,
        compiled_cuda: ccu,
        interpreted_c: ic,
        interpreted_cuda: icu,
        interpreted_rust: ir,
    }
}

fn one_program_store() -> Vec<(String, Stats)> {
    let p = row(
        timing("0.01s"),
        timing("0.02s"),
        timing("0.03s"),
        timing("0.04s"),
        timing("0.05s"),
    );
    vec![(
        "(local)".to_string(),
        Stats { programs: vec![("fib".to_string(), p)] },
    )]
}

#[test]
fn header_lists_file_runtime_then_revisions() {
    let revs = vec!["r2".to_string(), "r1".to_string()];
    let h = format_header(&revs);
    let line = format!("{:<14}  {:<14}  {:<14}  {:<14}", "file", "runtime", "r2", "r1");
    let expected = format!("{}\n{}", line, "=".repeat(line.len()));
    assert_eq!(h, expected);
}

#[test]
fn compiled_rows_render_tokens_right_aligned() {
    let stats = one_program_store();
    let rows = format_compiled_rows(&stats);
    let r1 = format!("{:<14}  {:<14}  {:>14}", "fib", "c", "0.04s");
    let r2 = format!("{:<14}  {:<14}  {:>14}", "", "cuda", "0.05s");
    let expected = format!("{}\n{}\n{}\n", r1, r2, "-".repeat(r2.len()));
    assert_eq!(rows, expected);
}

#[test]
fn interpreted_rows_render_tokens_right_aligned() {
    let stats = one_program_store();
    let rows = format_interpreted_rows(&stats);
    let r1 = format!("{:<14}  {:<14}  {:>14}", "fib", "c", "0.01s");
    let r2 = format!("{:<14}  {:<14}  {:>14}", "", "cuda", "0.02s");
    let r3 = format!("{:<14}  {:<14}  {:>14}", "", "rust", "0.03s");
    let expected = format!("{}\n{}\n{}\n{}\n", r1, r2, r3, "-".repeat(r3.len()));
    assert_eq!(rows, expected);
}

#[test]
fn full_report_for_one_revision_one_program() {
    let stats = one_program_store();
    let report = hvm_bench::format::format(&stats);

    let line = format!("{:<14}  {:<14}  {:<14}", "file", "runtime", "(local)");
    let header = format!("{}\n{}", line, "=".repeat(line.len()));
    let c1 = format!("{:<14}  {:<14}  {:>14}", "fib", "c", "0.04s");
    let c2 = format!("{:<14}  {:<14}  {:>14}", "", "cuda", "0.05s");
    let comp = format!("{}\n{}\n{}\n", c1, c2, "-".repeat(c2.len()));
    let i1 = format!("{:<14}  {:<14}  {:>14}", "fib", "c", "0.01s");
    let i2 = format!("{:<14}  {:<14}  {:>14}", "", "cuda", "0.02s");
    let i3 = format!("{:<14}  {:<14}  {:>14}", "", "rust", "0.03s");
    let interp = format!("{}\n{}\n{}\n{}\n", i1, i2, i3, "-".repeat(i3.len()));

    let expected = format!(
        "compiled\n========\n\n{}\n{}\ninterpreted\n===========\n\n{}\n{}\n",
        header, comp, header, interp
    );
    assert_eq!(report, expected);
}

#[test]
fn failure_renders_as_error_and_timeout_as_timeout() {
    let p = row(
        Outcome::Timeout,
        Outcome::Failure("non-zero exit status 1".to_string()),
        timing("1s"),
        timing("2s"),
        timing("3s"),
    );
    let stats = vec![(
        "(local)".to_string(),
        Stats { programs: vec![("fib".to_string(), p)] },
    )];
    let rows = format_interpreted_rows(&stats);
    let r1 = format!("{:<14}  {:<14}  {:>14}", "fib", "c", "timeout");
    let r2 = format!("{:<14}  {:<14}  {:>14}", "", "cuda", "error");
    let r3 = format!("{:<14}  {:<14}  {:>14}", "", "rust", "1s");
    let expected = format!("{}\n{}\n{}\n{}\n", r1, r2, r3, "-".repeat(r3.len()));
    assert_eq!(rows, expected);
}

#[test]
fn columns_follow_reversed_store_order() {
    let pa = |t: &str| {
        row(timing(t), timing(t), timing(t), timing(t), timing(t))
    };
    let stats = vec![
        ("r1".to_string(), Stats { programs: vec![("fib".to_string(), pa("1s"))] }),
        ("r2".to_string(), Stats { programs: vec![("fib".to_string(), pa("2s"))] }),
        ("(local)".to_string(), Stats { programs: vec![("fib".to_string(), pa("3s"))] }),
    ];
    let report = hvm_bench::format::format(&stats);
    let line = format!(
        "{:<14}  {:<14}  {:<14}  {:<14}  {:<14}",
        "file", "runtime", "(local)", "r2", "r1"
    );
    assert!(report.contains(&line));
    let data = format!(
        "{:<14}  {:<14}  {:>14}  {:>14}  {:>14}",
        "fib", "c", "3s", "2s", "1s"
    );
    assert!(report.contains(&data));
}

#[test]
fn grouping_collects_each_program_across_revisions() {
    let pa = |t: &str| {
        row(timing(t), timing(t), timing(t), timing(t), timing(t))
    };
    let stats = vec![
        (
            "r1".to_string(),
            Stats {
                programs: vec![("fib".to_string(), pa("1s")), ("sort".to_string(), pa("2s"))],
            },
        ),
        (
            "(local)".to_string(),
            Stats {
                programs: vec![("fib".to_string(), pa("3s")), ("sort".to_string(), pa("4s"))],
            },
        ),
    ];
    let groups = by_program_revision(&stats);
    assert_eq!(groups.len(), 2);
    assert_eq!(groups[0].0, "fib");
    assert_eq!(groups[1].0, "sort");
    let fib = &groups[0].1;
    assert_eq!(fib.len(), 2);
    assert_eq!(fib[0].0, "r1");
    assert_eq!(fib[1].0, "(local)");
    match &fib[0].1.interpreted_c {
        Outcome::Timing(t) => assert_eq!(t, "1s"),
        _ => panic!("expected a timing"),
    }
}

#[test]
fn empty_store_renders_headers_only() {
    let stats: Vec<(String, Stats)> = Vec::new();
    let report = hvm_bench::format::format(&stats);
    let line = format!("{:<14}  {:<14}", "file", "runtime");
    let header = format!("{}\n{}", line, "=".repeat(line.len()));
    let expected = format!(
        "compiled\n========\n\n{}\n\ninterpreted\n===========\n\n{}\n\n",
        header, header
    );
    assert_eq!(report, expected);
}
