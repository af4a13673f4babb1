//! Data model for benchmark results: execution modes, per-cell outcomes,
//! per-program rows and per-revision statistics.

use vstd::prelude::*;

use crate::util::str_eq;

verus! {

/// Ghost model of a single result-matrix cell.
pub ghost enum Cell {
    /// The opaque timing token reported by the runtime.
    Timing(Seq<char>),
    /// The run did not finish within its deadline.
    Timeout,
    /// The run failed; the payload is the recorded reason.
    Failure(Seq<char>),
}

/// The outcome of one (revision, program, mode) cell.
pub enum Outcome {
    /// The opaque timing token reported by the runtime.
    Timing(String),
    /// The run did not finish within its deadline.
    Timeout,
    /// The run failed; the payload is the recorded reason.
    Failure(String),
}

impl View for Outcome {
    type V = Cell;

    open spec fn view(&self) -> Cell {
        match self {
            Outcome::Timing(t) => Cell::Timing(t@),
            Outcome::Timeout => Cell::Timeout,
            Outcome::Failure(r) => Cell::Failure(r@),
        }
    }
}

/// How a cell renders in the report: the timing token itself, the literal
/// `timeout`, or the literal `error` for any recorded failure.
pub open spec fn cell_text(c: Cell) -> Seq<char> {
    match c {
        Cell::Timing(t) => t,
        Cell::Timeout => "timeout"@,
        Cell::Failure(_) => "error"@,
    }
}

impl Outcome {
    /// The text this outcome contributes to its report cell.
    pub fn text(&self) -> (r: String)
        ensures
            r@ == cell_text(self@),
    {
        match self {
            Outcome::Timing(t) => t.clone(),
            Outcome::Timeout => String::from_str("timeout"),
            Outcome::Failure(_) => String::from_str("error"),
        }
    }

    /// An equal copy of this outcome.
    pub fn duplicate(&self) -> (r: Outcome)
        ensures
            r == *self,
    {
        match self {
            Outcome::Timing(t) => Outcome::Timing(t.clone()),
            Outcome::Timeout => Outcome::Timeout,
            Outcome::Failure(m) => Outcome::Failure(m.clone()),
        }
    }
}

/// One execution mode of the runtime under test: three interpreted backends
/// and two generate-then-natively-compile backends.
#[derive(Clone, Copy, PartialEq, Eq, Structural)]
pub enum Mode {
    InterpretedC,
    InterpretedCuda,
    InterpretedRust,
    CompiledC,
    CompiledCuda,
}

/// Runtime statistics for a single benchmark program, across all interpreted
/// and compiled runtimes.
pub struct Program {
    pub compiled_c: Outcome,
    pub compiled_cuda: Outcome,
    pub interpreted_c: Outcome,
    pub interpreted_cuda: Outcome,
    pub interpreted_rust: Outcome,
}

/// The outcome a program row holds for a given execution mode.
pub open spec fn mode_outcome(p: Program, m: Mode) -> Outcome {
    match m {
        Mode::InterpretedC => p.interpreted_c,
        Mode::InterpretedCuda => p.interpreted_cuda,
        Mode::InterpretedRust => p.interpreted_rust,
        Mode::CompiledC => p.compiled_c,
        Mode::CompiledCuda => p.compiled_cuda,
    }
}

impl Program {
    /// The outcome recorded for the given execution mode.
    pub fn outcome(&self, m: Mode) -> (r: &Outcome)
        ensures
            *r == mode_outcome(*self, m),
    {
        match m {
            Mode::InterpretedC => &self.interpreted_c,
            Mode::InterpretedCuda => &self.interpreted_cuda,
            Mode::InterpretedRust => &self.interpreted_rust,
            Mode::CompiledC => &self.compiled_c,
            Mode::CompiledCuda => &self.compiled_cuda,
        }
    }

    /// The compiled-mode outcome for a runtime named `c` or `cuda`.
    pub fn compiled(&self, runtime: &str) -> (r: &Outcome)
        requires
            runtime@ == "c"@ || runtime@ == "cuda"@,
        ensures
            runtime@ == "c"@ ==> *r == self.compiled_c,
            runtime@ == "cuda"@ ==> *r == self.compiled_cuda,
    {
        proof {
            reveal_strlit("c");
            reveal_strlit("cuda");
            assert("c"@.len() == 1);
            assert("cuda"@.len() == 4);
        }
        if str_eq(runtime, "c") {
            &self.compiled_c
        } else {
            &self.compiled_cuda
        }
    }

    /// The interpreted-mode outcome for a runtime named `c`, `cuda` or `rust`.
    pub fn interpreted(&self, runtime: &str) -> (r: &Outcome)
        requires
            runtime@ == "c"@ || runtime@ == "cuda"@ || runtime@ == "rust"@,
        ensures
            runtime@ == "c"@ ==> *r == self.interpreted_c,
            runtime@ == "cuda"@ ==> *r == self.interpreted_cuda,
            runtime@ == "rust"@ ==> *r == self.interpreted_rust,
    {
        proof {
            reveal_strlit("c");
            reveal_strlit("cuda");
            reveal_strlit("rust");
            assert("c"@.len() == 1);
            assert("cuda"@.len() == 4);
            assert("rust"@.len() == 4);
            assert("cuda"@[0] == 'c');
            assert("rust"@[0] == 'r');
        }
        if str_eq(runtime, "c") {
            &self.interpreted_c
        } else if str_eq(runtime, "cuda") {
            &self.interpreted_cuda
        } else {
            &self.interpreted_rust
        }
    }

    /// An equal copy of this row.
    pub fn duplicate(&self) -> (r: Program)
        ensures
            r == *self,
    {
        Program {
            compiled_c: self.compiled_c.duplicate(),
            compiled_cuda: self.compiled_cuda.duplicate(),
            interpreted_c: self.interpreted_c.duplicate(),
            interpreted_cuda: self.interpreted_cuda.duplicate(),
            interpreted_rust: self.interpreted_rust.duplicate(),
        }
    }
}

/// The benchmarking results for a single revision: one row per program,
/// keyed by program name, in the order the programs were benchmarked.
pub struct Stats {
    pub programs: Vec<(String, Program)>,
}

impl Default for Stats {
    fn default() -> (r: Stats)
        ensures
            r.programs@.len() == 0,
    {
        Stats { programs: Vec::new() }
    }
}

/// The row of the first entry keyed `p` at or after index `j`, if any.
pub open spec fn lookup_from(progs: Seq<(String, Program)>, p: Seq<char>, j: int) -> Option<
    Program,
>
    decreases progs.len() - j,
{
    if j < 0 || j >= progs.len() {
        None
    } else if progs[j].0@ == p {
        Some(progs[j].1)
    } else {
        lookup_from(progs, p, j + 1)
    }
}

/// The statistics of the first store entry labelled `rev` at or after
/// index `i`, if any.
pub open spec fn rev_lookup_from(stats: Seq<(String, Stats)>, rev: Seq<char>, i: int) -> Option<
    Stats,
>
    decreases stats.len() - i,
{
    if i < 0 || i >= stats.len() {
        None
    } else if stats[i].0@ == rev {
        Some(stats[i].1)
    } else {
        rev_lookup_from(stats, rev, i + 1)
    }
}

/// The outcome the store holds for one (revision, program, mode) cell.
pub open spec fn store_lookup(
    stats: Seq<(String, Stats)>,
    rev: Seq<char>,
    prog: Seq<char>,
    m: Mode,
) -> Option<Outcome> {
    match rev_lookup_from(stats, rev, 0) {
        Some(s) => match lookup_from(s.programs@, prog, 0) {
            Some(p) => Some(mode_outcome(p, m)),
            None => None,
        },
        None => None,
    }
}

/// Look one cell up: the outcome recorded for (revision, program, mode),
/// if that cell exists in the store.
pub fn lookup<'a>(
    stats: &'a Vec<(String, Stats)>,
    revision: &str,
    program: &str,
    m: Mode,
) -> (r: Option<&'a Outcome>)
    ensures
        match r {
            Some(o) => store_lookup(stats@, revision@, program@, m) == Some(*o),
            None => store_lookup(stats@, revision@, program@, m) is None,
        },
{
    let n = stats.len();
    let mut i: usize = 0;
    while i < n
        invariant
            n == stats@.len(),
            0 <= i <= n,
            rev_lookup_from(stats@, revision@, 0) == rev_lookup_from(stats@, revision@, i as int),
        decreases n - i,
    {
        let e = &stats[i];
        if str_eq(e.0.as_str(), revision) {
            let progs = &e.1.programs;
            let np = progs.len();
            let mut j: usize = 0;
            while j < np
                invariant
                    n == stats@.len(),
                    0 <= i < n,
                    stats@[i as int].0@ == revision@,
                    progs@ == stats@[i as int].1.programs@,
                    rev_lookup_from(stats@, revision@, 0) == rev_lookup_from(
                        stats@,
                        revision@,
                        i as int,
                    ),
                    np == progs@.len(),
                    0 <= j <= np,
                    lookup_from(progs@, program@, 0) == lookup_from(progs@, program@, j as int),
                decreases np - j,
            {
                let pe = &progs[j];
                if str_eq(pe.0.as_str(), program) {
                    proof {
                        assert(rev_lookup_from(stats@, revision@, i as int) == Some(
                            stats@[i as int].1,
                        ));
                        assert(lookup_from(progs@, program@, j as int) == Some(
                            progs@[j as int].1,
                        ));
                    }
                    return Some(pe.1.outcome(m));
                }
                j += 1;
            }
            return None;
        }
        i += 1;
    }
    None
}

/// The program names recorded for a revision, in recorded order, or
/// nothing when the store holds no entry for it.
pub fn programs_for(stats: &Vec<(String, Stats)>, revision: &str) -> (r: Option<Vec<String>>)
    ensures
        match r {
            Some(names) => rev_lookup_from(stats@, revision@, 0) matches Some(s)
                && crate::util::views_of(names@) == s.programs@.map_values(
                |e: (String, Program)| e.0@,
            ),
            None => rev_lookup_from(stats@, revision@, 0) is None,
        },
{
    let n = stats.len();
    let mut i: usize = 0;
    while i < n
        invariant
            n == stats@.len(),
            0 <= i <= n,
            rev_lookup_from(stats@, revision@, 0) == rev_lookup_from(stats@, revision@, i as int),
        decreases n - i,
    {
        let e = &stats[i];
        if str_eq(e.0.as_str(), revision) {
            let progs = &e.1.programs;
            let np = progs.len();
            let mut names: Vec<String> = Vec::new();
            let mut j: usize = 0;
            while j < np
                invariant
                    n == stats@.len(),
                    0 <= i < n,
                    stats@[i as int].0@ == revision@,
                    progs@ == stats@[i as int].1.programs@,
                    rev_lookup_from(stats@, revision@, 0) == rev_lookup_from(
                        stats@,
                        revision@,
                        i as int,
                    ),
                    np == progs@.len(),
                    0 <= j <= np,
                    names@.len() == j,
                    forall|k: int| 0 <= k < j ==> names@[k]@ == progs@[k].0@,
                decreases np - j,
            {
                names.push(progs[j].0.clone());
                j += 1;
            }
            proof {
                assert(crate::util::views_of(names@) =~= progs@.map_values(
                    |pe: (String, Program)| pe.0@,
                ));
            }
            return Some(names);
        }
        i += 1;
    }
    None
}

} // verus!
