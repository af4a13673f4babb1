//! The benchmark orchestrator: a state machine that builds every revision,
//! then populates one result-matrix cell per (revision, program, mode), with
//! per-cell failure isolation and fatal build failures. The surrounding
//! program performs one action at a time (a checkout, a build, a spawned
//! process) and hands the outcome back as an event.

use vstd::prelude::*;

use crate::run;
use crate::run::compile_error_reason;
use crate::run::gen_cell;
use crate::run::run_cell;
use crate::run::Invocation;
use crate::run::mode_arg;
use crate::run::mode_compiler;
use crate::run::mode_flags;
use crate::run::mode_suffix;
use crate::decimal::dec_i32;
use crate::stats::Cell;
use crate::stats::Mode;
use crate::stats::Outcome;
use crate::stats::Program;
use crate::stats::Stats;
use crate::util::views_of;

verus! {

/// Where a compiled-mode cell stands: waiting for its (first) process, for
/// the native compiler, or for the compiled binary's benchmark run.
#[derive(Clone, Copy, Debug, PartialEq, Eq, Structural)]
pub enum Stage {
    Invoke,
    Compile,
    Run,
}

/// Where the whole run stands.
#[derive(Clone, Copy, Debug, PartialEq, Eq, Structural)]
pub enum Phase {
    /// Waiting for the remote repository clone.
    Cloning,
    /// Waiting for build number `next`: the local working copy first, then
    /// each remote revision in declaration order.
    Building { next: usize },
    /// Benchmarking cell (`rev`, `prog`, `mode`); remote revisions first, in
    /// declaration order, then the local one.
    Running { rev: usize, prog: usize, mode: usize, stage: Stage },
    /// Every cell is recorded.
    Done,
    /// A fatal failure ended the run before any cell was recorded.
    Aborted,
}

/// What the orchestrator asks the surrounding program to do next.
pub enum Action {
    /// Clone the remote repository into the private workspace.
    CloneRepo,
    /// Build the local working copy at `dir` and move its release binary to
    /// `dest`, a path relative to the private workspace.
    BuildLocal { dir: String, dest: String },
    /// Check out `rev` in the cloned repository, build it, and move its
    /// release binary to `dest`, a path relative to the private workspace.
    BuildRemote { rev: String, dest: String },
    /// Spawn the invocation under its deadline; the executable path is
    /// relative to the private workspace.
    Run { invocation: Invocation },
    /// Write `source` to a scratch file with `suffix` and run `compiler`
    /// over it with `flags`, producing a scratch binary.
    CompileScratch { source: String, suffix: String, compiler: String, flags: Vec<String> },
    /// Run the scratch binary from the last compile under the deadline.
    RunScratch { timeout_secs: u64 },
    /// The run is complete: render the report.
    Report,
    /// The run is aborted: produce no report and exit non-zero.
    Abort,
}

/// What the surrounding program reports back.
pub enum Event {
    /// The clone finished; `ok` means it succeeded.
    CloneFinished { ok: bool },
    /// A checkout-and-build finished; `ok` means the binary is at its
    /// destination.
    BuildFinished { ok: bool },
    /// A spawned process finished: either its deadline elapsed and it was
    /// killed, or it exited with `code`, its standard output captured.
    ProcessFinished { timed_out: bool, code: i32, stdout: String },
    /// The native compiler finished; `ok` means it exited successfully.
    CompileFinished { ok: bool },
}

/// The index of the last `c` at or before position `i`, or `-1`.
pub open spec fn rfind_from(s: Seq<char>, c: char, i: int) -> int
    decreases i + 1,
{
    if i < 0 || i >= s.len() {
        -1
    } else if s[i] == c {
        i
    } else {
        rfind_from(s, c, i - 1)
    }
}

/// The part of a path after its last separator.
pub open spec fn base_name(p: Seq<char>) -> Seq<char> {
    p.subrange(rfind_from(p, '/', p.len() - 1) + 1, p.len() as int)
}

/// A program's name: its path without directory and without the extension
/// after the last dot, unless that dot leads the file name.
pub open spec fn file_stem(p: Seq<char>) -> Seq<char> {
    let b = base_name(p);
    let d = rfind_from(b, '.', b.len() - 1);
    if d <= 0 {
        b
    } else {
        b.subrange(0, d)
    }
}

/// A program's name, computed from its path.
pub fn file_stem_of(path: &str) -> (r: String)
    ensures
        r@ == file_stem(path@),
{
    let n = path.unicode_len();
    let mut start: usize = 0;
    let mut i: usize = 0;
    while i < n
        invariant
            n == path@.len(),
            0 <= i <= n,
            0 <= start <= i,
            start as int == rfind_from(path@, '/', i as int - 1) + 1,
        decreases n - i,
    {
        if path.get_char(i) == '/' {
            start = i + 1;
        }
        i += 1;
    }
    let ghost base = base_name(path@);
    proof {
        assert(base == path@.subrange(start as int, n as int));
    }
    let mut dot: usize = 0;
    let mut k: usize = start;
    while k < n
        invariant
            n == path@.len(),
            start <= k <= n,
            dot <= k - start,
            base == path@.subrange(start as int, n as int),
            base.len() == n - start,
            ({
                let rf = rfind_from(base, '.', k as int - start as int - 1);
                dot as int == if rf > 0 {
                    rf
                } else {
                    0
                }
            }),
        decreases n - k,
    {
        proof {
            assert(base[k as int - start as int] == path@[k as int]);
        }
        if path.get_char(k) == '.' {
            dot = k - start;
        }
        k += 1;
    }
    let end = if dot == 0 {
        n
    } else {
        start + dot
    };
    let r = String::from_str(path.substring_char(start, end));
    proof {
        let d = rfind_from(base, '.', base.len() - 1);
        if dot == 0 {
            assert(file_stem(path@) == base);
        } else {
            assert(base.subrange(0, d) =~= path@.subrange(start as int, (start + dot) as int));
        }
    }
    r
}

/// Where the local revision's binary is moved, relative to the workspace.
pub open spec fn local_bin_path() -> Seq<char> {
    "bin/local_hvm"@
}

/// Where a remote revision's binary is moved, relative to the workspace:
/// a directory keyed by the revision label.
pub open spec fn remote_bin_path(rev: Seq<char>) -> Seq<char> {
    "bin/"@ + rev + "/hvm"@
}

/// Where the local revision's binary is moved, relative to the workspace.
pub fn local_bin_dest() -> (r: String)
    ensures
        r@ == local_bin_path(),
{
    String::from_str("bin/local_hvm")
}

/// Where a remote revision's binary is moved, relative to the workspace.
pub fn remote_bin_dest(rev: &str) -> (r: String)
    ensures
        r@ == remote_bin_path(rev@),
{
    let mut r = String::from_str("bin/");
    r.append(rev);
    r.append("/hvm");
    proof {
        assert(r@ =~= remote_bin_path(rev@));
    }
    r
}

/// Binary destinations never collide: distinct revision labels give
/// distinct remote destinations, and no remote destination equals the
/// local one.
pub proof fn lemma_bin_dest_injective(r1: Seq<char>, r2: Seq<char>)
    ensures
        remote_bin_path(r1) == remote_bin_path(r2) ==> r1 == r2,
        remote_bin_path(r1) != local_bin_path(),
{
    reveal_strlit("bin/");
    reveal_strlit("/hvm");
    reveal_strlit("bin/local_hvm");
    assert("bin/"@.len() == 4);
    assert("/hvm"@.len() == 4);
    assert("bin/local_hvm"@.len() == 13);
    if remote_bin_path(r1) == remote_bin_path(r2) {
        assert(remote_bin_path(r1).len() == 8 + r1.len());
        assert(remote_bin_path(r2).len() == 8 + r2.len());
        assert(r1.len() == r2.len());
        assert forall|k: int| 0 <= k < r1.len() implies r1[k] == r2[k] by {
            assert(remote_bin_path(r1)[4 + k] == r1[k]);
            assert(remote_bin_path(r2)[4 + k] == r2[k]);
        }
        assert(r1 =~= r2);
    }
    if remote_bin_path(r1) == local_bin_path() {
        assert(remote_bin_path(r1).len() == 8 + r1.len());
        assert(r1.len() == 5);
        assert(remote_bin_path(r1)[9] == '/');
        assert(local_bin_path()[9] == '_');
        assert(false);
    }
}

/// The orchestrator's state: the run's configuration, the result store,
/// and where the run stands.
pub struct Bench {
    /// The local working copy's directory.
    pub local_dir: String,
    /// The remote revision labels, in declaration order.
    pub remote_revs: Vec<String>,
    /// The benchmark corpus: one path per program.
    pub programs: Vec<String>,
    /// The per-cell benchmark deadline, in seconds.
    pub timeout_secs: u64,
    /// The deadline of a compiled mode's generation step, in seconds.
    pub gen_timeout_secs: u64,
    /// The result store: one entry per benchmarked revision, in bench
    /// order (remote revisions in declaration order, then the local one).
    pub stats: Vec<(String, Stats)>,
    /// Where the run stands.
    pub phase: Phase,
    /// The completed program rows of the revision being benchmarked.
    pub pending_programs: Vec<(String, Program)>,
    /// The recorded outcomes of the cell row being benchmarked.
    pub pending_cell: Vec<Outcome>,
    /// The source text generated for the compiled cell in flight.
    pub pending_source: String,
}

/// How many revisions the run benchmarks: the remote ones plus the local
/// working copy.
pub open spec fn n_revs(b: Bench) -> int {
    b.remote_revs@.len() as int + 1
}

/// The label of revision `i` in bench order.
pub open spec fn rev_label(b: Bench, i: int) -> Seq<char> {
    if i < b.remote_revs@.len() {
        b.remote_revs@[i]@
    } else {
        "(local)"@
    }
}

/// Where revision `i`'s binary lives, relative to the workspace.
pub open spec fn bin_path(b: Bench, i: int) -> Seq<char> {
    if i < b.remote_revs@.len() {
        remote_bin_path(b.remote_revs@[i]@)
    } else {
        local_bin_path()
    }
}

/// The execution mode at cell index `i`, in bench order.
pub open spec fn mode_at(i: int) -> Mode {
    if i == 0 {
        Mode::InterpretedC
    } else if i == 1 {
        Mode::InterpretedCuda
    } else if i == 2 {
        Mode::InterpretedRust
    } else if i == 3 {
        Mode::CompiledC
    } else {
        Mode::CompiledCuda
    }
}

/// The remote revision labels are distinct and none is the local label.
pub open spec fn labels_distinct(b: Bench) -> bool {
    &&& forall|i: int, j: int|
        0 <= i < j < b.remote_revs@.len() ==> b.remote_revs@[i]@ != b.remote_revs@[j]@
    &&& forall|i: int| 0 <= i < b.remote_revs@.len() ==> #[trigger] b.remote_revs@[i]@ != "(local)"@
}

/// The corpus programs have distinct names.
pub open spec fn stems_distinct(b: Bench) -> bool {
    forall|i: int, j: int|
        0 <= i < j < b.programs@.len() ==> file_stem(b.programs@[i]@) != file_stem(b.programs@[j]@)
}

/// Store entry `i` is fully populated: the right label, one row per corpus
/// program, keyed by program name in corpus order.
pub open spec fn stats_entry_ok(b: Bench, i: int) -> bool {
    &&& b.stats@[i].0@ == rev_label(b, i)
    &&& b.stats@[i].1.programs@.len() == b.programs@.len()
    &&& forall|j: int|
        0 <= j < b.programs@.len() ==> #[trigger] b.stats@[i].1.programs@[j].0@ == file_stem(
            b.programs@[j]@,
        )
}

/// The orchestrator's invariant.
pub open spec fn wf(b: Bench) -> bool {
    &&& labels_distinct(b)
    &&& stems_distinct(b)
    &&& match b.phase {
        Phase::Cloning => b.stats@.len() == 0 && b.pending_programs@.len() == 0
            && b.pending_cell@.len() == 0,
        Phase::Building { next } => next < n_revs(b) && b.stats@.len() == 0
            && b.pending_programs@.len() == 0 && b.pending_cell@.len() == 0,
        Phase::Running { rev, prog, mode, stage } => {
            &&& rev < n_revs(b)
            &&& prog < b.programs@.len()
            &&& mode < 5
            &&& ((stage is Compile || stage is Run) ==> mode >= 3)
            &&& b.stats@.len() == rev
            &&& forall|i: int| 0 <= i < rev ==> stats_entry_ok(b, i)
            &&& b.pending_programs@.len() == prog
            &&& forall|j: int|
                0 <= j < prog ==> #[trigger] b.pending_programs@[j].0@ == file_stem(
                    b.programs@[j]@,
                )
            &&& b.pending_cell@.len() == mode
        },
        Phase::Done => if b.programs@.len() == 0 {
            b.stats@.len() == 0
        } else {
            b.stats@.len() == n_revs(b) && forall|i: int| 0 <= i < n_revs(b) ==> stats_entry_ok(b, i)
        },
        Phase::Aborted => b.stats@.len() == 0,
    }
}

/// Which event kind the orchestrator awaits.
pub open spec fn expects(b: Bench, e: Event) -> bool {
    match b.phase {
        Phase::Cloning => e is CloneFinished,
        Phase::Building { .. } => e is BuildFinished,
        Phase::Running { stage, .. } => match stage {
            Stage::Invoke => e is ProcessFinished,
            Stage::Compile => e is CompileFinished,
            Stage::Run => e is ProcessFinished,
        },
        Phase::Done => false,
        Phase::Aborted => false,
    }
}

/// The run's configuration is never touched by a step.
pub open spec fn same_config(pre: Bench, post: Bench) -> bool {
    &&& post.local_dir == pre.local_dir
    &&& post.remote_revs == pre.remote_revs
    &&& post.programs == pre.programs
    &&& post.timeout_secs == pre.timeout_secs
    &&& post.gen_timeout_secs == pre.gen_timeout_secs
}

/// Neither the store nor the pending state changed.
pub open spec fn same_store(pre: Bench, post: Bench) -> bool {
    &&& post.stats == pre.stats
    &&& post.pending_programs == pre.pending_programs
    &&& post.pending_cell == pre.pending_cell
}

/// The row assembled when a cell row completes: the four outcomes recorded
/// so far, in bench order, and the final compiled-CUDA cell `c`.
pub open spec fn finished_row_ok(pre: Bench, p: Program, c: Cell) -> bool {
    &&& p.interpreted_c == pre.pending_cell@[0]
    &&& p.interpreted_cuda == pre.pending_cell@[1]
    &&& p.interpreted_rust == pre.pending_cell@[2]
    &&& p.compiled_c == pre.pending_cell@[3]
    &&& p.compiled_cuda@ == c
}

/// The statistics entry assembled when a revision completes.
pub open spec fn finished_stats_ok(pre: Bench, prog: int, s: Stats, c: Cell) -> bool {
    &&& s.programs@.len() == prog + 1
    &&& s.programs@.take(prog) == pre.pending_programs@
    &&& s.programs@[prog].0@ == file_stem(pre.programs@[prog]@)
    &&& finished_row_ok(pre, s.programs@[prog].1, c)
}

/// How recording the cell outcome `c` advances the state: to the next mode
/// of the same program, the next program, the next revision, or the end of
/// the run, completing rows and store entries on the way.
pub open spec fn record_transition(pre: Bench, post: Bench, c: Cell) -> bool {
    &&& same_config(pre, post)
    &&& match pre.phase {
        Phase::Running { rev, prog, mode, stage } => {
            if mode < 4 {
                &&& post.phase == (Phase::Running {
                    rev,
                    prog,
                    mode: (mode + 1) as usize,
                    stage: Stage::Invoke,
                })
                &&& post.stats == pre.stats
                &&& post.pending_programs == pre.pending_programs
                &&& post.pending_cell@.len() == mode + 1
                &&& post.pending_cell@.take(mode as int) == pre.pending_cell@
                &&& post.pending_cell@[mode as int]@ == c
            } else {
                &&& post.pending_cell@.len() == 0
                &&& if prog + 1 < pre.programs@.len() {
                    &&& post.phase == (Phase::Running {
                        rev,
                        prog: (prog + 1) as usize,
                        mode: 0,
                        stage: Stage::Invoke,
                    })
                    &&& post.stats == pre.stats
                    &&& post.pending_programs@.len() == prog + 1
                    &&& post.pending_programs@.take(prog as int) == pre.pending_programs@
                    &&& post.pending_programs@[prog as int].0@ == file_stem(
                        pre.programs@[prog as int]@,
                    )
                    &&& finished_row_ok(pre, post.pending_programs@[prog as int].1, c)
                } else {
                    &&& post.pending_programs@.len() == 0
                    &&& post.stats@.len() == rev + 1
                    &&& post.stats@.take(rev as int) == pre.stats@
                    &&& post.stats@[rev as int].0@ == rev_label(pre, rev as int)
                    &&& finished_stats_ok(pre, prog as int, post.stats@[rev as int].1, c)
                    &&& if rev + 1 < n_revs(pre) {
                        post.phase == (Phase::Running {
                            rev: (rev + 1) as usize,
                            prog: 0,
                            mode: 0,
                            stage: Stage::Invoke,
                        })
                    } else {
                        post.phase == Phase::Done
                    }
                }
            }
        },
        _ => false,
    }
}

/// The orchestrator's full transition relation.
pub open spec fn step_spec(pre: Bench, e: Event, post: Bench) -> bool {
    &&& same_config(pre, post)
    &&& match pre.phase {
        Phase::Cloning => match e {
            Event::CloneFinished { ok } => same_store(pre, post) && post.phase == (if ok {
                Phase::Building { next: 0 }
            } else {
                Phase::Aborted
            }),
            _ => false,
        },
        Phase::Building { next } => match e {
            Event::BuildFinished { ok } => same_store(pre, post) && post.phase == (if !ok {
                Phase::Aborted
            } else if next + 1 < n_revs(pre) {
                Phase::Building { next: (next + 1) as usize }
            } else if pre.programs@.len() == 0 {
                Phase::Done
            } else {
                Phase::Running { rev: 0, prog: 0, mode: 0, stage: Stage::Invoke }
            }),
            _ => false,
        },
        Phase::Running { rev, prog, mode, stage } => match stage {
            Stage::Invoke => match e {
                Event::ProcessFinished { timed_out, code, stdout } => {
                    if mode < 3 {
                        record_transition(pre, post, run_cell(timed_out, code as int, stdout@))
                    } else {
                        match gen_cell(timed_out, code as int) {
                            Some(c) => record_transition(pre, post, c),
                            None => {
                                &&& same_store(pre, post)
                                &&& post.phase == (Phase::Running {
                                    rev,
                                    prog,
                                    mode,
                                    stage: Stage::Compile,
                                })
                                &&& post.pending_source@ == stdout@
                            },
                        }
                    }
                },
                _ => false,
            },
            Stage::Compile => match e {
                Event::CompileFinished { ok } => {
                    if ok {
                        same_store(pre, post) && post.phase == (Phase::Running {
                            rev,
                            prog,
                            mode,
                            stage: Stage::Run,
                        })
                    } else {
                        record_transition(pre, post, Cell::Failure(compile_error_reason()))
                    }
                },
                _ => false,
            },
            Stage::Run => match e {
                Event::ProcessFinished { timed_out, code, stdout } => record_transition(
                    pre,
                    post,
                    run_cell(timed_out, code as int, stdout@),
                ),
                _ => false,
            },
        },
        Phase::Done => false,
        Phase::Aborted => false,
    }
}

/// What the surrounding program must do in the current state.
pub open spec fn action_matches(b: Bench, a: Action) -> bool {
    match b.phase {
        Phase::Cloning => a is CloneRepo,
        Phase::Building { next } => {
            if next == 0 {
                a matches Action::BuildLocal { dir, dest } && dir@ == b.local_dir@ && dest@
                    == local_bin_path()
            } else {
                a matches Action::BuildRemote { rev, dest } && rev@ == b.remote_revs@[next - 1]@
                    && dest@ == remote_bin_path(rev@)
            }
        },
        Phase::Running { rev, prog, mode, stage } => match stage {
            Stage::Invoke => a matches Action::Run { invocation } && invocation.exe@ == bin_path(
                b,
                rev as int,
            ) && views_of(invocation.args@) == seq![
                mode_arg(mode_at(mode as int)),
                b.programs@[prog as int]@,
            ] && invocation.timeout_secs == (if mode < 3 {
                b.timeout_secs
            } else {
                b.gen_timeout_secs
            }),
            Stage::Compile => a matches Action::CompileScratch { source, suffix, compiler, flags }
                && source@ == b.pending_source@ && suffix@ == mode_suffix(mode_at(mode as int))
                && compiler@ == mode_compiler(mode_at(mode as int)) && views_of(flags@)
                == mode_flags(mode_at(mode as int)),
            Stage::Run => a matches Action::RunScratch { timeout_secs } && timeout_secs
                == b.timeout_secs,
        },
        Phase::Done => a is Report,
        Phase::Aborted => a is Abort,
    }
}

impl Bench {
    /// A fresh run over the given configuration. Labels and program names
    /// key the result matrix, so they must be distinct, and no remote label
    /// may shadow the local one.
    pub fn new(
        local_dir: String,
        remote_revs: Vec<String>,
        programs: Vec<String>,
        timeout_secs: u64,
        gen_timeout_secs: u64,
    ) -> (b: Bench)
        requires
            forall|i: int, j: int|
                0 <= i < j < remote_revs@.len() ==> remote_revs@[i]@ != remote_revs@[j]@,
            forall|i: int| 0 <= i < remote_revs@.len() ==> #[trigger] remote_revs@[i]@ != "(local)"@,
            forall|i: int, j: int|
                0 <= i < j < programs@.len() ==> file_stem(programs@[i]@) != file_stem(
                    programs@[j]@,
                ),
        ensures
            wf(b),
            b.phase == Phase::Cloning,
            b.local_dir == local_dir,
            b.remote_revs == remote_revs,
            b.programs == programs,
            b.timeout_secs == timeout_secs,
            b.gen_timeout_secs == gen_timeout_secs,
            b.stats@.len() == 0,
    {
        Bench {
            local_dir,
            remote_revs,
            programs,
            timeout_secs,
            gen_timeout_secs,
            stats: Vec::new(),
            phase: Phase::Cloning,
            pending_programs: Vec::new(),
            pending_cell: Vec::new(),
            pending_source: String::new(),
        }
    }

    /// Whether the run has ended, one way or the other.
    pub fn finished(&self) -> (r: bool)
        ensures
            r == (self.phase is Done || self.phase is Aborted),
    {
        match self.phase {
            Phase::Done => true,
            Phase::Aborted => true,
            _ => false,
        }
    }

    fn bin_dest(&self, rev: usize) -> (r: String)
        requires
            rev < n_revs(*self),
        ensures
            r@ == bin_path(*self, rev as int),
    {
        if rev < self.remote_revs.len() {
            remote_bin_dest(self.remote_revs[rev].as_str())
        } else {
            local_bin_dest()
        }
    }

    /// What the surrounding program must do next.
    pub fn next_action(&self) -> (a: Action)
        requires
            wf(*self),
        ensures
            action_matches(*self, a),
    {
        let ph = self.phase;
        match ph {
            Phase::Cloning => Action::CloneRepo,
            Phase::Building { next } => {
                if next == 0 {
                    Action::BuildLocal { dir: self.local_dir.clone(), dest: local_bin_dest() }
                } else {
                    let rev = self.remote_revs[next - 1].clone();
                    let dest = remote_bin_dest(rev.as_str());
                    Action::BuildRemote { rev, dest }
                }
            },
            Phase::Running { rev, prog, mode, stage } => match stage {
                Stage::Invoke => {
                    let exe = self.bin_dest(rev);
                    let path = &self.programs[prog];
                    let invocation = match mode_from_index(mode) {
                        Mode::InterpretedC => run::interpreted_c(
                            exe.as_str(),
                            path.as_str(),
                            self.timeout_secs,
                        ),
                        Mode::InterpretedCuda => run::interpreted_cuda(
                            exe.as_str(),
                            path.as_str(),
                            self.timeout_secs,
                        ),
                        Mode::InterpretedRust => run::interpreted_rust(
                            exe.as_str(),
                            path.as_str(),
                            self.timeout_secs,
                        ),
                        Mode::CompiledC => run::compiled_c(
                            exe.as_str(),
                            path.as_str(),
                            self.gen_timeout_secs,
                            self.timeout_secs,
                        ).generate,
                        Mode::CompiledCuda => run::compiled_cuda(
                            exe.as_str(),
                            path.as_str(),
                            self.gen_timeout_secs,
                            self.timeout_secs,
                        ).generate,
                    };
                    Action::Run { invocation }
                },
                Stage::Compile => {
                    let m = mode_from_index(mode);
                    Action::CompileScratch {
                        source: self.pending_source.clone(),
                        suffix: String::from_str(run::mode_suffix_str(m)),
                        compiler: String::from_str(run::mode_compiler_str(m)),
                        flags: run::mode_flags_vec(m),
                    }
                },
                Stage::Run => Action::RunScratch { timeout_secs: self.timeout_secs },
            },
            Phase::Done => Action::Report,
            Phase::Aborted => Action::Abort,
        }
    }

    fn record(&mut self, rev: usize, prog: usize, mode: usize, outcome: Outcome)
        requires
            wf(*old(self)),
            match old(self).phase {
                Phase::Running { rev: r, prog: p, mode: m, .. } => r == rev && p == prog && m
                    == mode,
                _ => false,
            },
        ensures
            wf(*final(self)),
            record_transition(*old(self), *final(self), outcome@),
            final(self).phase is Running || final(self).phase is Done,
            final(self).stats@.len() >= old(self).stats@.len(),
            final(self).stats@.take(old(self).stats@.len() as int) == old(self).stats@,
    {
        proof {
            assert(old(self).stats@.take(old(self).stats@.len() as int) =~= old(self).stats@);
            assert(rev < n_revs(*old(self)) && prog < old(self).programs@.len() && mode < 5
                && old(self).stats@.len() == rev && old(self).pending_programs@.len() == prog
                && old(self).pending_cell@.len() == mode);
        }
        if mode < 4 {
            self.pending_cell.push(outcome);
            self.phase = Phase::Running { rev, prog, mode: mode + 1, stage: Stage::Invoke };
            proof {
                assert(self.pending_cell@.take(mode as int) =~= old(self).pending_cell@);
                assert forall|i: int| 0 <= i < rev implies stats_entry_ok(*self, i) by {
                    assert(stats_entry_ok(*old(self), i));
                }
                assert forall|j: int|
                    0 <= j < prog implies #[trigger] self.pending_programs@[j].0@ == file_stem(
                    self.programs@[j]@,
                ) by {
                    assert(old(self).pending_programs@[j].0@ == file_stem(old(self).programs@[j]@));
                }
            }
        } else {
            let c3 = self.pending_cell.pop().unwrap();
            let c2 = self.pending_cell.pop().unwrap();
            let c1 = self.pending_cell.pop().unwrap();
            let c0 = self.pending_cell.pop().unwrap();
            proof {
                assert(c0 == old(self).pending_cell@[0]);
                assert(c1 == old(self).pending_cell@[1]);
                assert(c2 == old(self).pending_cell@[2]);
                assert(c3 == old(self).pending_cell@[3]);
            }
            let row = Program {
                compiled_c: c3,
                compiled_cuda: outcome,
                interpreted_c: c0,
                interpreted_cuda: c1,
                interpreted_rust: c2,
            };
            let name = file_stem_of(self.programs[prog].as_str());
            self.pending_programs.push((name, row));
            proof {
                assert(self.pending_programs@.take(prog as int) =~= old(self).pending_programs@);
            }
            let np = self.programs.len();
            proof {
                assert(prog < np);
            }
            if prog + 1 < np {
                self.phase = Phase::Running { rev, prog: prog + 1, mode: 0, stage: Stage::Invoke };
                proof {
                    assert forall|i: int| 0 <= i < rev implies stats_entry_ok(*self, i) by {
                        assert(stats_entry_ok(*old(self), i));
                    }
                    assert forall|j: int|
                        0 <= j < prog + 1 implies #[trigger] self.pending_programs@[j].0@
                        == file_stem(self.programs@[j]@) by {
                        if j < prog {
                            assert(old(self).pending_programs@[j].0@ == file_stem(
                                old(self).programs@[j]@,
                            ));
                        }
                    }
                }
            } else {
                let mut done_programs: Vec<(String, Program)> = Vec::new();
                core::mem::swap(&mut done_programs, &mut self.pending_programs);
                let label = if rev < self.remote_revs.len() {
                    self.remote_revs[rev].clone()
                } else {
                    String::from_str("(local)")
                };
                self.stats.push((label, Stats { programs: done_programs }));
                if rev < self.remote_revs.len() {
                    self.phase = Phase::Running {
                        rev: rev + 1,
                        prog: 0,
                        mode: 0,
                        stage: Stage::Invoke,
                    };
                } else {
                    self.phase = Phase::Done;
                }
                proof {
                    assert(self.stats@.take(rev as int) =~= old(self).stats@);
                    assert(self.stats@[rev as int].1.programs@.take(prog as int) =~= old(
                        self,
                    ).pending_programs@);
                    assert forall|i: int| 0 <= i < rev + 1 implies stats_entry_ok(*self, i) by {
                        if i < rev {
                            assert(stats_entry_ok(*old(self), i));
                            assert(self.stats@[i] == old(self).stats@[i]);
                        } else {
                            assert forall|j: int|
                                0 <= j < self.programs@.len() implies #[trigger] self.stats@[
                                i
                            ].1.programs@[j].0@ == file_stem(self.programs@[j]@) by {
                                if j < prog {
                                    assert(self.stats@[i].1.programs@[j]
                                        == old(self).pending_programs@[j]);
                                }
                            }
                        }
                    }
                }
            }
        }
    }

    /// Advance on the outcome of the last requested action. Cell-local
    /// failures are recorded and never end the run; a clone or build
    /// failure aborts it before any cell is recorded.
    pub fn step(&mut self, event: Event)
        requires
            wf(*old(self)),
            expects(*old(self), event),
        ensures
            wf(*final(self)),
            step_spec(*old(self), event, *final(self)),
            old(self).phase is Running ==> (final(self).phase is Running
                || final(self).phase is Done),
            old(self).phase is Running ==> final(self).stats@.len() >= old(self).stats@.len()
                && final(self).stats@.take(old(self).stats@.len() as int) == old(self).stats@,
            final(self).phase is Aborted ==> final(self).stats@.len() == 0,
    {
        proof {
            assert(old(self).stats@.take(old(self).stats@.len() as int) =~= old(self).stats@);
        }
        let ph = self.phase;
        match (ph, event) {
            (Phase::Cloning, Event::CloneFinished { ok }) => {
                if ok {
                    self.phase = Phase::Building { next: 0 };
                } else {
                    self.phase = Phase::Aborted;
                }
            },
            (Phase::Building { next }, Event::BuildFinished { ok }) => {
                if !ok {
                    self.phase = Phase::Aborted;
                } else if next < self.remote_revs.len() {
                    self.phase = Phase::Building { next: next + 1 };
                } else if self.programs.len() == 0 {
                    self.phase = Phase::Done;
                } else {
                    self.phase = Phase::Running { rev: 0, prog: 0, mode: 0, stage: Stage::Invoke };
                }
            },
            (Phase::Running { rev, prog, mode, stage: Stage::Invoke }, Event::ProcessFinished {
                timed_out,
                code,
                stdout,
            }) => {
                if mode < 3 {
                    let outcome = run::run_outcome(timed_out, code, stdout.as_str());
                    self.record(rev, prog, mode, outcome);
                } else if timed_out {
                    let outcome = Outcome::Failure(String::from_str("generation timed out"));
                    self.record(rev, prog, mode, outcome);
                } else if code != 0 {
                    let mut reason = String::from_str("non-zero exit status ");
                    reason.append(dec_i32(code).as_str());
                    self.record(rev, prog, mode, Outcome::Failure(reason));
                } else {
                    self.pending_source = stdout;
                    self.phase = Phase::Running { rev, prog, mode, stage: Stage::Compile };
                    proof {
                        assert forall|i: int| 0 <= i < rev implies stats_entry_ok(*self, i) by {
                            assert(stats_entry_ok(*old(self), i));
                        }
                        assert forall|j: int|
                            0 <= j < prog implies #[trigger] self.pending_programs@[j].0@
                            == file_stem(self.programs@[j]@) by {
                            assert(old(self).pending_programs@[j].0@ == file_stem(
                                old(self).programs@[j]@,
                            ));
                        }
                    }
                }
            },
            (Phase::Running { rev, prog, mode, stage: Stage::Compile }, Event::CompileFinished {
                ok,
            }) => {
                if ok {
                    self.phase = Phase::Running { rev, prog, mode, stage: Stage::Run };
                    proof {
                        assert forall|i: int| 0 <= i < rev implies stats_entry_ok(*self, i) by {
                            assert(stats_entry_ok(*old(self), i));
                        }
                        assert forall|j: int|
                            0 <= j < prog implies #[trigger] self.pending_programs@[j].0@
                            == file_stem(self.programs@[j]@) by {
                            assert(old(self).pending_programs@[j].0@ == file_stem(
                                old(self).programs@[j]@,
                            ));
                        }
                    }
                } else {
                    let outcome = Outcome::Failure(String::from_str("compile error"));
                    self.record(rev, prog, mode, outcome);
                }
            },
            (Phase::Running { rev, prog, mode, stage: Stage::Run }, Event::ProcessFinished {
                timed_out,
                code,
                stdout,
            }) => {
                let outcome = run::run_outcome(timed_out, code, stdout.as_str());
                self.record(rev, prog, mode, outcome);
            },
            _ => {
                proof {
                    assert(false);
                }
            },
        }
    }
}

/// The execution mode at cell index `i`, in bench order.
pub fn mode_from_index(i: usize) -> (m: Mode)
    requires
        i < 5,
    ensures
        m == mode_at(i as int),
{
    if i == 0 {
        Mode::InterpretedC
    } else if i == 1 {
        Mode::InterpretedCuda
    } else if i == 2 {
        Mode::InterpretedRust
    } else if i == 3 {
        Mode::CompiledC
    } else {
        Mode::CompiledCuda
    }
}

/// After a completed run, the result matrix is fully and uniquely
/// populated: one store entry per revision, labelled in bench order with no
/// duplicate labels, each holding exactly one row per corpus program, keyed
/// by program name with no duplicate names — and every row holds exactly
/// one outcome per execution mode.
pub proof fn lemma_done_matrix_complete(b: Bench)
    requires
        wf(b),
        b.phase is Done,
        b.programs@.len() > 0,
    ensures
        b.stats@.len() == n_revs(b),
        forall|i: int| 0 <= i < n_revs(b) ==> #[trigger] b.stats@[i].0@ == rev_label(b, i),
        forall|i: int|
            0 <= i < n_revs(b) ==> #[trigger] b.stats@[i].1.programs@.len() == b.programs@.len(),
        forall|i: int, j: int|
            0 <= i < n_revs(b) && 0 <= j < b.programs@.len() ==> #[trigger] b.stats@[
                i
            ].1.programs@[j].0@ == file_stem(b.programs@[j]@),
        forall|i1: int, i2: int| 0 <= i1 < i2 < n_revs(b) ==> b.stats@[i1].0@ != b.stats@[i2].0@,
        forall|i: int, j1: int, j2: int|
            0 <= i < n_revs(b) && 0 <= j1 < j2 < b.programs@.len() ==> b.stats@[i].1.programs@[
                j1
            ].0@ != b.stats@[i].1.programs@[j2].0@,
{
    assert forall|i: int| 0 <= i < n_revs(b) implies #[trigger] b.stats@[i].0@ == rev_label(
        b,
        i,
    ) by {
        assert(stats_entry_ok(b, i));
    }
    assert forall|i: int|
        0 <= i < n_revs(b) implies #[trigger] b.stats@[i].1.programs@.len()
        == b.programs@.len() by {
        assert(stats_entry_ok(b, i));
    }
    assert forall|i: int, j: int|
        0 <= i < n_revs(b) && 0 <= j < b.programs@.len() implies #[trigger] b.stats@[
        i
    ].1.programs@[j].0@ == file_stem(b.programs@[j]@) by {
        assert(stats_entry_ok(b, i));
    }
    assert forall|i1: int, i2: int| 0 <= i1 < i2 < n_revs(b) implies b.stats@[i1].0@ != b.stats@[
        i2
    ].0@ by {
        assert(stats_entry_ok(b, i1));
        assert(stats_entry_ok(b, i2));
        if i2 < b.remote_revs@.len() {
            assert(b.remote_revs@[i1]@ != b.remote_revs@[i2]@);
        } else {
            assert(b.remote_revs@[i1]@ != "(local)"@);
        }
    }
    assert forall|i: int, j1: int, j2: int|
        0 <= i < n_revs(b) && 0 <= j1 < j2 < b.programs@.len() implies b.stats@[i].1.programs@[
        j1
    ].0@ != b.stats@[i].1.programs@[j2].0@ by {
        assert(stats_entry_ok(b, i));
        assert(file_stem(b.programs@[j1]@) != file_stem(b.programs@[j2]@));
    }
}

/// An aborted run records no cells at all: a fatal clone or build failure
/// leaves the store empty.
pub proof fn lemma_aborted_no_cells(b: Bench)
    requires
        wf(b),
        b.phase is Aborted,
    ensures
        b.stats@.len() == 0,
{
}

} // verus!
