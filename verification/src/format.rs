//! Report rendering: two aligned table sections (compiled and interpreted
//! modes), one row group per program, one column per revision, with
//! fixed-width padding and separator lines.

use vstd::prelude::*;

use crate::stats::cell_text;
use crate::stats::lookup_from;
use crate::stats::mode_outcome;
use crate::stats::Mode;
use crate::stats::Program;
use crate::stats::Stats;
use crate::util::str_eq;
use crate::util::views_of;

verus! {

pub const COLUMN_WIDTH: usize = 14;

/// `n` copies of the character `c`.
pub open spec fn repeat_ch(c: char, n: nat) -> Seq<char>
    decreases n,
{
    if n == 0 {
        Seq::empty()
    } else {
        repeat_ch(c, (n - 1) as nat).push(c)
    }
}

/// `s` padded with spaces on the right up to width `w`.
pub open spec fn align_left(s: Seq<char>, w: nat) -> Seq<char> {
    if s.len() >= w {
        s
    } else {
        s + repeat_ch(' ', (w - s.len()) as nat)
    }
}

/// `s` padded with spaces on the left up to width `w`.
pub open spec fn align_right(s: Seq<char>, w: nat) -> Seq<char> {
    if s.len() >= w {
        s
    } else {
        repeat_ch(' ', (w - s.len()) as nat) + s
    }
}

/// The padding between two columns.
pub open spec fn col_sep() -> Seq<char> {
    "  "@
}

/// The columns at or after `i`, joined by the column padding.
pub open spec fn join_from(cols: Seq<Seq<char>>, i: int) -> Seq<char>
    decreases cols.len() - i,
{
    if i < 0 || i >= cols.len() {
        Seq::empty()
    } else if i == cols.len() - 1 {
        cols[i]
    } else {
        cols[i] + col_sep() + join_from(cols, i + 1)
    }
}

/// The columns joined by the column padding.
pub open spec fn join_cols(cols: Seq<Seq<char>>) -> Seq<char> {
    join_from(cols, 0)
}

fn repeat_append(out: &mut String, piece: &str, n: usize)
    requires
        piece@.len() == 1,
    ensures
        final(out)@ == old(out)@ + repeat_ch(piece@[0], n as nat),
{
    let mut k: usize = 0;
    while k < n
        invariant
            piece@.len() == 1,
            0 <= k <= n,
            out@ == old(out)@ + repeat_ch(piece@[0], k as nat),
        decreases n - k,
    {
        out.append(piece);
        proof {
            assert(piece@ =~= seq![piece@[0]]);
            assert(old(out)@ + repeat_ch(piece@[0], (k + 1) as nat) =~= (old(out)@ + repeat_ch(
                piece@[0],
                k as nat,
            )) + piece@);
        }
        k += 1;
    }
}

fn repeat_string(piece: &str, n: usize) -> (r: String)
    requires
        piece@.len() == 1,
    ensures
        r@ == repeat_ch(piece@[0], n as nat),
{
    let mut r = String::new();
    repeat_append(&mut r, piece, n);
    proof {
        assert(r@ =~= repeat_ch(piece@[0], n as nat));
    }
    r
}

fn align_left_str(s: &str, w: usize) -> (r: String)
    ensures
        r@ == align_left(s@, w as nat),
{
    proof {
        reveal_strlit(" ");
    }
    let mut r = String::from_str(s);
    let n = s.unicode_len();
    if n < w {
        repeat_append(&mut r, " ", w - n);
    }
    r
}

fn align_right_str(s: &str, w: usize) -> (r: String)
    ensures
        r@ == align_right(s@, w as nat),
{
    proof {
        reveal_strlit(" ");
    }
    let n = s.unicode_len();
    let mut r = String::new();
    if n < w {
        repeat_append(&mut r, " ", w - n);
    }
    r.append(s);
    proof {
        assert(Seq::<char>::empty() + repeat_ch(' ', (w - n) as nat) =~= repeat_ch(
            ' ',
            (w - n) as nat,
        ));
        if n >= w {
            assert(Seq::<char>::empty() + s@ =~= s@);
        }
    }
    r
}

fn join_exec(cols: &Vec<String>) -> (r: String)
    ensures
        r@ == join_cols(views_of(cols@)),
{
    proof {
        reveal_strlit("  ");
    }
    let n = cols.len();
    if n == 0 {
        return String::new();
    }
    let mut r = cols[0].clone();
    let mut i: usize = 1;
    while i < n
        invariant
            1 <= i <= n,
            n == cols@.len(),
            "  "@ == col_sep(),
            i < n ==> join_cols(views_of(cols@)) == r@ + col_sep() + join_from(
                views_of(cols@),
                i as int,
            ),
            i == n ==> join_cols(views_of(cols@)) == r@,
        decreases n - i,
    {
        let ghost prev = r@;
        r.append("  ");
        r.append(cols[i].as_str());
        proof {
            let vs = views_of(cols@);
            assert(vs[i as int] == cols@[i as int]@);
            assert(r@ =~= prev + col_sep() + vs[i as int]);
            if i + 1 < n {
                assert(join_from(vs, i as int) == vs[i as int] + col_sep() + join_from(
                    vs,
                    i + 1 as int,
                ));
                assert(prev + col_sep() + join_from(vs, i as int) =~= r@ + col_sep() + join_from(
                    vs,
                    i + 1 as int,
                ));
            } else {
                assert(join_from(vs, i as int) == vs[i as int]);
                assert(prev + col_sep() + join_from(vs, i as int) =~= r@);
            }
        }
        i += 1;
    }
    r
}

/// The aligned outcome columns a row holds for the given mode: one per
/// revision entry, in reverse store order.
pub open spec fn cells_for(entries: Seq<(String, Program)>, m: Mode) -> Seq<Seq<char>> {
    Seq::new(
        entries.len(),
        |j: int|
            align_right(
                cell_text(mode_outcome(entries[entries.len() - 1 - j].1, m)@),
                COLUMN_WIDTH as nat,
            ),
    )
}

/// One table row: the program name and runtime name left-aligned, then one
/// right-aligned outcome column per revision, joined by the column padding.
pub open spec fn row_text(
    name: Seq<char>,
    runtime: Seq<char>,
    entries: Seq<(String, Program)>,
    m: Mode,
) -> Seq<char> {
    join_cols(
        seq![
            align_left(name, COLUMN_WIDTH as nat),
            align_left(runtime, COLUMN_WIDTH as nat),
        ] + cells_for(entries, m),
    )
}

fn format_row(name: &str, runtime: &str, entries: &Vec<(String, Program)>, m: Mode) -> (r: String)
    ensures
        r@ == row_text(name@, runtime@, entries@, m),
{
    let mut cols: Vec<String> = Vec::new();
    cols.push(align_left_str(name, COLUMN_WIDTH));
    cols.push(align_left_str(runtime, COLUMN_WIDTH));
    let n = entries.len();
    let mut k: usize = 0;
    while k < n
        invariant
            n == entries@.len(),
            0 <= k <= n,
            cols@.len() == 2 + k,
            views_of(cols@) =~= seq![
                align_left(name@, COLUMN_WIDTH as nat),
                align_left(runtime@, COLUMN_WIDTH as nat),
            ] + cells_for(entries@, m).take(k as int),
        decreases n - k,
    {
        let ghost prev = cols@;
        let e = &entries[n - 1 - k];
        let cell = e.1.outcome(m).text();
        cols.push(align_right_str(cell.as_str(), COLUMN_WIDTH));
        proof {
            assert(views_of(cols@) =~= views_of(prev).push(cells_for(entries@, m)[k as int]));
            assert(views_of(cols@) =~= seq![
                align_left(name@, COLUMN_WIDTH as nat),
                align_left(runtime@, COLUMN_WIDTH as nat),
            ] + cells_for(entries@, m).take((k + 1) as int));
        }
        k += 1;
    }
    proof {
        assert(cells_for(entries@, m).take(n as int) =~= cells_for(entries@, m));
    }
    join_exec(&cols)
}

/// The (revision, row) entries that hold program `p`, in store order, taken
/// from the store entries at or after index `i`.
pub open spec fn entries_from(stats: Seq<(String, Stats)>, p: Seq<char>, i: int) -> Seq<
    (String, Program),
>
    decreases stats.len() - i,
{
    if i < 0 || i >= stats.len() {
        seq![]
    } else {
        let rest = entries_from(stats, p, i + 1);
        match lookup_from(stats[i].1.programs@, p, 0) {
            Some(pr) => seq![(stats[i].0, pr)] + rest,
            None => rest,
        }
    }
}

/// The (revision, row) entries that hold program `p`, in store order.
pub open spec fn entries_for(stats: Seq<(String, Stats)>, p: Seq<char>) -> Seq<(String, Program)> {
    entries_from(stats, p, 0)
}

/// `acc` with `p` appended unless already present.
pub open spec fn push_unique(acc: Seq<Seq<char>>, p: Seq<char>) -> Seq<Seq<char>> {
    if acc.contains(p) {
        acc
    } else {
        acc.push(p)
    }
}

/// `acc` extended with the program names of the entries at or after `j`, in
/// order of first appearance.
pub open spec fn names_in(progs: Seq<(String, Program)>, acc: Seq<Seq<char>>, j: int) -> Seq<
    Seq<char>,
>
    decreases progs.len() - j,
{
    if j < 0 || j >= progs.len() {
        acc
    } else {
        names_in(progs, push_unique(acc, progs[j].0@), j + 1)
    }
}

/// `acc` extended with the program names of the store entries at or after
/// `i`, in order of first appearance.
pub open spec fn names_from(stats: Seq<(String, Stats)>, acc: Seq<Seq<char>>, i: int) -> Seq<
    Seq<char>,
>
    decreases stats.len() - i,
{
    if i < 0 || i >= stats.len() {
        acc
    } else {
        names_from(stats, names_in(stats[i].1.programs@, acc, 0), i + 1)
    }
}

/// Every program name in the store, in order of first appearance.
pub open spec fn program_names(stats: Seq<(String, Stats)>) -> Seq<Seq<char>> {
    names_from(stats, seq![], 0)
}

fn lookup_prog<'a>(progs: &'a Vec<(String, Program)>, p: &String) -> (r: Option<&'a Program>)
    ensures
        match r {
            Some(pr) => lookup_from(progs@, p@, 0) == Some(*pr),
            None => lookup_from(progs@, p@, 0) is None,
        },
{
    let n = progs.len();
    let mut j: usize = 0;
    while j < n
        invariant
            n == progs@.len(),
            0 <= j <= n,
            lookup_from(progs@, p@, 0) == lookup_from(progs@, p@, j as int),
        decreases n - j,
    {
        let e = &progs[j];
        if str_eq(e.0.as_str(), p.as_str()) {
            return Some(&e.1);
        }
        j += 1;
    }
    None
}

/// Regroup the store by program: one entry per program name in order of
/// first appearance, each holding that program's (revision, row) entries in
/// store order.
pub fn by_program_revision(stats: &Vec<(String, Stats)>) -> (r: Vec<
    (String, Vec<(String, Program)>),
>)
    ensures
        r@.len() == program_names(stats@).len(),
        forall|g: int|
            0 <= g < r@.len() ==> r@[g].0@ == program_names(stats@)[g] && r@[g].1@ == entries_for(
                stats@,
                program_names(stats@)[g],
            ),
{
    let ns = stats.len();
    let mut names: Vec<String> = Vec::new();
    proof {
        assert(views_of(names@) =~= Seq::<Seq<char>>::empty());
    }
    let mut i: usize = 0;
    while i < ns
        invariant
            ns == stats@.len(),
            0 <= i <= ns,
            program_names(stats@) == names_from(stats@, views_of(names@), i as int),
        decreases ns - i,
    {
        let progs = &stats[i].1.programs;
        let np = progs.len();
        let mut j: usize = 0;
        while j < np
            invariant
                ns == stats@.len(),
                0 <= i < ns,
                np == stats@[i as int].1.programs@.len(),
                progs@ == stats@[i as int].1.programs@,
                0 <= j <= np,
                program_names(stats@) == names_from(
                    stats@,
                    names_in(stats@[i as int].1.programs@, views_of(names@), j as int),
                    (i + 1) as int,
                ),
            decreases np - j,
        {
            let ghost prev = names@;
            let e = &progs[j];
            if !crate::util::contains_name(&names, &e.0) {
                names.push(e.0.clone());
                proof {
                    assert(views_of(names@) =~= views_of(prev).push(e.0@));
                }
            }
            proof {
                assert(names_in(stats@[i as int].1.programs@, views_of(prev), j as int)
                    == names_in(
                    stats@[i as int].1.programs@,
                    push_unique(views_of(prev), stats@[i as int].1.programs@[j as int].0@),
                    (j + 1) as int,
                ));
                assert(push_unique(views_of(prev), stats@[i as int].1.programs@[j as int].0@)
                    == views_of(names@));
            }
            j += 1;
        }
        i += 1;
    }
    proof {
        assert(views_of(names@) == program_names(stats@));
    }
    let mut groups: Vec<(String, Vec<(String, Program)>)> = Vec::new();
    let ng = names.len();
    let mut g: usize = 0;
    while g < ng
        invariant
            ng == names@.len(),
            ns == stats@.len(),
            views_of(names@) == program_names(stats@),
            0 <= g <= ng,
            groups@.len() == g,
            forall|t: int|
                0 <= t < g ==> groups@[t].0@ == program_names(stats@)[t] && groups@[t].1@
                    == entries_for(stats@, program_names(stats@)[t]),
        decreases ng - g,
    {
        let p = &names[g];
        let mut entries: Vec<(String, Program)> = Vec::new();
        proof {
            assert(entries@ + entries_from(stats@, p@, 0) =~= entries_from(stats@, p@, 0));
        }
        let mut i2: usize = 0;
        while i2 < ns
            invariant
                ns == stats@.len(),
                0 <= i2 <= ns,
                entries_for(stats@, p@) == entries@ + entries_from(stats@, p@, i2 as int),
            decreases ns - i2,
        {
            let ghost prev = entries@;
            let se = &stats[i2];
            match lookup_prog(&se.1.programs, p) {
                Some(pr) => {
                    entries.push((se.0.clone(), pr.duplicate()));
                    proof {
                        assert(entries@ =~= prev.push((stats@[i2 as int].0, *pr)));
                    }
                },
                None => {},
            }
            proof {
                assert(entries_for(stats@, p@) =~= entries@ + entries_from(
                    stats@,
                    p@,
                    (i2 + 1) as int,
                ));
            }
            i2 += 1;
        }
        proof {
            assert(entries_from(stats@, p@, ns as int) =~= Seq::<(String, Program)>::empty());
            assert(entries_for(stats@, p@) =~= entries@);
        }
        groups.push((p.clone(), entries));
        g += 1;
    }
    groups
}

/// The row group of one program in the compiled section: a `c` row, a
/// `cuda` row, and a dash separator sized to the last row.
pub open spec fn group_compiled_text(name: Seq<char>, entries: Seq<(String, Program)>) -> Seq<
    char,
> {
    let r1 = row_text(name, "c"@, entries, Mode::CompiledC);
    let r2 = row_text(""@, "cuda"@, entries, Mode::CompiledCuda);
    r1 + seq!['\n'] + r2 + seq!['\n'] + repeat_ch('-', r2.len()) + seq!['\n']
}

/// The row group of one program in the interpreted section: a `c` row, a
/// `cuda` row, a `rust` row, and a dash separator sized to the last row.
pub open spec fn group_interpreted_text(name: Seq<char>, entries: Seq<(String, Program)>) -> Seq<
    char,
> {
    let r1 = row_text(name, "c"@, entries, Mode::InterpretedC);
    let r2 = row_text(""@, "cuda"@, entries, Mode::InterpretedCuda);
    let r3 = row_text(""@, "rust"@, entries, Mode::InterpretedRust);
    r1 + seq!['\n'] + r2 + seq!['\n'] + r3 + seq!['\n'] + repeat_ch('-', r3.len()) + seq!['\n']
}

/// The compiled section's row groups for the program names at or after `g`.
pub open spec fn compiled_rows_from(
    stats: Seq<(String, Stats)>,
    names: Seq<Seq<char>>,
    g: int,
) -> Seq<char>
    decreases names.len() - g,
{
    if g < 0 || g >= names.len() {
        Seq::empty()
    } else {
        group_compiled_text(names[g], entries_for(stats, names[g])) + compiled_rows_from(
            stats,
            names,
            g + 1,
        )
    }
}

/// The compiled section's row groups.
pub open spec fn compiled_rows_text(stats: Seq<(String, Stats)>) -> Seq<char> {
    compiled_rows_from(stats, program_names(stats), 0)
}

/// The interpreted section's row groups for the program names at or after
/// `g`.
pub open spec fn interpreted_rows_from(
    stats: Seq<(String, Stats)>,
    names: Seq<Seq<char>>,
    g: int,
) -> Seq<char>
    decreases names.len() - g,
{
    if g < 0 || g >= names.len() {
        Seq::empty()
    } else {
        group_interpreted_text(names[g], entries_for(stats, names[g])) + interpreted_rows_from(
            stats,
            names,
            g + 1,
        )
    }
}

/// The interpreted section's row groups.
pub open spec fn interpreted_rows_text(stats: Seq<(String, Stats)>) -> Seq<char> {
    interpreted_rows_from(stats, program_names(stats), 0)
}

/// Render the compiled section's row groups.
pub fn format_compiled_rows(stats: &Vec<(String, Stats)>) -> (r: String)
    ensures
        r@ == compiled_rows_text(stats@),
{
    proof {
        reveal_strlit("\n");
        reveal_strlit("-");
    }
    let groups = by_program_revision(stats);
    let mut out = String::new();
    let ng = groups.len();
    let mut g: usize = 0;
    while g < ng
        invariant
            ng == groups@.len(),
            ng == program_names(stats@).len(),
            forall|t: int|
                0 <= t < ng ==> groups@[t].0@ == program_names(stats@)[t] && groups@[t].1@
                    == entries_for(stats@, program_names(stats@)[t]),
            0 <= g <= ng,
            "\n"@ == seq!['\n'],
            compiled_rows_text(stats@) == out@ + compiled_rows_from(
                stats@,
                program_names(stats@),
                g as int,
            ),
        decreases ng - g,
    {
        proof {
            reveal_strlit("\n");
            reveal_strlit("-");
        }
        let ghost prev = out@;
        let grp = &groups[g];
        let row1 = format_row(grp.0.as_str(), "c", &grp.1, Mode::CompiledC);
        out.append(row1.as_str());
        out.append("\n");
        let row2 = format_row("", "cuda", &grp.1, Mode::CompiledCuda);
        let dash = repeat_string("-", row2.unicode_len());
        out.append(row2.as_str());
        out.append("\n");
        out.append(dash.as_str());
        out.append("\n");
        proof {
            assert(out@ =~= prev + group_compiled_text(
                program_names(stats@)[g as int],
                entries_for(stats@, program_names(stats@)[g as int]),
            ));
            assert(compiled_rows_text(stats@) =~= out@ + compiled_rows_from(
                stats@,
                program_names(stats@),
                (g + 1) as int,
            ));
        }
        g += 1;
    }
    out
}

/// Render the interpreted section's row groups.
pub fn format_interpreted_rows(stats: &Vec<(String, Stats)>) -> (r: String)
    ensures
        r@ == interpreted_rows_text(stats@),
{
    proof {
        reveal_strlit("\n");
        reveal_strlit("-");
    }
    let groups = by_program_revision(stats);
    let mut out = String::new();
    let ng = groups.len();
    let mut g: usize = 0;
    while g < ng
        invariant
            ng == groups@.len(),
            ng == program_names(stats@).len(),
            forall|t: int|
                0 <= t < ng ==> groups@[t].0@ == program_names(stats@)[t] && groups@[t].1@
                    == entries_for(stats@, program_names(stats@)[t]),
            0 <= g <= ng,
            "\n"@ == seq!['\n'],
            interpreted_rows_text(stats@) == out@ + interpreted_rows_from(
                stats@,
                program_names(stats@),
                g as int,
            ),
        decreases ng - g,
    {
        proof {
            reveal_strlit("\n");
            reveal_strlit("-");
        }
        let ghost prev = out@;
        let grp = &groups[g];
        let row1 = format_row(grp.0.as_str(), "c", &grp.1, Mode::InterpretedC);
        out.append(row1.as_str());
        out.append("\n");
        let row2 = format_row("", "cuda", &grp.1, Mode::InterpretedCuda);
        out.append(row2.as_str());
        out.append("\n");
        let row3 = format_row("", "rust", &grp.1, Mode::InterpretedRust);
        let dash = repeat_string("-", row3.unicode_len());
        out.append(row3.as_str());
        out.append("\n");
        out.append(dash.as_str());
        out.append("\n");
        proof {
            assert(out@ =~= prev + group_interpreted_text(
                program_names(stats@)[g as int],
                entries_for(stats@, program_names(stats@)[g as int]),
            ));
            assert(interpreted_rows_text(stats@) =~= out@ + interpreted_rows_from(
                stats@,
                program_names(stats@),
                (g + 1) as int,
            ));
        }
        g += 1;
    }
    out
}

/// A header line over the given revision columns, underlined with equals
/// signs sized to the header.
pub open spec fn header_text(revs: Seq<Seq<char>>) -> Seq<char> {
    let h = join_cols(
        seq![
            align_left("file"@, COLUMN_WIDTH as nat),
            align_left("runtime"@, COLUMN_WIDTH as nat),
        ] + revs.map_values(|c: Seq<char>| align_left(c, COLUMN_WIDTH as nat)),
    );
    h + seq!['\n'] + repeat_ch('=', h.len())
}

/// Render the header row over the given revision columns.
pub fn format_header(revisions: &Vec<String>) -> (r: String)
    ensures
        r@ == header_text(views_of(revisions@)),
{
    let mut cols: Vec<String> = Vec::new();
    cols.push(align_left_str("file", COLUMN_WIDTH));
    cols.push(align_left_str("runtime", COLUMN_WIDTH));
    let n = revisions.len();
    let mut i: usize = 0;
    while i < n
        invariant
            n == revisions@.len(),
            0 <= i <= n,
            cols@.len() == 2 + i,
            views_of(cols@) =~= seq![
                align_left("file"@, COLUMN_WIDTH as nat),
                align_left("runtime"@, COLUMN_WIDTH as nat),
            ] + views_of(revisions@).take(i as int).map_values(
                |c: Seq<char>| align_left(c, COLUMN_WIDTH as nat),
            ),
        decreases n - i,
    {
        let ghost prev = cols@;
        cols.push(align_left_str(revisions[i].as_str(), COLUMN_WIDTH));
        proof {
            assert(views_of(cols@) =~= views_of(prev).push(
                align_left(views_of(revisions@)[i as int], COLUMN_WIDTH as nat),
            ));
            assert(views_of(cols@) =~= seq![
                align_left("file"@, COLUMN_WIDTH as nat),
                align_left("runtime"@, COLUMN_WIDTH as nat),
            ] + views_of(revisions@).take((i + 1) as int).map_values(
                |c: Seq<char>| align_left(c, COLUMN_WIDTH as nat),
            ));
        }
        i += 1;
    }
    proof {
        assert(views_of(revisions@).take(n as int) =~= views_of(revisions@));
    }
    let h = join_exec(&cols);
    let hl = h.unicode_len();
    proof {
        reveal_strlit("=");
    }
    let eq_line = repeat_string("=", hl);
    let mut r = h;
    r.append("\n");
    r.append(eq_line.as_str());
    proof {
        reveal_strlit("\n");
        reveal_strlit("=");
        assert(r@ =~= header_text(views_of(revisions@)));
    }
    r
}

/// The revision labels in report column order: store order, reversed.
pub open spec fn rev_labels(stats: Seq<(String, Stats)>) -> Seq<Seq<char>> {
    Seq::new(stats.len(), |i: int| stats[stats.len() - 1 - i].0@)
}

/// The full report: the compiled section, then the interpreted section,
/// each with its own title, header row and row groups.
pub open spec fn format_text(stats: Seq<(String, Stats)>) -> Seq<char> {
    "compiled\n========\n\n"@ + header_text(rev_labels(stats)) + seq!['\n'] + compiled_rows_text(
        stats,
    ) + seq!['\n'] + "interpreted\n===========\n\n"@ + header_text(rev_labels(stats)) + seq!['\n']
        + interpreted_rows_text(stats) + seq!['\n']
}

/// Render the full report for a result store.
pub fn format(stats: &Vec<(String, Stats)>) -> (r: String)
    ensures
        r@ == format_text(stats@),
{
    let n = stats.len();
    let mut revs: Vec<String> = Vec::new();
    let mut i: usize = 0;
    while i < n
        invariant
            n == stats@.len(),
            0 <= i <= n,
            revs@.len() == i,
            forall|k: int| 0 <= k < i ==> revs@[k]@ == stats@[n - 1 - k].0@,
        decreases n - i,
    {
        revs.push(stats[n - 1 - i].0.clone());
        i += 1;
    }
    proof {
        assert(views_of(revs@) =~= rev_labels(stats@));
    }
    let header = format_header(&revs);
    let comp = format_compiled_rows(stats);
    let interp = format_interpreted_rows(stats);
    let mut out = String::from_str("compiled\n========\n\n");
    out.append(header.as_str());
    out.append("\n");
    out.append(comp.as_str());
    out.append("\n");
    out.append("interpreted\n===========\n\n");
    out.append(header.as_str());
    out.append("\n");
    out.append(interp.as_str());
    out.append("\n");
    proof {
        reveal_strlit("\n");
        assert(out@ =~= format_text(stats@));
    }
    out
}

/// When every revision's statistics hold a given program, that program's
/// report rows hold one column per revision, in store order — the same
/// order, reversed, that the header columns follow. Columns and header match
/// end to end.
pub proof fn lemma_row_columns_follow_store(stats: Seq<(String, Stats)>, p: Seq<char>)
    requires
        forall|i: int| 0 <= i < stats.len() ==> lookup_from(#[trigger] stats[i].1.programs@, p, 0) is Some,
    ensures
        entries_for(stats, p).len() == stats.len(),
        forall|i: int| 0 <= i < stats.len() ==> #[trigger] entries_for(stats, p)[i].0 == stats[i].0,
{
    lemma_entries_from(stats, p, 0);
    assert forall|i: int|
        0 <= i < stats.len() implies #[trigger] entries_for(stats, p)[i].0 == stats[i].0 by {
        assert(entries_from(stats, p, 0)[i - 0].0 == stats[i].0);
    }
}

proof fn lemma_entries_from(stats: Seq<(String, Stats)>, p: Seq<char>, i: int)
    requires
        0 <= i <= stats.len(),
        forall|k: int| 0 <= k < stats.len() ==> lookup_from(#[trigger] stats[k].1.programs@, p, 0) is Some,
    ensures
        entries_from(stats, p, i).len() == stats.len() - i,
        forall|k: int|
            i <= k < stats.len() ==> #[trigger] entries_from(stats, p, i)[k - i].0 == stats[k].0,
    decreases stats.len() - i,
{
    if i < stats.len() {
        lemma_entries_from(stats, p, i + 1);
        let e = entries_from(stats, p, i);
        let rest = entries_from(stats, p, i + 1);
        assert forall|k: int| i <= k < stats.len() implies #[trigger] e[k - i].0 == stats[k].0 by {
            if k > i {
                assert(e[k - i] == rest[k - i - 1]);
                assert(rest[(k - (i + 1)) as int].0 == stats[k].0);
            }
        }
    }
}

} // verus!
