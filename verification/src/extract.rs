//! Timing extraction: scan captured output for the first line carrying the
//! timing marker and return the remainder of that line as an opaque token.

use vstd::prelude::*;

use crate::util::views_of;

verus! {

/// The fixed marker prefix that the runtime prints before its timing figure.
pub open spec fn marker() -> Seq<char> {
    "- TIME: "@
}

/// Drop a single trailing carriage return, as `str::lines` does for lines
/// terminated by a newline.
pub open spec fn strip_cr(l: Seq<char>) -> Seq<char> {
    if l.len() > 0 && l[l.len() - 1] == '\r' {
        l.drop_last()
    } else {
        l
    }
}

/// The index of the first newline at or after `from`, or the length of `s`
/// if there is none.
pub open spec fn find_nl(s: Seq<char>, from: int) -> int
    decreases s.len() - from,
{
    if from < 0 || from >= s.len() {
        s.len() as int
    } else if s[from] == '\n' {
        from
    } else {
        find_nl(s, from + 1)
    }
}

/// The lines of `s` starting at `from`, split as `str::lines` splits: at
/// newlines, with a carriage return stripped before each newline, and with
/// an optional final line ending.
pub open spec fn lines_from(s: Seq<char>, from: int) -> Seq<Seq<char>>
    decreases s.len() - from,
    via lines_from_dec
{
    if from < 0 || from >= s.len() {
        seq![]
    } else {
        let j = find_nl(s, from);
        if j >= s.len() {
            seq![s.subrange(from, s.len() as int)]
        } else {
            seq![strip_cr(s.subrange(from, j))] + lines_from(s, j + 1)
        }
    }
}

#[via_fn]
proof fn lines_from_dec(s: Seq<char>, from: int) {
    if 0 <= from && from < s.len() {
        lemma_find_nl_props(s, from);
    }
}

/// The lines of `s`.
pub open spec fn lines_of(s: Seq<char>) -> Seq<Seq<char>> {
    lines_from(s, 0)
}

/// Whether a line begins with the timing marker.
pub open spec fn line_matches(l: Seq<char>) -> bool {
    l.len() >= marker().len() && l.subrange(0, marker().len() as int) == marker()
}

/// The remainder of a matching line, after the marker.
pub open spec fn token_of(l: Seq<char>) -> Seq<char> {
    l.subrange(marker().len() as int, l.len() as int)
}

/// The token of the first matching line at or after index `i`, if any.
pub open spec fn first_match_from(ls: Seq<Seq<char>>, i: int) -> Option<Seq<char>>
    decreases ls.len() - i,
{
    if i < 0 || i >= ls.len() {
        None
    } else if line_matches(ls[i]) {
        Some(token_of(ls[i]))
    } else {
        first_match_from(ls, i + 1)
    }
}

/// What timing extraction returns on `s`: the remainder of the first line
/// that begins with the marker, or nothing when no line does.
pub open spec fn extract_spec(s: Seq<char>) -> Option<Seq<char>> {
    first_match_from(lines_of(s), 0)
}

proof fn lemma_find_nl_props(s: Seq<char>, from: int)
    requires
        0 <= from <= s.len(),
    ensures
        from <= find_nl(s, from) <= s.len(),
        find_nl(s, from) < s.len() ==> s[find_nl(s, from)] == '\n',
        forall|k: int| from <= k < find_nl(s, from) ==> s[k] != '\n',
    decreases s.len() - from,
{
    if from < s.len() && s[from] != '\n' {
        lemma_find_nl_props(s, from + 1);
    }
}

proof fn lemma_find_nl_at(s: Seq<char>, from: int, j: int)
    requires
        0 <= from <= j <= s.len(),
        forall|k: int| from <= k < j ==> s[k] != '\n',
        j < s.len() ==> s[j] == '\n',
    ensures
        find_nl(s, from) == j,
    decreases j - from,
{
    if from < j {
        lemma_find_nl_at(s, from + 1, j);
    }
}

/// Split a string into its lines, as `str::lines` does.
pub fn split_lines(s: &str) -> (r: Vec<String>)
    ensures
        views_of(r@) == lines_of(s@),
{
    let n = s.unicode_len();
    let mut out: Vec<String> = Vec::new();
    let mut start: usize = 0;
    let mut i: usize = 0;
    while i < n
        invariant
            n == s@.len(),
            0 <= start as int <= i as int <= n as int,
            forall|k: int| start <= k < i ==> s@[k] != '\n',
            lines_of(s@) =~= views_of(out@) + lines_from(s@, start as int),
        decreases n - i,
    {
        let ghost prev = out@;
        if s.get_char(i) == '\n' {
            let end = if i > start && s.get_char(i - 1) == '\r' {
                i - 1
            } else {
                i
            };
            let line = s.substring_char(start, end);
            out.push(String::from_str(line));
            proof {
                lemma_find_nl_at(s@, start as int, i as int);
                assert(strip_cr(s@.subrange(start as int, i as int)) =~= s@.subrange(
                    start as int,
                    end as int,
                ));
                assert(views_of(out@) =~= views_of(prev).push(line@));
                assert(lines_from(s@, start as int) =~= seq![line@] + lines_from(
                    s@,
                    (i + 1) as int,
                ));
                assert(views_of(prev) + lines_from(s@, start as int) =~= views_of(out@)
                    + lines_from(s@, (i + 1) as int));
            }
            start = i + 1;
        }
        i += 1;
    }
    if start < n {
        let line = s.substring_char(start, n);
        out.push(String::from_str(line));
        proof {
            lemma_find_nl_at(s@, start as int, n as int);
            assert(lines_from(s@, start as int) =~= seq![line@]);
            assert(views_of(out@) =~= views_of(out@.drop_last()).push(line@));
            assert(views_of(out@) =~= lines_of(s@));
        }
    } else {
        proof {
            assert(lines_from(s@, start as int) =~= Seq::<Seq<char>>::empty());
            assert(views_of(out@) =~= lines_of(s@));
        }
    }
    out
}

/// Whether this line begins with the timing marker.
fn line_has_marker(l: &String) -> (r: bool)
    ensures
        r == line_matches(l@),
{
    let m = "- TIME: ";
    proof {
        reveal_strlit("- TIME: ");
    }
    let ml = m.unicode_len();
    let ll = l.as_str().unicode_len();
    if ll < ml {
        return false;
    }
    let mut k: usize = 0;
    while k < ml
        invariant
            ml == marker().len(),
            ll == l@.len(),
            ll >= ml,
            0 <= k <= ml,
            m@ == marker(),
            forall|j: int| 0 <= j < k ==> l@[j] == marker()[j],
        decreases ml - k,
    {
        if l.as_str().get_char(k) != m.get_char(k) {
            proof {
                assert(l@.subrange(0, marker().len() as int)[k as int] == l@[k as int]);
            }
            return false;
        }
        k += 1;
    }
    proof {
        assert(l@.subrange(0, marker().len() as int) =~= marker());
    }
    true
}

/// The token after the marker of a matching line.
fn token_from(l: &String) -> (r: String)
    requires
        line_matches(l@),
    ensures
        r@ == token_of(l@),
{
    let m = "- TIME: ";
    proof {
        reveal_strlit("- TIME: ");
    }
    let ml = m.unicode_len();
    let ll = l.as_str().unicode_len();
    String::from_str(l.as_str().substring_char(ml, ll))
}

/// Scan `stdout` for the first line beginning with the timing marker and
/// return the remainder of that line, or nothing when no line carries the
/// marker.
pub fn parse_stdout(stdout: &str) -> (r: Option<String>)
    ensures
        match r {
            Some(t) => extract_spec(stdout@) == Some(t@),
            None => extract_spec(stdout@) is None,
        },
{
    let lines = split_lines(stdout);
    let n = lines.len();
    let mut i: usize = 0;
    while i < n
        invariant
            n == lines@.len(),
            views_of(lines@) == lines_of(stdout@),
            0 <= i <= n,
            extract_spec(stdout@) == first_match_from(lines_of(stdout@), i as int),
        decreases n - i,
    {
        proof {
            assert(views_of(lines@)[i as int] == lines@[i as int]@);
        }
        if line_has_marker(&lines[i]) {
            return Some(token_from(&lines[i]));
        }
        i += 1;
    }
    None
}

/// Extraction succeeds exactly when some line carries the marker; on a text
/// with no marked line it fails, however long the text is.
pub proof fn lemma_extract_none_iff(s: Seq<char>)
    ensures
        (extract_spec(s) is None) <==> (forall|i: int|
            0 <= i < lines_of(s).len() ==> !line_matches(lines_of(s)[i])),
{
    lemma_first_match_none_iff(lines_of(s), 0);
}

proof fn lemma_first_match_none_iff(ls: Seq<Seq<char>>, j: int)
    requires
        0 <= j <= ls.len(),
    ensures
        (first_match_from(ls, j) is None) <==> (forall|i: int|
            j <= i < ls.len() ==> !line_matches(ls[i])),
    decreases ls.len() - j,
{
    if j < ls.len() {
        lemma_first_match_none_iff(ls, j + 1);
    }
}

/// Extraction returns the token of the first matching line: the lines before
/// it, and everything after it, do not affect the result.
pub proof fn lemma_extract_first(s: Seq<char>, i: int)
    requires
        0 <= i < lines_of(s).len(),
        line_matches(lines_of(s)[i]),
        forall|k: int| 0 <= k < i ==> !line_matches(lines_of(s)[k]),
    ensures
        extract_spec(s) == Some(token_of(lines_of(s)[i])),
{
    lemma_first_match_skips(lines_of(s), 0, i);
}

proof fn lemma_first_match_skips(ls: Seq<Seq<char>>, j: int, i: int)
    requires
        0 <= j <= i < ls.len(),
        line_matches(ls[i]),
        forall|k: int| j <= k < i ==> !line_matches(ls[k]),
    ensures
        first_match_from(ls, j) == Some(token_of(ls[i])),
    decreases i - j,
{
    if j < i {
        lemma_first_match_skips(ls, j + 1, i);
    }
}

} // verus!
