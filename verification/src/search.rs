use vstd::prelude::*;
use vstd::string::StrSliceExecFns;

verus! {

/// Whether `pat` is a literal substring of `line` (case-sensitive
/// containment; the empty pattern is contained in every line).
pub open spec fn line_has(line: Seq<char>, pat: Seq<char>) -> bool {
    exists|k: int|
        0 <= k && k + pat.len() <= line.len() && #[trigger] line.subrange(k, k + pat.len()) == pat
}

/// The matches of one pattern against the first `n` lines, in order:
/// one `(1-based line number, line)` pair per line that contains the
/// pattern.
pub open spec fn spec_matches_for(lines: Seq<Seq<char>>, pat: Seq<char>, n: int) -> Seq<
    (usize, Seq<char>),
>
    decreases n,
{
    if n <= 0 {
        Seq::empty()
    } else if line_has(lines[n - 1], pat) {
        spec_matches_for(lines, pat, n - 1).push((n as usize, lines[n - 1]))
    } else {
        spec_matches_for(lines, pat, n - 1)
    }
}

/// The matches of the first `p` patterns, pattern by pattern, each
/// scanned over all lines independently.
pub open spec fn spec_search(lines: Seq<Seq<char>>, pats: Seq<Seq<char>>, p: int) -> Seq<
    (usize, Seq<char>),
>
    decreases p,
{
    if p <= 0 {
        Seq::empty()
    } else {
        spec_search(lines, pats, p - 1) + spec_matches_for(lines, pats[p - 1], lines.len() as int)
    }
}

/// The matches of all patterns against all lines.
pub open spec fn spec_search_all(lines: Seq<Seq<char>>, pats: Seq<Seq<char>>) -> Seq<
    (usize, Seq<char>),
> {
    spec_search(lines, pats, pats.len() as int)
}

/// The mathematical value of a match list.
pub open spec fn matches_view(r: Seq<(usize, String)>) -> Seq<(usize, Seq<char>)> {
    Seq::new(r.len(), |i: int| (r[i].0, r[i].1@))
}

/// Whether `pat` occurs at character position `k` of `line`.
fn matches_at(line: &String, pat: &String, k: usize, line_len: usize, pat_len: usize) -> (b: bool)
    requires
        line_len == line@.len(),
        pat_len == pat@.len(),
        k + pat_len <= line_len,
    ensures
        b == (line@.subrange(k as int, k as int + pat@.len()) == pat@),
{
    let mut j: usize = 0;
    while j < pat_len
        invariant
            line_len == line@.len(),
            pat_len == pat@.len(),
            k + pat_len <= line_len,
            j <= pat_len,
            forall|j2: int| 0 <= j2 < j ==> line@[k + j2] == pat@[j2],
        decreases pat_len - j,
    {
        if line.as_str().get_char(k + j) != pat.as_str().get_char(j) {
            proof {
                if line@.subrange(k as int, k as int + pat@.len()) == pat@ {
                    assert(line@.subrange(k as int, k as int + pat@.len())[j as int] == line@[k
                        + j]);
                    assert(false);
                }
            }
            return false;
        }
        j += 1;
    }
    proof {
        assert(line@.subrange(k as int, k as int + pat@.len()) =~= pat@);
    }
    true
}

/// Whether the pattern is a literal substring of the line; the exact
/// substring test that the search executor applies, pattern by pattern
/// and line by line.
#[verifier::loop_isolation(false)]
pub fn contains_pattern(line: &String, pat: &String) -> (b: bool)
    ensures
        b == line_has(line@, pat@),
{
    let line_len = line.as_str().unicode_len();
    let pat_len = pat.as_str().unicode_len();
    if pat_len > line_len {
        return false;
    }
    if pat_len == 0 {
        proof {
            assert(line@.subrange(0, 0 + pat@.len() as int) =~= pat@);
        }
        return true;
    }
    let mut k: usize = 0;
    while k <= line_len - pat_len
        invariant
            k <= line_len - pat_len + 1,
            forall|k2: int| 0 <= k2 < k ==> #[trigger] line@.subrange(k2, k2 + pat@.len()) != pat@,
        decreases line_len - pat_len + 1 - k,
    {
        if matches_at(line, pat, k, line_len, pat_len) {
            return true;
        }
        k += 1;
    }
    proof {
        if line_has(line@, pat@) {
            let k2 = choose|k2: int|
                0 <= k2 && k2 + pat@.len() <= line@.len() && #[trigger] line@.subrange(
                    k2,
                    k2 + pat@.len(),
                ) == pat@;
            assert(false);
        }
    }
    false
}

/// Scans every line for every pattern and reports each match as a
/// `(1-based line number, line)` pair, pattern by pattern in pattern
/// order, lines in line order within a pattern.
#[verifier::loop_isolation(false)]
pub fn search(lines: &Vec<String>, patterns: &Vec<String>) -> (r: Vec<(usize, String)>)
    ensures
        matches_view(r@) == spec_search_all(lines.deep_view(), patterns.deep_view()),
{
    let mut r: Vec<(usize, String)> = Vec::new();
    proof {
        assert(matches_view(r@) =~= spec_search(lines.deep_view(), patterns.deep_view(), 0));
    }
    let mut p: usize = 0;
    while p < patterns.len()
        invariant
            p <= patterns.len(),
            matches_view(r@) == spec_search(lines.deep_view(), patterns.deep_view(), p as int),
        decreases patterns.len() - p,
    {
        let ghost pat_spec = patterns.deep_view()[p as int];
        proof {
            assert(pat_spec == patterns@[p as int]@);
            assert(matches_view(r@) + spec_matches_for(lines.deep_view(), pat_spec, 0)
                =~= matches_view(r@));
        }
        let mut idx: usize = 0;
        while idx < lines.len()
            invariant
                p < patterns.len(),
                idx <= lines.len(),
                matches_view(r@) == spec_search(lines.deep_view(), patterns.deep_view(), p as int)
                    + spec_matches_for(lines.deep_view(), pat_spec, idx as int),
            decreases lines.len() - idx,
        {
            proof {
                assert(lines.deep_view()[idx as int] == lines@[idx as int]@);
            }
            if contains_pattern(&lines[idx], &patterns[p]) {
                let line = lines[idx].clone();
                let ghost before = matches_view(r@);
                r.push((idx + 1, line));
                proof {
                    assert(matches_view(r@) =~= before.push(
                        ((idx + 1) as usize, lines.deep_view()[idx as int]),
                    ));
                }
            }
            idx += 1;
        }
        p += 1;
    }
    r
}

/// Every line that contains the pattern appears among the matches of
/// the first `n` lines, under its 1-based line number.
pub proof fn lemma_search_complete(lines: Seq<Seq<char>>, pat: Seq<char>, n: int, i: int)
    requires
        n <= lines.len() <= usize::MAX,
        0 <= i < n,
        line_has(lines[i], pat),
    ensures
        spec_matches_for(lines, pat, n).contains(((i + 1) as usize, lines[i])),
    decreases n,
{
    if i == n - 1 {
        let prev = spec_matches_for(lines, pat, n - 1);
        assert(spec_matches_for(lines, pat, n) == prev.push((n as usize, lines[n - 1])));
        assert(spec_matches_for(lines, pat, n)[prev.len() as int] == (
            (i + 1) as usize,
            lines[i],
        ));
    } else {
        lemma_search_complete(lines, pat, n - 1, i);
        let prev = spec_matches_for(lines, pat, n - 1);
        let j = choose|j: int| 0 <= j < prev.len() && prev[j] == ((i + 1) as usize, lines[i]);
        assert(spec_matches_for(lines, pat, n)[j] == ((i + 1) as usize, lines[i]));
    }
}

/// Every reported match of the first `n` lines names a line that truly
/// contains the pattern, paired with that line's 1-based number.
pub proof fn lemma_search_sound(lines: Seq<Seq<char>>, pat: Seq<char>, n: int, j: int)
    requires
        0 <= n <= lines.len() <= usize::MAX,
        0 <= j < spec_matches_for(lines, pat, n).len(),
    ensures
        ({
            let e = spec_matches_for(lines, pat, n)[j];
            1 <= e.0 <= n && lines[e.0 - 1] == e.1 && line_has(lines[e.0 - 1], pat)
        }),
    decreases n,
{
    if n <= 0 {
    } else {
        let prev = spec_matches_for(lines, pat, n - 1);
        if j < prev.len() {
            lemma_search_sound(lines, pat, n - 1, j);
        }
    }
}

/// The round trip of searching one pattern: the matches are exactly the
/// lines that contain the pattern as a literal substring, each paired
/// with its correct 1-based line number — every containing line is
/// reported, and no other line is.
pub proof fn lemma_search_round_trip(lines: Seq<Seq<char>>, pat: Seq<char>)
    requires
        lines.len() <= usize::MAX,
    ensures
        forall|i: int|
            0 <= i < lines.len() && line_has(#[trigger] lines[i], pat) ==> spec_search_all(
                lines,
                seq![pat],
            ).contains(((i + 1) as usize, lines[i])),
        forall|j: int|
            0 <= j < spec_search_all(lines, seq![pat]).len() ==> ({
                let e = #[trigger] spec_search_all(lines, seq![pat])[j];
                1 <= e.0 <= lines.len() && lines[e.0 - 1] == e.1 && line_has(lines[e.0 - 1], pat)
            }),
{
    assert(spec_search(lines, seq![pat], 0) =~= Seq::<(usize, Seq<char>)>::empty());
    assert(seq![pat][0] == pat);
    assert(spec_search_all(lines, seq![pat]) =~= spec_matches_for(
        lines,
        pat,
        lines.len() as int,
    ));
    assert forall|i: int|
        0 <= i < lines.len() && line_has(#[trigger] lines[i], pat) implies spec_search_all(
        lines,
        seq![pat],
    ).contains(((i + 1) as usize, lines[i])) by {
        lemma_search_complete(lines, pat, lines.len() as int, i);
    }
    assert forall|j: int| 0 <= j < spec_search_all(lines, seq![pat]).len() implies ({
        let e = #[trigger] spec_search_all(lines, seq![pat])[j];
        1 <= e.0 <= lines.len() && lines[e.0 - 1] == e.1 && line_has(lines[e.0 - 1], pat)
    }) by {
        lemma_search_sound(lines, pat, lines.len() as int, j);
    }
}

} // verus!
