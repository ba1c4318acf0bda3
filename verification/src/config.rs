//! The configuration text: splitting the file content into candidate root
//! lines, and the rule that skips blank and comment lines.

use vstd::prelude::*;

verus! {

/// Index of the first occurrence of `c` in `s`, or `s.len()` when absent.
pub open spec fn find_char(s: Seq<char>, c: char) -> int
    decreases s.len(),
{
    if s.len() == 0 {
        0
    } else if s[0] == c {
        0
    } else {
        1 + find_char(s.subrange(1, s.len() as int), c)
    }
}

proof fn lemma_find_char_unique(s: Seq<char>, c: char, i: int)
    requires
        0 <= i <= s.len(),
        forall|j: int| 0 <= j < i ==> s[j] != c,
        i < s.len() ==> s[i] == c,
    ensures
        find_char(s, c) == i,
    decreases s.len(),
{
    if s.len() == 0 {
    } else if s[0] == c {
        assert(i == 0);
    } else {
        let t = s.subrange(1, s.len() as int);
        assert(forall|j: int| 0 <= j < i - 1 ==> t[j] == s[j + 1] && s[j + 1] != c);
        lemma_find_char_unique(t, c, i - 1);
    }
}

/// The lines of the configuration text: the pieces between newline
/// characters, in order. A text with no newline is a single line; every
/// newline ends a piece, so a trailing newline yields a final empty line.
pub open spec fn spec_split_lines(s: Seq<char>) -> Seq<Seq<char>>
    decreases s.len(),
{
    let i = find_char(s, '\n');
    if i == s.len() {
        seq![s]
    } else if 0 <= i < s.len() {
        seq![s.subrange(0, i)] + spec_split_lines(s.subrange(i + 1, s.len() as int))
    } else {
        seq![s]
    }
}

/// A candidate line is scanned when it is neither empty nor a comment line
/// beginning with `#`.
pub open spec fn spec_scannable_root(line: Seq<char>) -> bool {
    line.len() > 0 && line[0] != '#'
}

pub open spec fn spec_scannable_of(lines: Seq<String>) -> Seq<String> {
    lines.filter(|s: String| spec_scannable_root(s@))
}

/// Split the configuration text into its lines, verbatim: no trimming, blank
/// and comment lines included.
pub fn config_lines(text: &str) -> (r: Vec<String>)
    ensures
        r@.map_values(|s: String| s@) == spec_split_lines(text@),
{
    let n = text.unicode_len();
    let mut lines: Vec<String> = Vec::new();
    let mut start: usize = 0;
    let mut i: usize = 0;
    proof {
        assert(text@.subrange(0, n as int) =~= text@);
        assert(lines@.map_values(|s: String| s@) + spec_split_lines(text@) =~= spec_split_lines(
            text@,
        ));
    }
    while i < n
        invariant
            start <= i <= n,
            n == text@.len(),
            forall|j: int| start <= j < i ==> text@[j] != '\n',
            lines@.map_values(|s: String| s@) + spec_split_lines(
                text@.subrange(start as int, n as int),
            ) == spec_split_lines(text@),
        decreases n - i,
    {
        if text.get_char(i) == '\n' {
            let piece = text.substring_char(start, i);
            let ghost old_lines = lines@;
            lines.push(String::from_str(piece));
            proof {
                let rest = text@.subrange(start as int, n as int);
                let k = i - start;
                assert(forall|j: int| 0 <= j < k ==> rest[j] == text@[start + j]);
                lemma_find_char_unique(rest, '\n', k);
                assert(rest.subrange(0, k) =~= text@.subrange(start as int, i as int));
                assert(rest.subrange(k + 1, rest.len() as int) =~= text@.subrange(
                    i + 1 as int,
                    n as int,
                ));
                assert(lines@.map_values(|s: String| s@) =~= old_lines.map_values(
                    |s: String| s@,
                ).push(piece@));
                assert(lines@.map_values(|s: String| s@) + spec_split_lines(
                    text@.subrange(i + 1 as int, n as int),
                ) =~= old_lines.map_values(|s: String| s@) + spec_split_lines(rest));
            }
            start = i + 1;
        }
        i += 1;
    }
    let piece = text.substring_char(start, n);
    let ghost old_lines = lines@;
    lines.push(String::from_str(piece));
    proof {
        let rest = text@.subrange(start as int, n as int);
        assert(forall|j: int| 0 <= j < rest.len() ==> rest[j] == text@[start + j]);
        lemma_find_char_unique(rest, '\n', rest.len() as int);
        assert(spec_split_lines(rest) == seq![rest]);
        assert(lines@.map_values(|s: String| s@) =~= old_lines.map_values(|s: String| s@).push(
            piece@,
        ));
        assert(piece@ == rest);
        assert(lines@.map_values(|s: String| s@) =~= old_lines.map_values(|s: String| s@)
            + seq![rest]);
    }
    lines
}

/// Decide whether a configuration line names a root to scan: blank lines and
/// lines starting with `#` are skipped.
pub fn is_scannable_root(line: &str) -> (r: bool)
    ensures
        r == spec_scannable_root(line@),
{
    if line.is_empty() {
        false
    } else {
        line.get_char(0) != '#'
    }
}

/// Keep only the lines that name a root to scan, in order.
pub fn select_scannable_roots(lines: &Vec<String>) -> (r: Vec<String>)
    ensures
        r@ == spec_scannable_of(lines@),
{
    let mut roots: Vec<String> = Vec::new();
    let n = lines.len();
    let mut i: usize = 0;
    while i < n
        invariant
            i <= n,
            n == lines@.len(),
            roots@ == spec_scannable_of(lines@.subrange(0, i as int)),
        decreases n - i,
    {
        if is_scannable_root(lines[i].as_str()) {
            roots.push(lines[i].clone());
        }
        proof {
            reveal(Seq::filter);
            assert(lines@.subrange(0, i + 1 as int).drop_last() =~= lines@.subrange(0, i as int));
            assert(lines@.subrange(0, i + 1 as int).last() == lines@[i as int]);
        }
        i += 1;
    }
    proof {
        assert(lines@.subrange(0, n as int) =~= lines@);
    }
    roots
}

/// A configuration of only blank and comment lines yields nothing to scan.
pub proof fn lemma_comments_only_nothing_scanned(lines: Seq<String>)
    requires
        forall|i: int| 0 <= i < lines.len() ==> !spec_scannable_root(#[trigger] lines[i]@),
    ensures
        spec_scannable_of(lines) =~= Seq::<String>::empty(),
    decreases lines.len(),
{
    reveal(Seq::filter);
    if lines.len() > 0 {
        lemma_comments_only_nothing_scanned(lines.drop_last());
    }
}

} // verus!
