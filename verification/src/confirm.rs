//! The confirmation gate: only the exact input `y` or `Y`, once surrounding
//! whitespace is trimmed, authorizes deletion. Everything else — any other
//! text, an empty line, or a failed read — declines.

use vstd::prelude::*;

verus! {

/// ASCII whitespace, the characters trimmed around console input.
pub open spec fn is_space(c: char) -> bool {
    c == ' ' || c == '\t' || c == '\n' || c == '\r' || c == '\x0B' || c == '\x0C'
}

pub open spec fn drop_leading_spaces(s: Seq<char>) -> Seq<char>
    decreases s.len(),
{
    if s.len() > 0 && is_space(s[0]) {
        drop_leading_spaces(s.subrange(1, s.len() as int))
    } else {
        s
    }
}

pub open spec fn drop_trailing_spaces(s: Seq<char>) -> Seq<char>
    decreases s.len(),
{
    if s.len() > 0 && is_space(s.last()) {
        drop_trailing_spaces(s.drop_last())
    } else {
        s
    }
}

/// The input with surrounding whitespace removed.
pub open spec fn spec_trimmed(s: Seq<char>) -> Seq<char> {
    drop_trailing_spaces(drop_leading_spaces(s))
}

/// An affirmative answer is exactly `y` or `Y` after trimming.
pub open spec fn spec_affirmative(s: Seq<char>) -> bool {
    let t = spec_trimmed(s);
    t.len() == 1 && (t[0] == 'y' || t[0] == 'Y')
}

/// The full confirmation decision: a line that trims to `y` or `Y`
/// confirms; any other line, and a failed read, declines.
pub open spec fn spec_confirmed(input: Option<&str>) -> bool {
    match input {
        Some(s) => spec_affirmative(s@),
        None => false,
    }
}

proof fn lemma_drop_leading_to(s: Seq<char>, f: int)
    requires
        0 <= f <= s.len(),
        forall|j: int| 0 <= j < f ==> is_space(s[j]),
        f < s.len() ==> !is_space(s[f]),
    ensures
        drop_leading_spaces(s) == s.subrange(f, s.len() as int),
    decreases f,
{
    if f == 0 {
        assert(s.subrange(0, s.len() as int) =~= s);
    } else {
        let t = s.subrange(1, s.len() as int);
        lemma_drop_leading_to(t, f - 1);
        assert(t.subrange(f - 1, t.len() as int) =~= s.subrange(f, s.len() as int));
    }
}

proof fn lemma_drop_trailing_to(s: Seq<char>, e: int)
    requires
        0 <= e <= s.len(),
        forall|j: int| e <= j < s.len() ==> is_space(s[j]),
        e > 0 ==> !is_space(s[e - 1]),
    ensures
        drop_trailing_spaces(s) == s.subrange(0, e),
    decreases s.len(),
{
    if e == s.len() {
        assert(s.subrange(0, s.len() as int) =~= s);
    } else {
        let t = s.drop_last();
        assert(t =~= s.subrange(0, s.len() - 1));
        lemma_drop_trailing_to(t, e);
        assert(t.subrange(0, e) =~= s.subrange(0, e));
    }
}

proof fn lemma_trimmed_is_subrange(s: Seq<char>, f: int, e: int)
    requires
        0 <= f < e <= s.len(),
        forall|j: int| 0 <= j < f ==> is_space(s[j]),
        forall|j: int| e <= j < s.len() ==> is_space(s[j]),
        !is_space(s[f]),
        !is_space(s[e - 1]),
    ensures
        spec_trimmed(s) == s.subrange(f, e),
{
    lemma_drop_leading_to(s, f);
    let t = s.subrange(f, s.len() as int);
    lemma_drop_trailing_to(t, e - f);
    assert(t.subrange(0, e - f) =~= s.subrange(f, e));
}

fn is_space_char(c: char) -> (r: bool)
    ensures
        r == is_space(c),
{
    c == ' ' || c == '\t' || c == '\n' || c == '\r' || c == '\x0B' || c == '\x0C'
}

/// Decide whether a line of input, taken verbatim from the console, is the
/// exact affirmative answer.
pub fn is_affirmative(s: &str) -> (r: bool)
    ensures
        r == spec_affirmative(s@),
{
    let n = s.unicode_len();
    let mut f: usize = 0;
    while f < n && is_space_char(s.get_char(f))
        invariant
            f <= n,
            n == s@.len(),
            forall|j: int| 0 <= j < f ==> is_space(s@[j]),
        decreases n - f,
    {
        f += 1;
    }
    if f == n {
        proof {
            lemma_drop_leading_to(s@, n as int);
            assert(s@.subrange(n as int, n as int).len() == 0);
        }
        return false;
    }
    let mut l: usize = n - 1;
    while is_space_char(s.get_char(l))
        invariant
            f <= l < n,
            n == s@.len(),
            !is_space(s@[f as int]),
            forall|j: int| l < j < n ==> is_space(s@[j]),
        decreases l,
    {
        l -= 1;
    }
    proof {
        lemma_trimmed_is_subrange(s@, f as int, l + 1 as int);
    }
    if l != f {
        return false;
    }
    let c = s.get_char(f);
    c == 'y' || c == 'Y'
}

/// The confirmation gate over the read attempt: `None` stands for a failed
/// read and always declines.
pub fn confirm_deletion(input: Option<&str>) -> (r: bool)
    ensures
        r == spec_confirmed(input),
{
    match input {
        Some(s) => is_affirmative(s),
        None => false,
    }
}

} // verus!
