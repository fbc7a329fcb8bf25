//! Substring search over the characters of a string, exact or ignoring ASCII case.

use vstd::prelude::*;

verus! {

/// The code point of `c`, with the ASCII capital letters mapped to their small forms.
pub open spec fn fold_case(c: char) -> int {
    if 'A' as int <= c as int && c as int <= 'Z' as int {
        c as int + 32
    } else {
        c as int
    }
}

/// Whether `a` and `b` count as the same character.
pub open spec fn same_char(a: char, b: char, ignore_case: bool) -> bool {
    if ignore_case {
        fold_case(a) == fold_case(b)
    } else {
        a == b
    }
}

/// `pattern` stands in `text` at offset `at`.
pub open spec fn occurs_at(text: Seq<char>, pattern: Seq<char>, at: int, ignore_case: bool) -> bool {
    &&& 0 <= at
    &&& at + pattern.len() <= text.len()
    &&& forall|k: int| 0 <= k < pattern.len() ==> same_char(text[at + k], #[trigger] pattern[k], ignore_case)
}

/// `pattern` stands somewhere in `text`.
pub open spec fn occurs_in(text: Seq<char>, pattern: Seq<char>, ignore_case: bool) -> bool {
    exists|at: int| occurs_at(text, pattern, at, ignore_case)
}

/// What occurs in a text still occurs in it when other text is put before
/// and after it.
pub proof fn lemma_occurs_in_longer(
    before: Seq<char>,
    text: Seq<char>,
    after: Seq<char>,
    pattern: Seq<char>,
    ignore_case: bool,
)
    requires
        occurs_in(text, pattern, ignore_case),
    ensures
        occurs_in(before + text + after, pattern, ignore_case),
{
    let at = choose|at: int| occurs_at(text, pattern, at, ignore_case);
    let longer = before + text + after;
    assert forall|k: int| 0 <= k < pattern.len() implies same_char(
        longer[before.len() + at + k],
        #[trigger] pattern[k],
        ignore_case,
    ) by {
        assert(longer[before.len() + at + k] == text[at + k]);
    }
    assert(occurs_at(longer, pattern, before.len() + at, ignore_case));
}

/// The characters of `s`, in order.
pub fn chars_of(s: &str) -> (v: Vec<char>)
    ensures
        v@ == s@,
{
    let mut v: Vec<char> = Vec::new();
    for c in it: s.chars()
        invariant
            it.seq() == s@,
            v@ == s@.take(it.index()),
    {
        v.push(c);
    }
    v
}

/// Whether two strings hold the same characters.
pub fn same_text(a: &str, b: &str) -> (same: bool)
    ensures
        same == (a@ == b@),
{
    a.to_owned() == b.to_owned()
}

/// The folded code point of `c`.
fn folded(c: char) -> (code: u32)
    ensures
        code == fold_case(c),
{
    let code: u32 = c as u32;
    if 65 <= code && code <= 90 {
        code + 32
    } else {
        code
    }
}

/// Compares two characters, exactly or ignoring ASCII case.
pub fn chars_match(a: char, b: char, ignore_case: bool) -> (same: bool)
    ensures
        same == same_char(a, b, ignore_case),
{
    if ignore_case {
        folded(a) == folded(b)
    } else {
        a == b
    }
}

/// Tests whether `pattern` stands in `text` at offset `at`.
fn matches_at(text: &Vec<char>, pattern: &Vec<char>, at: usize, ignore_case: bool) -> (found: bool)
    requires
        at + pattern.len() <= text.len(),
    ensures
        found == occurs_at(text@, pattern@, at as int, ignore_case),
{
    let mut k: usize = 0;
    while k < pattern.len()
        invariant
            k <= pattern.len(),
            at + pattern.len() <= text.len(),
            forall|j: int|
                0 <= j < k ==> same_char(text@[at + j], #[trigger] pattern@[j], ignore_case),
        decreases pattern.len() - k,
    {
        if !chars_match(text[at + k], pattern[k], ignore_case) {
            return false;
        }
        k += 1;
    }
    true
}

/// Searches `text` for `pattern`, exactly or ignoring ASCII case.
pub fn contains(text: &str, pattern: &str, ignore_case: bool) -> (found: bool)
    ensures
        found == occurs_in(text@, pattern@, ignore_case),
{
    let t = chars_of(text);
    let p = chars_of(pattern);
    if p.len() == 0 {
        assert(occurs_at(t@, p@, 0, ignore_case));
        return true;
    }
    if p.len() > t.len() {
        return false;
    }
    let last: usize = t.len() - p.len();
    let mut at: usize = 0;
    while at <= last
        invariant
            at <= last + 1,
            last == t.len() - p.len(),
            0 < p.len() <= t.len(),
            t@ == text@,
            p@ == pattern@,
            forall|i: int| 0 <= i < at ==> !occurs_at(t@, p@, i, ignore_case),
        decreases last + 1 - at,
    {
        if matches_at(&t, &p, at, ignore_case) {
            assert(occurs_at(t@, p@, at as int, ignore_case));
            return true;
        }
        at += 1;
    }
    false
}

} // verus!
