use vstd::prelude::*;

verus! {

/// `c` is `lower`, or the upper-case form of `lower` when `lower` is an
/// ASCII lower-case letter.
pub open spec fn char_matches_ci(c: char, lower: char) -> bool {
    c == lower || ('a' <= lower && lower <= 'z' && c as u32 + 32 == lower as u32)
}

/// The characters of `s` from `at` on spell `word`, ignoring ASCII case.
pub open spec fn matches_ci_at(s: Seq<char>, word: Seq<char>, at: int) -> bool {
    &&& 0 <= at
    &&& at + word.len() <= s.len()
    &&& forall|k: int| 0 <= k < word.len() ==> char_matches_ci(#[trigger] s[at + k], word[k])
}

/// `s` equals `word` ignoring ASCII case.
pub open spec fn equals_ci(s: Seq<char>, word: Seq<char>) -> bool {
    s.len() == word.len() && matches_ci_at(s, word, 0)
}

pub fn char_matches_ci_exec(c: char, lower: char) -> (r: bool)
    ensures
        r == char_matches_ci(c, lower),
{
    c == lower || ('a' <= lower && lower <= 'z' && (c as u32) + 32 == lower as u32)
}

/// Whether `word` stands in `s` from character `at` on, ignoring ASCII case.
pub fn matches_ci_at_exec(s: &str, word: &str, at: usize) -> (r: bool)
    ensures
        r == matches_ci_at(s@, word@, at as int),
{
    let n = s.unicode_len();
    let m = word.unicode_len();
    if at > n || m > n - at {
        return false;
    }
    let mut k: usize = 0;
    while k < m
        invariant
            n == s@.len(),
            m == word@.len(),
            at + m <= n,
            k <= m,
            forall|j: int| 0 <= j < k ==> char_matches_ci(#[trigger] s@[at + j], word@[j]),
        decreases m - k,
    {
        if !char_matches_ci_exec(s.get_char(at + k), word.get_char(k)) {
            assert(!char_matches_ci(s@[at + k as int], word@[k as int]));
            return false;
        }
        k = k + 1;
    }
    true
}

/// Whether `s` equals `word` ignoring ASCII case.
pub fn equals_ci_exec(s: &str, word: &str) -> (r: bool)
    ensures
        r == equals_ci(s@, word@),
{
    s.unicode_len() == word.unicode_len() && matches_ci_at_exec(s, word, 0)
}

/// Whether two strings hold the same characters.
pub fn same_text(a: &str, b: &str) -> (r: bool)
    ensures
        r == (a@ == b@),
{
    let n = a.unicode_len();
    if n != b.unicode_len() {
        return false;
    }
    let mut k: usize = 0;
    while k < n
        invariant
            n == a@.len(),
            n == b@.len(),
            k <= n,
            forall|j: int| 0 <= j < k ==> a@[j] == b@[j],
        decreases n - k,
    {
        if a.get_char(k) != b.get_char(k) {
            return false;
        }
        k = k + 1;
    }
    assert(a@ =~= b@);
    true
}

} // verus!
