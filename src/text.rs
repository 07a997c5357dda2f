//! Character-level helpers shared by the parsers and the path rules.
use vstd::prelude::*;
use vstd::string::*;

verus! {

/// `pre` occurs in `s` starting at position `i`.
pub open spec fn occurs_at(s: Seq<char>, i: int, pre: Seq<char>) -> bool {
    0 <= i && i + pre.len() <= s.len() && s.subrange(i, i + pre.len()) == pre
}

/// `pre` is a prefix of `s`.
pub open spec fn starts_with(s: Seq<char>, pre: Seq<char>) -> bool {
    occurs_at(s, 0, pre)
}

/// The characters of a string slice, in order.
pub fn to_chars(s: &str) -> (v: Vec<char>)
    ensures
        v@ == s@,
{
    let n = s.unicode_len();
    let mut v: Vec<char> = Vec::new();
    let mut i: usize = 0;
    while i < n
        invariant
            n == s@.len(),
            i <= n,
            v@ == s@.subrange(0, i as int),
        decreases n - i,
    {
        v.push(s.get_char(i));
        i = i + 1;
    }
    assert(v@ == s@);
    v
}

/// Tests whether `pre` occurs in `s` at position `i`.
pub fn occurs_at_exec(s: &Vec<char>, i: usize, pre: &Vec<char>) -> (r: bool)
    ensures
        r == occurs_at(s@, i as int, pre@),
{
    if i > s.len() || pre.len() > s.len() - i {
        return false;
    }
    let mut k: usize = 0;
    while k < pre.len()
        invariant
            i + pre@.len() <= s@.len(),
            s@.len() == s.len(),
            k <= pre@.len(),
            forall|j: int| 0 <= j < k ==> s@[i + j] == pre@[j],
        decreases pre.len() - k,
    {
        if s[i + k] != pre[k] {
            assert(s@.subrange(i as int, i + pre@.len())[k as int] != pre@[k as int]);
            return false;
        }
        k = k + 1;
    }
    assert(s@.subrange(i as int, i + pre@.len()) =~= pre@);
    true
}

/// Whether two strings hold the same characters.
pub fn same_text(a: &String, b: &String) -> (r: bool)
    ensures
        r == (a@ == b@),
{
    a.eq(b)
}

/// A new string holding the characters `from..to` of `s`.
pub fn substring(s: &str, from: usize, to: usize) -> (r: String)
    requires
        from <= to <= s@.len(),
    ensures
        r@ == s@.subrange(from as int, to as int),
{
    String::from_str(s.substring_char(from, to))
}

} // verus!
