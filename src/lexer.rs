//! Whitespace, comments, tokens and keywords of the configuration language.
//!
//! Every scanner works on the characters of the input and a position in it,
//! and is specified by a spec function of the same name.
use vstd::prelude::*;

verus! {

/// Blank characters: space, tab, carriage return, line feed.
pub open spec fn is_blank(c: char) -> bool {
    c == ' ' || c == '\t' || c == '\r' || c == '\n'
}

/// The character classes that the scanners run over.
#[derive(Debug, Clone, Copy, PartialEq, Eq)]
pub enum CharClass {
    /// Anything but a blank or `#`: the characters of a token.
    Token,
    /// Anything but a blank, `#` or `}`: the characters of a list item.
    Item,
    /// Anything but a blank, `#`, `=` or a bracket: a variable name.
    Name,
    /// Anything but a line break: the text of a comment.
    Line,
}

/// `c` belongs to class `k`.
pub open spec fn in_class(c: char, k: CharClass) -> bool {
    match k {
        CharClass::Token => !is_blank(c) && c != '#',
        CharClass::Item => !is_blank(c) && c != '#' && c != '}',
        CharClass::Name => !is_blank(c) && c != '#' && c != '=' && c != '{' && c != '}' && c != '['
            && c != ']' && c != '(' && c != ')',
        CharClass::Line => c != '\n' && c != '\r',
    }
}

fn in_class_exec(c: char, k: CharClass) -> (r: bool)
    ensures
        r == in_class(c, k),
{
    let blank = c == ' ' || c == '\t' || c == '\r' || c == '\n';
    match k {
        CharClass::Token => !blank && c != '#',
        CharClass::Item => !blank && c != '#' && c != '}',
        CharClass::Name => !blank && c != '#' && c != '=' && c != '{' && c != '}' && c != '['
            && c != ']' && c != '(' && c != ')',
        CharClass::Line => c != '\n' && c != '\r',
    }
}

/// The end of the run of class-`k` characters that starts at `i`.
pub open spec fn scan(s: Seq<char>, i: int, k: CharClass) -> int
    decreases s.len() - i,
{
    if 0 <= i < s.len() && in_class(s[i], k) {
        scan(s, i + 1, k)
    } else {
        i
    }
}

/// A non-empty run of class-`k` characters at `i`: its end.
pub open spec fn run(s: Seq<char>, i: int, k: CharClass) -> Option<int> {
    if scan(s, i, k) > i {
        Some(scan(s, i, k))
    } else {
        None
    }
}

/// The end of the whitespace at `i`. Whitespace is blanks and comments; a
/// comment runs from `#` to the end of its line. `in_comment` says whether
/// position `i` lies inside a comment.
pub open spec fn ws_scan(s: Seq<char>, i: int, in_comment: bool) -> int
    decreases s.len() - i,
{
    if i < 0 || i >= s.len() {
        i
    } else if in_comment {
        if s[i] == '\n' || s[i] == '\r' {
            ws_scan(s, i + 1, false)
        } else {
            ws_scan(s, i + 1, true)
        }
    } else if is_blank(s[i]) {
        ws_scan(s, i + 1, false)
    } else if s[i] == '#' {
        ws_scan(s, i + 1, true)
    } else {
        i
    }
}

/// Optional whitespace at `i`: where it ends (`i` itself when there is none).
pub open spec fn opt_ws(s: Seq<char>, i: int) -> int {
    ws_scan(s, i, false)
}

/// Required whitespace at `i`: where it ends, if there is any.
pub open spec fn ws(s: Seq<char>, i: int) -> Option<int> {
    if opt_ws(s, i) > i {
        Some(opt_ws(s, i))
    } else {
        None
    }
}

/// `c` equals the keyword character `k` when ASCII letters are compared
/// without regard to case.
pub open spec fn same_letter(c: char, k: char) -> bool {
    c == k || ('a' <= k <= 'z' && (c as u32) as int + 32 == (k as u32) as int)
}

/// The keyword `t` (lower case) stands at `i`, in any case.
pub open spec fn keyword_at(s: Seq<char>, i: int, t: Seq<char>) -> bool {
    0 <= i && i + t.len() <= s.len() && forall|j: int| 0 <= j < t.len() ==> same_letter(#[trigger] s[i + j], t[j])
}

/// The keyword `t` at `i`: where it ends.
pub open spec fn tag(s: Seq<char>, i: int, t: Seq<char>) -> Option<int> {
    if keyword_at(s, i, t) {
        Some(i + t.len())
    } else {
        None
    }
}

/// The whitespace scanners never move backwards and stay in range.
pub proof fn lemma_ws_scan(s: Seq<char>, i: int, c: bool)
    requires
        0 <= i <= s.len(),
    ensures
        i <= ws_scan(s, i, c) <= s.len(),
    decreases s.len() - i,
{
    if i < s.len() {
        lemma_ws_scan(s, i + 1, true);
        lemma_ws_scan(s, i + 1, false);
    }
}

/// Computes [`opt_ws`].
pub fn skip_ws(s: &Vec<char>, i: usize) -> (r: usize)
    requires
        i <= s@.len(),
    ensures
        r as int == opt_ws(s@, i as int),
        i <= r <= s@.len(),
{
    let mut j = i;
    let mut in_comment = false;
    proof {
        lemma_ws_scan(s@, i as int, false);
    }
    while j < s.len()
        invariant
            i <= j <= s@.len(),
            ws_scan(s@, j as int, in_comment) == opt_ws(s@, i as int),
        decreases s.len() - j,
    {
        let c = s[j];
        if in_comment {
            if c == '\n' || c == '\r' {
                in_comment = false;
            }
        } else if c == ' ' || c == '\t' || c == '\r' || c == '\n' {
        } else if c == '#' {
            in_comment = true;
        } else {
            return j;
        }
        j = j + 1;
    }
    j
}

/// Computes [`ws`].
pub fn req_ws(s: &Vec<char>, i: usize) -> (r: Option<usize>)
    requires
        i <= s@.len(),
    ensures
        match r {
            Some(e) => ws(s@, i as int) == Some(e as int) && i < e <= s@.len(),
            None => ws(s@, i as int) is None,
        },
{
    let e = skip_ws(s, i);
    if e > i {
        Some(e)
    } else {
        None
    }
}

/// Computes [`scan`].
pub fn scan_exec(s: &Vec<char>, i: usize, k: CharClass) -> (r: usize)
    requires
        i <= s@.len(),
    ensures
        r as int == scan(s@, i as int, k),
        i <= r <= s@.len(),
{
    let mut j = i;
    while j < s.len()
        invariant
            i <= j <= s@.len(),
            scan(s@, j as int, k) == scan(s@, i as int, k),
        ensures
            scan(s@, i as int, k) == j,
        decreases s.len() - j,
    {
        if !in_class_exec(s[j], k) {
            break;
        }
        j = j + 1;
    }
    j
}

/// Computes [`run`].
pub fn run_exec(s: &Vec<char>, i: usize, k: CharClass) -> (r: Option<usize>)
    requires
        i <= s@.len(),
    ensures
        match r {
            Some(e) => run(s@, i as int, k) == Some(e as int) && i < e <= s@.len(),
            None => run(s@, i as int, k) is None,
        },
{
    let j = scan_exec(s, i, k);
    if j > i {
        Some(j)
    } else {
        None
    }
}

/// Computes [`tag`] for the keyword `t`.
pub fn tag_exec(s: &Vec<char>, i: usize, t: &str) -> (r: Option<usize>)
    requires
        i <= s@.len(),
    ensures
        match r {
            Some(e) => tag(s@, i as int, t@) == Some(e as int) && i <= e <= s@.len(),
            None => tag(s@, i as int, t@) is None,
        },
{
    let n = t.unicode_len();
    if n > s.len() - i {
        return None;
    }
    let mut j: usize = 0;
    while j < n
        invariant
            n == t@.len(),
            i + n <= s@.len(),
            s@.len() == s.len(),
            j <= n,
            forall|m: int| 0 <= m < j ==> same_letter(#[trigger] s@[i + m], t@[m]),
        decreases n - j,
    {
        let c = s[i + j];
        let k = t.get_char(j);
        let same = c == k || ('a' <= k && k <= 'z' && (k as u32) >= 32 && (c as u32) == (k as u32)
            - 32);
        if !same {
            assert(!same_letter(s@[i + j], t@[j as int]));
            return None;
        }
        j = j + 1;
    }
    Some(i + n)
}

} // verus!
