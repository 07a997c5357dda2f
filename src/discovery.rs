//! Dependency discovery: which files are sources, which lines pull in other
//! files, where those files are looked for, and what a compile database
//! entry contributes. Reading files and resolving paths on disk happen
//! outside the library.
use vstd::prelude::*;
use crate::config::strs;
use crate::lexer::same_letter;
use crate::text::occurs_at;
use crate::path_mapper::{path_join, path_join_exec};
use crate::text::{substring, to_chars};

verus! {

#[verifier::external_type_specification]
#[verifier::external_body]
pub struct ExRegex(regex::Regex);

/// The kind of a file, by its extension.
#[derive(Debug, Clone, Copy, PartialEq, Eq, Structural, Hash, PartialOrd, Ord)]
pub enum FileType {
    Header,
    Source,
    Unknown,
}

/// `s` equals the lower case word `w`, ignoring ASCII case.
pub open spec fn equals_ignoring_case(s: Seq<char>, w: Seq<char>) -> bool {
    s.len() == w.len() && forall|i: int| 0 <= i < s.len() ==> same_letter(#[trigger] s[i], w[i])
}

/// The extension of the file name of `p` (after its last dot), if it has
/// one; a dot that starts the file name starts no extension.
pub open spec fn extension(p: Seq<char>) -> Option<Seq<char>> {
    let d = crate::graph::ext_dot(p, p.len() as int);
    if d >= 0 {
        Some(p.skip(d + 1))
    } else {
        None
    }
}

/// The kind of file `p`: `h` and `hpp` are headers; `c`, `cc`, `cpp` and
/// `cxx` are sources; case does not matter.
pub open spec fn file_type(p: Seq<char>) -> FileType {
    match extension(p) {
        Some(e) => if equals_ignoring_case(e, "h"@) || equals_ignoring_case(e, "hpp"@) {
            FileType::Header
        } else if equals_ignoring_case(e, "c"@) || equals_ignoring_case(e, "cc"@) || equals_ignoring_case(
            e,
            "cpp"@,
        ) || equals_ignoring_case(e, "cxx"@) {
            FileType::Source
        } else {
            FileType::Unknown
        },
        None => FileType::Unknown,
    }
}

fn equals_ignoring_case_exec(s: &Vec<char>, from: usize, w: &str) -> (r: bool)
    requires
        from <= s@.len(),
    ensures
        r == equals_ignoring_case(s@.skip(from as int), w@),
{
    let n = w.unicode_len();
    if s.len() - from != n {
        return false;
    }
    let mut i: usize = 0;
    while i < n
        invariant
            n == w@.len(),
            from + n == s@.len(),
            s@.len() == s.len(),
            i <= n,
            forall|j: int| 0 <= j < i ==> same_letter(#[trigger] s@.skip(from as int)[j], w@[j]),
        decreases n - i,
    {
        let c = s[from + i];
        let k = w.get_char(i);
        let same = c == k || ('a' <= k && k <= 'z' && (k as u32) >= 32 && (c as u32) == (k as u32) - 32);
        assert(s@.skip(from as int)[i as int] == c);
        if !same {
            return false;
        }
        i = i + 1;
    }
    true
}

impl FileType {
    /// The kind of file `path`: see [`file_type`].
    pub fn of(path: &str) -> (r: FileType)
        ensures
            r == file_type(path@),
    {
        let pc = to_chars(path);
        let n = pc.len();
        let mut i = n;
        let mut dot: Option<usize> = None;
        while i > 0
            invariant_except_break
                dot is None,
            invariant
                i <= n,
                n == pc@.len(),
                pc@ == path@,
                crate::graph::ext_dot(path@, n as int) == crate::graph::ext_dot(path@, i as int),
            ensures
                match dot {
                    Some(d) => crate::graph::ext_dot(path@, n as int) == d && d < n,
                    None => crate::graph::ext_dot(path@, n as int) == -1,
                },
            decreases i,
        {
            let c = pc[i - 1];
            if c == '/' {
                break;
            }
            if c == '.' {
                if i - 1 == 0 || pc[i - 2] == '/' {
                    break;
                }
                dot = Some(i - 1);
                break;
            }
            i = i - 1;
        }
        let d = match dot {
            Some(d) => d,
            None => return FileType::Unknown,
        };
        assert(path@.skip(d + 1) =~= pc@.skip(d + 1));
        if equals_ignoring_case_exec(&pc, d + 1, "h") || equals_ignoring_case_exec(&pc, d + 1, "hpp") {
            FileType::Header
        } else if equals_ignoring_case_exec(&pc, d + 1, "c") || equals_ignoring_case_exec(&pc, d + 1, "cc")
            || equals_ignoring_case_exec(&pc, d + 1, "cpp") || equals_ignoring_case_exec(&pc, d + 1, "cxx") {
            FileType::Source
        } else {
            FileType::Unknown
        }
    }
}

/// How a directive names the file it pulls in.
#[derive(Debug, Clone, Copy, PartialEq, Eq, Structural, Hash)]
pub enum DirectiveKind {
    /// `"name"`: looked for next to the file first.
    Quoted,
    /// `<name>`: looked for in the search directories only.
    Angled,
}

/// The characters that the pattern's `\s` matches: Unicode white space.
pub open spec fn is_space(c: char) -> bool {
    let u = c as u32;
    (9 <= u <= 13) || u == 32 || u == 0x85 || u == 0xA0 || u == 0x1680 || (0x2000 <= u <= 0x200A)
        || u == 0x2028 || u == 0x2029 || u == 0x202F || u == 0x205F || u == 0x3000
}

/// The end of the white space that starts at `i`.
pub open spec fn skip_space(s: Seq<char>, i: int) -> int
    decreases s.len() - i,
{
    if 0 <= i < s.len() && is_space(s[i]) {
        skip_space(s, i + 1)
    } else {
        i
    }
}

/// The end of the run of characters other than `"` and `>` that starts at `i`.
pub open spec fn name_end(s: Seq<char>, i: int) -> int
    decreases s.len() - i,
{
    if 0 <= i < s.len() && s[i] != '"' && s[i] != '>' {
        name_end(s, i + 1)
    } else {
        i
    }
}

/// The directive word, `#` followed by the name of the directive that pulls in
/// another file.
pub open spec fn directive_word() -> Seq<char> {
    seq!['#', 'i', 'n', 'c', 'l', 'u', 'd', 'e']
}

/// What the directive pattern captures on a line: white space, the directive
/// word, white space, an opening `"` or `<` (the first capture), the longest
/// run without `"` and `>` (the second capture), then a closing `"` or `>`.
pub open spec fn directive_captures(line: Seq<char>) -> Option<(Seq<char>, Seq<char>)> {
    let a = skip_space(line, 0);
    let w = directive_word();
    if occurs_at(line, a, w) {
        let b = skip_space(line, a + w.len());
        if b < line.len() && (line[b] == '"' || line[b] == '<') {
            let e = name_end(line, b + 1);
            if e < line.len() {
                Some((seq![line[b]], line.subrange(b + 1, e)))
            } else {
                None
            }
        } else {
            None
        }
    } else {
        None
    }
}

/// The view of an optional pair of strings.
pub open spec fn opt_pair(r: Option<(String, String)>) -> Option<(Seq<char>, Seq<char>)> {
    match r {
        Some((a, b)) => Some((a@, b@)),
        None => None,
    }
}

/// Recognises the directive lines of C and C++ sources.
pub struct DirectiveMatcher {
    re: regex::Regex,
}

/// Relies on regex::Regex::new: the pattern is a fixed, valid expression, so
/// compiling it succeeds.
#[verifier::external_body]
fn compile_directive_pattern() -> regex::Regex {
    regex::Regex::new(r##"^\s*#\x69nclude\s*(["<])([^">]*)[">]"##).unwrap()
}

/// Relies on regex::Regex::captures with the matcher's pattern (the only one
/// it ever holds): anchored at the start, `\s*`, the directive word, `\s*`,
/// `["<]` as the first group, `[^">]*` as the second, then `[">]`. See
/// [`directive_captures`].
#[verifier::external_body]
fn capture_directive(m: &DirectiveMatcher, line: &str) -> (r: Option<(String, String)>)
    ensures
        opt_pair(r) == directive_captures(line@),
{
    match m.re.captures(line) {
        Some(c) => Some((c[1].to_string(), c[2].to_string())),
        None => None,
    }
}

/// The kind of a directive from its opening delimiter.
pub open spec fn kind_of(delimiter: Seq<char>) -> DirectiveKind {
    if delimiter == seq!['"'] {
        DirectiveKind::Quoted
    } else {
        DirectiveKind::Angled
    }
}

/// The kind of a directive from its opening delimiter: `"` is quoted,
/// anything else angled.
pub fn directive_kind(delimiter: &String) -> (r: DirectiveKind)
    ensures
        r == kind_of(delimiter@),
{
    let q = String::from_str("\"");
    proof {
        reveal_strlit("\"");
        assert(q@ =~= seq!['"']);
    }
    if crate::text::same_text(delimiter, &q) {
        DirectiveKind::Quoted
    } else {
        DirectiveKind::Angled
    }
}

impl DirectiveMatcher {
    pub fn new() -> (r: Self) {
        DirectiveMatcher { re: compile_directive_pattern() }
    }

    /// The directive on `line`, if it is one: its kind and the name it gives.
    pub fn parse_line(&self, line: &str) -> (r: Option<(DirectiveKind, String)>)
        ensures
            match directive_captures(line@) {
                Some((d, name)) => r matches Some((k, n)) && k == kind_of(d) && n@ == name,
                None => r is None,
            },
    {
        match capture_directive(self, line) {
            Some((d, name)) => Some((directive_kind(&d), name)),
            None => None,
        }
    }
}

/// The position of the last `/` in `p[..i]`, or -1.
pub open spec fn last_slash(p: Seq<char>, i: int) -> int
    decreases i,
{
    if i <= 0 || i > p.len() {
        -1
    } else if p[i - 1] == '/' {
        i - 1
    } else {
        last_slash(p, i - 1)
    }
}

/// The directory of file `p`: everything before its last `/` (the root
/// when that is the first character), or empty without a `/`.
pub open spec fn parent_dir(p: Seq<char>) -> Seq<char> {
    let k = last_slash(p, p.len() as int);
    if k < 0 {
        Seq::empty()
    } else if k == 0 {
        seq!['/']
    } else {
        p.take(k)
    }
}

/// Computes [`parent_dir`].
pub fn parent_dir_exec(p: &str) -> (r: String)
    ensures
        r@ == parent_dir(p@),
{
    let pc = to_chars(p);
    let n = pc.len();
    let mut i = n;
    while i > 0
        invariant
            i <= n,
            n == pc@.len(),
            pc@ == p@,
            last_slash(p@, n as int) == last_slash(p@, i as int),
        decreases i,
    {
        if pc[i - 1] == '/' {
            if i - 1 == 0 {
                return substring(p, 0, 1);
            }
            return substring(p, 0, i - 1);
        }
        i = i - 1;
    }
    String::new()
}

/// Where the file named by a directive in file `file` is looked for, in
/// order: next to `file` for a quoted name, then in each search directory.
/// The first place where the file exists wins.
pub open spec fn search_order(file: Seq<char>, kind: DirectiveKind, name: Seq<char>, dirs: Seq<Seq<char>>) -> Seq<Seq<char>> {
    let rest = dirs.map_values(|d: Seq<char>| path_join(d, name));
    if kind == DirectiveKind::Quoted {
        seq![path_join(parent_dir(file), name)] + rest
    } else {
        rest
    }
}

/// The places to look for the file that a directive names: see
/// [`search_order`].
pub fn search_candidates(file: &str, kind: DirectiveKind, name: &String, dirs: &Vec<String>) -> (r: Vec<String>)
    ensures
        strs(r@) == search_order(file@, kind, name@, strs(dirs@)),
{
    let ghost rest = strs(dirs@).map_values(|d: Seq<char>| path_join(d, name@));
    let mut out: Vec<String> = Vec::new();
    let ghost first: Seq<Seq<char>> = Seq::empty();
    if kind == DirectiveKind::Quoted {
        let parent = parent_dir_exec(file);
        let c = path_join_exec(&parent, name);
        proof {
            first = seq![c@];
        }
        out.push(c);
    }
    assert(strs(out@) =~= first);
    let mut k: usize = 0;
    while k < dirs.len()
        invariant
            k <= dirs@.len(),
            rest == strs(dirs@).map_values(|d: Seq<char>| path_join(d, name@)),
            strs(out@) == first + rest.take(k as int),
        decreases dirs.len() - k,
    {
        let c = path_join_exec(&dirs[k], name);
        let ghost before = strs(out@);
        let ghost cv = c@;
        out.push(c);
        assert(strs(dirs@)[k as int] == dirs@[k as int]@);
        assert(strs(out@) =~= before.push(cv));
        assert(strs(out@) =~= first + rest.take(k + 1));
        k = k + 1;
    }
    assert(rest.take(k as int) =~= rest);
    out
}

} // verus!
