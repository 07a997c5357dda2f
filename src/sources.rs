//! What discovery gathers: compile database entries, the search
//! directories, and each scanned file with the files it pulls in.
use vstd::prelude::*;
use crate::config::strs;
use crate::path_mapper::{path_join, path_join_exec};
use crate::text::{occurs_at_exec, same_text, starts_with, substring, to_chars};

verus! {

/// One entry of a compile database.
#[derive(Debug, Clone, PartialEq)]
pub struct CompileCommandsEntry {
    /// Relative paths of the entry are relative to this directory.
    pub directory: String,
    /// The file compiled.
    pub file: String,
    /// The command line as one shell-quoted string.
    pub command: Option<String>,
    /// The command line, split into arguments.
    pub arguments: Option<Vec<String>>,
    /// What the command produces.
    pub output: Option<String>,
}

/// A compiled file and its search directories.
#[derive(Debug, Clone, PartialEq)]
pub struct SourceFileEntry {
    pub file_path: String,
    pub include_directories: Vec<String>,
}

/// `s` ends with `suffix`.
pub open spec fn ends_with(s: Seq<char>, suffix: Seq<char>) -> bool {
    suffix.len() <= s.len() && s.skip(s.len() - suffix.len()) == suffix
}

/// The compile database entries that are kept: those whose file ends with
/// `.cpp`, `.cc`, `.cxx`, `.c`, `.h` or `.hpp`.
pub open spec fn is_compiled_file(f: Seq<char>) -> bool {
    ends_with(f, ".cpp"@) || ends_with(f, ".cc"@) || ends_with(f, ".cxx"@) || ends_with(f, ".c"@)
        || ends_with(f, ".h"@) || ends_with(f, ".hpp"@)
}

fn ends_with_exec(fc: &Vec<char>, suffix: &str) -> (r: bool)
    ensures
        r == ends_with(fc@, suffix@),
{
    let sc = to_chars(suffix);
    if sc.len() > fc.len() {
        return false;
    }
    let start = fc.len() - sc.len();
    let r = occurs_at_exec(fc, start, &sc);
    proof {
        assert(fc@.skip(start as int) =~= fc@.subrange(start as int, start + sc@.len()));
    }
    r
}

/// Whether a compile database entry for file `f` is kept: see
/// [`is_compiled_file`].
pub fn is_compiled_file_exec(f: &str) -> (r: bool)
    ensures
        r == is_compiled_file(f@),
{
    let fc = to_chars(f);
    ends_with_exec(&fc, ".cpp") || ends_with_exec(&fc, ".cc") || ends_with_exec(&fc, ".cxx")
        || ends_with_exec(&fc, ".c") || ends_with_exec(&fc, ".h") || ends_with_exec(&fc, ".hpp")
}

/// The words of a command line, split as a POSIX shell would, or nothing
/// when the line is malformed.
pub uninterp spec fn shell_words(s: Seq<char>) -> Option<Seq<Seq<char>>>;

/// Relies on shlex::split: it splits a command line into words as a POSIX
/// shell would, or returns `None` for a malformed one; the result depends on
/// the text alone.
#[verifier::external_body]
fn split_command(s: &str) -> (r: Option<Vec<String>>)
    ensures
        match r {
            Some(v) => shell_words(s@) == Some(strs(v@)),
            None => shell_words(s@) is None,
        },
{
    shlex::split(s)
}

/// A copy of a list of strings.
pub fn copy_strings(v: &Vec<String>) -> (r: Vec<String>)
    ensures
        strs(r@) == strs(v@),
{
    let mut out: Vec<String> = Vec::new();
    let mut k: usize = 0;
    while k < v.len()
        invariant
            k <= v@.len(),
            strs(out@) == strs(v@).take(k as int),
        decreases v.len() - k,
    {
        let ghost before = strs(out@);
        let c = v[k].clone();
        out.push(c);
        assert(strs(out@) =~= before.push(v@[k as int]@));
        assert(strs(out@) =~= strs(v@).take(k + 1));
        k = k + 1;
    }
    assert(strs(v@).take(k as int) =~= strs(v@));
    out
}

/// The arguments of an entry: the split arguments when given, else the
/// command line split into words; nothing when neither is usable.
pub fn entry_arguments(e: &CompileCommandsEntry) -> (r: Option<Vec<String>>)
    ensures
        match e.arguments {
            Some(a) => r matches Some(v) && strs(v@) == strs(a@),
            None => match e.command {
                Some(c) => match shell_words(c@) {
                    Some(w) => r matches Some(v) && strs(v@) == w,
                    None => r is None,
                },
                None => r is None,
            },
        },
{
    match &e.arguments {
        Some(a) => Some(copy_strings(a)),
        None => match &e.command {
            Some(c) => split_command(c.as_str()),
            None => None,
        },
    }
}

/// The directories that the `-I` arguments among the first `n` name, in
/// order, without the `-I`.
pub open spec fn search_dir_flags(args: Seq<Seq<char>>, n: int) -> Seq<Seq<char>>
    decreases n,
{
    if n <= 0 || n > args.len() {
        Seq::empty()
    } else if starts_with(args[n - 1], "-I"@) {
        search_dir_flags(args, n - 1).push(args[n - 1].skip(2))
    } else {
        search_dir_flags(args, n - 1)
    }
}

/// The directories named by the `-I` arguments: see [`search_dir_flags`].
pub fn search_dir_args(args: &Vec<String>) -> (r: Vec<String>)
    ensures
        strs(r@) == search_dir_flags(strs(args@), args@.len() as int),
{
    let flag = to_chars("-I");
    let mut out: Vec<String> = Vec::new();
    let mut k: usize = 0;
    while k < args.len()
        invariant
            flag@ == "-I"@,
            k <= args@.len(),
            strs(out@) == search_dir_flags(strs(args@), k as int),
        decreases args.len() - k,
    {
        let a = args[k].as_str();
        let ac = to_chars(a);
        assert(strs(args@)[k as int] == a@);
        if occurs_at_exec(&ac, 0, &flag) {
            proof {
                reveal_strlit("-I");
            }
            let d = substring(a, 2, ac.len());
            let ghost before = strs(out@);
            assert(d@ =~= a@.skip(2));
            out.push(d);
            assert(strs(out@) =~= before.push(a@.skip(2)));
        }
        k = k + 1;
    }
    out
}

/// Path `p` of an entry, taken relative to the entry's directory unless it
/// is absolute.
pub fn entry_path(directory: &String, p: &String) -> (r: String)
    ensures
        r@ == path_join(directory@, p@),
{
    path_join_exec(directory, p)
}

/// Where a source file that the build tool lists lies: names that start
/// with `//` are under the source root, others are taken as they are.
pub open spec fn gn_source(root: Seq<char>, s: Seq<char>) -> Seq<char> {
    if starts_with(s, "//"@) {
        path_join(root, s.skip(2))
    } else {
        s
    }
}

/// Computes [`gn_source`].
pub fn gn_source_path(root: &String, s: &str) -> (r: String)
    ensures
        r@ == gn_source(root@, s@),
{
    let sc = to_chars(s);
    let marker = to_chars("//");
    if occurs_at_exec(&sc, 0, &marker) {
        proof {
            reveal_strlit("//");
        }
        let rest = substring(s, 2, sc.len());
        assert(rest@ =~= s@.skip(2));
        path_join_exec(root, &rest)
    } else {
        String::from_str(s)
    }
}

/// A scanned file with the files it pulls in that were found.
#[derive(Debug, Clone, PartialEq)]
pub struct SourceWithIncludes {
    pub path: String,
    pub includes: Vec<String>,
}

/// What discovery gathered so far: the search directories (each once, in
/// the order first given) and the scanned files.
#[derive(Debug, Clone)]
pub struct DependencyData {
    includes: Vec<String>,
    files: Vec<SourceWithIncludes>,
}

pub struct DependencyView {
    pub includes: Seq<Seq<char>>,
    pub files: Seq<(Seq<char>, Seq<Seq<char>>)>,
}

impl View for DependencyData {
    type V = DependencyView;

    closed spec fn view(&self) -> DependencyView {
        DependencyView {
            includes: strs(self.includes@),
            files: self.files@.map_values(|f: SourceWithIncludes| (f.path@, strs(f.includes@))),
        }
    }
}

/// `s` with `x` added, unless it is there already.
pub open spec fn add_text(s: Seq<Seq<char>>, x: Seq<char>) -> Seq<Seq<char>> {
    if s.contains(x) {
        s
    } else {
        s.push(x)
    }
}

/// Every file that the scanned files name, each file's targets before the
/// file itself, for the first `n` files.
pub open spec fn all_paths(files: Seq<(Seq<char>, Seq<Seq<char>>)>, n: int) -> Seq<Seq<char>>
    decreases n,
{
    if n <= 0 || n > files.len() {
        Seq::empty()
    } else {
        all_paths(files, n - 1) + files[n - 1].1 + seq![files[n - 1].0]
    }
}

impl DependencyData {
    pub fn new() -> (r: Self)
        ensures
            r@.includes.len() == 0,
            r@.files.len() == 0,
    {
        DependencyData { includes: Vec::new(), files: Vec::new() }
    }

    /// Adds a search directory, unless it is known already.
    pub fn add_include_dir(&mut self, dir: String)
        ensures
            final(self)@.includes == add_text(old(self)@.includes, dir@),
            final(self)@.files == old(self)@.files,
    {
        let mut k: usize = 0;
        while k < self.includes.len()
            invariant
                self@ == old(self)@,
                k <= self.includes@.len(),
                forall|j: int| 0 <= j < k ==> #[trigger] self.includes@[j]@ != dir@,
            decreases self.includes.len() - k,
        {
            if same_text(&self.includes[k], &dir) {
                assert(self@.includes[k as int] == dir@);
                return;
            }
            k = k + 1;
        }
        proof {
            if self@.includes.contains(dir@) {
                let j = choose|j: int| 0 <= j < self@.includes.len() && self@.includes[j] == dir@;
                assert(self.includes@[j]@ == dir@);
            }
        }
        let ghost dv = dir@;
        self.includes.push(dir);
        assert(self@.includes =~= old(self)@.includes.push(dv));
        assert(self@.files =~= old(self)@.files);
    }

    /// The search directories, in order.
    pub fn include_dirs(&self) -> (r: &Vec<String>)
        ensures
            strs(r@) == self@.includes,
    {
        &self.includes
    }

    /// Adds a scanned file.
    pub fn add_file(&mut self, f: SourceWithIncludes)
        ensures
            final(self)@.files == old(self)@.files.push((f.path@, strs(f.includes@))),
            final(self)@.includes == old(self)@.includes,
    {
        let ghost fv = (f.path@, strs(f.includes@));
        self.files.push(f);
        assert(self@.files =~= old(self)@.files.push(fv));
    }

    /// The scanned files, in order.
    pub fn files(&self) -> (r: &Vec<SourceWithIncludes>)
        ensures
            r@.map_values(|f: SourceWithIncludes| (f.path@, strs(f.includes@))) == self@.files,
    {
        &self.files
    }
}

/// The list of processed files, for reporting.
#[derive(Debug, Clone)]
pub struct FullFileList {
    paths: Vec<String>,
}

impl View for FullFileList {
    type V = Seq<Seq<char>>;

    closed spec fn view(&self) -> Seq<Seq<char>> {
        strs(self.paths@)
    }
}

/// The report line of one file.
pub open spec fn file_line(p: Seq<char>) -> Seq<char> {
    "  \""@ + p + "\"\n"@
}

/// The report lines of the first `n` files.
pub open spec fn file_lines(ps: Seq<Seq<char>>, n: int) -> Seq<char>
    decreases n,
{
    if n <= 0 || n > ps.len() {
        Seq::empty()
    } else {
        file_lines(ps, n - 1) + file_line(ps[n - 1])
    }
}

impl FullFileList {
    /// The list of the files that `dependencies` holds.
    pub fn new(dependencies: &DependencyData) -> (r: Self)
        ensures
            r@ == dependencies@.files.map_values(|f: (Seq<char>, Seq<Seq<char>>)| f.0),
    {
        let ghost target = dependencies@.files.map_values(|f: (Seq<char>, Seq<Seq<char>>)| f.0);
        let mut paths: Vec<String> = Vec::new();
        let mut k: usize = 0;
        while k < dependencies.files.len()
            invariant
                k <= dependencies.files@.len(),
                target == dependencies@.files.map_values(|f: (Seq<char>, Seq<Seq<char>>)| f.0),
                strs(paths@) == target.take(k as int),
            decreases dependencies.files.len() - k,
        {
            let ghost before = strs(paths@);
            let p = dependencies.files[k].path.clone();
            let ghost pv = p@;
            paths.push(p);
            assert(target[k as int] == pv);
            assert(strs(paths@) =~= before.push(pv));
            assert(strs(paths@) =~= target.take(k + 1));
            k = k + 1;
        }
        assert(target.take(k as int) =~= target);
        let r = FullFileList { paths };
        assert(r@ == strs(r.paths@));
        r
    }

    /// `Processed files:` and one quoted path per line.
    pub fn text(&self) -> (r: String)
        ensures
            r@ == "Processed files:\n"@ + file_lines(self@, self@.len() as int),
    {
        let mut r = String::from_str("Processed files:\n");
        let mut k: usize = 0;
        while k < self.paths.len()
            invariant
                k <= self.paths@.len(),
                r@ == "Processed files:\n"@ + file_lines(strs(self.paths@), k as int),
            decreases self.paths.len() - k,
        {
            let ghost before = r@;
            r.append("  \"");
            r.append(self.paths[k].as_str());
            r.append("\"\n");
            assert(strs(self.paths@)[k as int] == self.paths@[k as int]@);
            assert(r@ =~= before + file_line(self.paths@[k as int]@));
            k = k + 1;
        }
        r
    }
}

} // verus!
