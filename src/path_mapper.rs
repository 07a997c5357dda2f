//! Ordered prefix rules that turn file paths into short display names, and
//! back.
use vstd::prelude::*;
use crate::text::{occurs_at_exec, starts_with, substring, to_chars};

verus! {

/// One rule: paths under `from` are shown with `to` in place of `from`.
#[derive(Debug, Clone)]
pub struct PathMapping {
    pub from: String,
    pub to: String,
}

/// An ordered list of rules; the first rule that applies wins, both when
/// mapping and when inverting.
#[derive(Debug, Clone)]
pub struct PathMapper {
    mappings: Vec<PathMapping>,
}

/// A rule as a pair of character sequences: (path prefix, display prefix).
pub type RuleView = (Seq<char>, Seq<char>);

impl View for PathMapper {
    type V = Seq<RuleView>;

    closed spec fn view(&self) -> Seq<RuleView> {
        self.mappings@.map_values(|m: PathMapping| (m.from@, m.to@))
    }
}

/// The view of an optional string.
pub open spec fn opt_view(o: Option<String>) -> Option<Seq<char>> {
    match o {
        Some(s) => Some(s@),
        None => None,
    }
}

/// What is left of path `p` after the leading path `from`, on whole
/// components: `/src` is a prefix of `/src/a.c` (leaving `a.c`) and of `/src`
/// (leaving nothing), but not of `/srcx/a.c`.
pub open spec fn strip_path_prefix(p: Seq<char>, from: Seq<char>) -> Option<Seq<char>> {
    if !starts_with(p, from) {
        None
    } else {
        let rest = p.skip(from.len() as int);
        if rest.len() == 0 {
            Some(rest)
        } else if from.len() == 0 || from.last() == '/' {
            Some(rest)
        } else if rest[0] == '/' {
            Some(rest.skip(1))
        } else {
            None
        }
    }
}

/// Path `tail` placed under directory `dir`, with one separator between them.
pub open spec fn join_path(dir: Seq<char>, tail: Seq<char>) -> Seq<char> {
    if tail.len() == 0 {
        dir
    } else if dir.len() == 0 || dir.last() == '/' {
        dir + tail
    } else {
        dir + seq!['/'] + tail
    }
}

/// `tail` placed under `head`, where an absolute `tail` stands for itself.
pub open spec fn path_join(head: Seq<char>, tail: Seq<char>) -> Seq<char> {
    if tail.len() > 0 && tail[0] == '/' {
        tail
    } else {
        join_path(head, tail)
    }
}

/// Computes [`path_join`].
pub fn path_join_exec(head: &String, tail: &String) -> (r: String)
    ensures
        r@ == path_join(head@, tail@),
{
    let tc = to_chars(tail.as_str());
    if tc.len() > 0 && tc[0] == '/' {
        tail.clone()
    } else {
        join_path_exec(head, tail)
    }
}

/// The display name that the first applicable rule at or after `i` gives to `p`.
pub open spec fn map_from(rules: Seq<RuleView>, p: Seq<char>, i: int) -> Option<Seq<char>>
    decreases rules.len() - i,
{
    if i < 0 || i >= rules.len() {
        None
    } else {
        match strip_path_prefix(p, rules[i].0) {
            Some(tail) => Some(rules[i].1 + tail),
            None => map_from(rules, p, i + 1),
        }
    }
}

/// The path that the first rule at or after `i` whose display prefix starts
/// `d` gives back for the display name `d`.
pub open spec fn invert_from(rules: Seq<RuleView>, d: Seq<char>, i: int) -> Option<Seq<char>>
    decreases rules.len() - i,
{
    if i < 0 || i >= rules.len() {
        None
    } else if starts_with(d, rules[i].1) {
        Some(path_join(rules[i].0, d.skip(rules[i].1.len() as int)))
    } else {
        invert_from(rules, d, i + 1)
    }
}

/// The display name of `p` under `rules`.
pub open spec fn map_path(rules: Seq<RuleView>, p: Seq<char>) -> Option<Seq<char>> {
    map_from(rules, p, 0)
}

/// The path behind display name `d` under `rules`.
pub open spec fn invert_name(rules: Seq<RuleView>, d: Seq<char>) -> Option<Seq<char>> {
    invert_from(rules, d, 0)
}

/// Computes [`strip_path_prefix`].
fn strip_path_prefix_exec(p: &str, pc: &Vec<char>, from: &Vec<char>) -> (r: Option<String>)
    requires
        pc@ == p@,
    ensures
        opt_view(r) == strip_path_prefix(p@, from@),
{
    if !occurs_at_exec(pc, 0, from) {
        return None;
    }
    let n = from.len();
    let len = pc.len();
    proof {
        assert(p@.skip(n as int) =~= p@.subrange(n as int, len as int));
    }
    if n == len {
        return Some(substring(p, n, n));
    }
    if n == 0 || from[n - 1] == '/' {
        return Some(substring(p, n, len));
    }
    if pc[n] == '/' {
        let r = substring(p, n + 1, len);
        assert(r@ =~= p@.skip(n as int).skip(1));
        Some(r)
    } else {
        None
    }
}

/// Computes [`join_path`].
pub(crate) fn join_path_exec(dir: &String, tail: &String) -> (r: String)
    ensures
        r@ == join_path(dir@, tail@),
{
    let dc = to_chars(dir.as_str());
    let tn = tail.as_str().unicode_len();
    let mut r = dir.clone();
    if tn == 0 {
        return r;
    }
    if dc.len() == 0 || dc[dc.len() - 1] == '/' {
        r.append(tail.as_str());
    } else {
        r.append("/");
        r.append(tail.as_str());
    }
    proof {
        reveal_strlit("/");
    }
    r
}

impl PathMapper {
    /// A mapper without rules.
    pub fn new() -> (r: Self)
        ensures
            r@ == Seq::<RuleView>::empty(),
    {
        let r = PathMapper { mappings: Vec::new() };
        assert(r@ =~= Seq::<RuleView>::empty());
        r
    }

    /// Appends a rule; earlier rules keep priority over it.
    pub fn add_mapping(&mut self, mapping: PathMapping)
        ensures
            final(self)@ == old(self)@.push((mapping.from@, mapping.to@)),
    {
        let ghost m = mapping;
        self.mappings.push(mapping);
        assert(final(self)@ =~= old(self)@.push((m.from@, m.to@)));
    }

    /// The rules, first to last.
    pub fn mappings(&self) -> (r: &Vec<PathMapping>)
        ensures
            r@.map_values(|m: PathMapping| (m.from@, m.to@)) == self@,
    {
        &self.mappings
    }

    /// The display name of path `p`: the first rule whose path prefix covers
    /// `p` has that prefix replaced by its display prefix.
    pub fn try_map(&self, p: &str) -> (r: Option<String>)
        ensures
            opt_view(r) == map_path(self@, p@),
    {
        let pc = to_chars(p);
        let mut i: usize = 0;
        while i < self.mappings.len()
            invariant
                pc@ == p@,
                i <= self.mappings@.len(),
                map_from(self@, p@, 0) == map_from(self@, p@, i as int),
            decreases self.mappings.len() - i,
        {
            let m = &self.mappings[i];
            let from = to_chars(m.from.as_str());
            match strip_path_prefix_exec(p, &pc, &from) {
                Some(tail) => {
                    let mut r = m.to.clone();
                    r.append(tail.as_str());
                    return Some(r);
                },
                None => {},
            }
            i = i + 1;
        }
        None
    }

    /// The path behind display name `d`: the first rule whose display prefix
    /// starts `d` puts the rest of `d` under its path prefix.
    pub fn try_invert(&self, d: &str) -> (r: Option<String>)
        ensures
            opt_view(r) == invert_name(self@, d@),
    {
        let dc = to_chars(d);
        let mut i: usize = 0;
        while i < self.mappings.len()
            invariant
                dc@ == d@,
                i <= self.mappings@.len(),
                invert_from(self@, d@, 0) == invert_from(self@, d@, i as int),
            decreases self.mappings.len() - i,
        {
            let m = &self.mappings[i];
            let to = to_chars(m.to.as_str());
            if occurs_at_exec(&dc, 0, &to) {
                let tail = substring(d, to.len(), dc.len());
                assert(tail@ =~= d@.skip(to@.len() as int));
                return Some(path_join_exec(&m.from, &tail));
            }
            i = i + 1;
        }
        None
    }
}

/// A canonical path: no empty component, so no two separators in a row.
pub open spec fn no_double_slash(p: Seq<char>) -> bool {
    forall|i: int| 0 <= i < p.len() - 1 ==> !(#[trigger] p[i] == '/' && p[i + 1] == '/')
}

/// Stripping a path prefix and joining the rest back under it gives the
/// path again, for a canonical path that does not end with a separator.
pub proof fn lemma_strip_then_join(p: Seq<char>, from: Seq<char>)
    requires
        strip_path_prefix(p, from) is Some,
        !(p.len() > 0 && p.last() == '/'),
        no_double_slash(p),
    ensures
        path_join(from, strip_path_prefix(p, from)->0) == p,
{
    let rest = p.skip(from.len() as int);
    let t = strip_path_prefix(p, from)->0;
    let n = from.len() as int;
    assert(p =~= from + rest);
    if rest.len() > 0 && !(from.len() == 0 || from.last() == '/') {
        assert(rest.skip(1).len() > 0);
        assert(p =~= from + seq!['/'] + rest.skip(1));
        assert(p[n] == '/');
        assert(t[0] == p[n + 1]);
        assert(!(p[n] == '/' && p[n + 1] == '/'));
    } else if rest.len() > 0 && from.len() > 0 {
        assert(p[n - 1] == '/');
        assert(t[0] == p[n]);
        assert(!(p[n - 1] == '/' && p[n] == '/'));
    }
}

/// When exactly one rule's path prefix covers `p`, `map_from` finds that rule.
proof fn lemma_map_from_unique(rules: Seq<RuleView>, p: Seq<char>, k: int, i: int)
    requires
        0 <= i <= k < rules.len(),
        forall|j: int| 0 <= j < rules.len() && j != k ==> strip_path_prefix(p, #[trigger] rules[j].0) is None,
        strip_path_prefix(p, rules[k].0) is Some,
    ensures
        map_from(rules, p, i) == Some(rules[k].1 + strip_path_prefix(p, rules[k].0)->0),
    decreases k - i,
{
    if i < k {
        lemma_map_from_unique(rules, p, k, i + 1);
    }
}

/// When exactly one rule's display prefix starts `d`, `invert_from` finds it.
proof fn lemma_invert_from_unique(rules: Seq<RuleView>, d: Seq<char>, k: int, i: int)
    requires
        0 <= i <= k < rules.len(),
        forall|j: int| 0 <= j < rules.len() && j != k ==> !starts_with(d, #[trigger] rules[j].1),
        starts_with(d, rules[k].1),
    ensures
        invert_from(rules, d, i) == Some(path_join(rules[k].0, d.skip(rules[k].1.len() as int))),
    decreases k - i,
{
    if i < k {
        lemma_invert_from_unique(rules, d, k, i + 1);
    }
}

/// Mapping a path to its display name and inverting that name gives the path
/// back, when exactly one rule covers the path and no other rule's display
/// prefix starts the name, for a canonical path (no separator at its end, no
/// two separators in a row).
pub proof fn lemma_map_then_invert(m: PathMapper, p: Seq<char>, k: int)
    requires
        0 <= k < m@.len(),
        strip_path_prefix(p, m@[k].0) is Some,
        forall|j: int| 0 <= j < m@.len() && j != k ==> strip_path_prefix(p, #[trigger] m@[j].0) is None,
        forall|j: int|
            0 <= j < m@.len() && j != k ==> !starts_with(
                m@[k].1 + strip_path_prefix(p, m@[k].0)->0,
                #[trigger] m@[j].1,
            ),
        !(p.len() > 0 && p.last() == '/'),
        no_double_slash(p),
    ensures
        map_path(m@, p) is Some,
        invert_name(m@, map_path(m@, p)->0) == Some(p),
{
    let rules = m@;
    let tail = strip_path_prefix(p, rules[k].0)->0;
    let d = rules[k].1 + tail;
    lemma_map_from_unique(rules, p, k, 0);
    assert(d.subrange(0, rules[k].1.len() as int) =~= rules[k].1);
    assert(d.skip(rules[k].1.len() as int) =~= tail);
    lemma_invert_from_unique(rules, d, k, 0);
    lemma_strip_then_join(p, rules[k].0);
}

} // verus!
