//! Variables of the configuration language and `${name}` expansion.
use vstd::prelude::*;
use crate::path_mapper::opt_view;
use crate::text::{occurs_at, occurs_at_exec, same_text, substring, to_chars};

verus! {

/// One `name = value` binding.
#[derive(Debug, Clone)]
pub struct VariableAssignment {
    pub name: String,
    pub value: String,
}

/// The bindings in the order in which the names were first assigned. Each
/// name occurs once; assigning a name again replaces its value in place.
#[derive(Debug, Clone)]
pub struct VariableMap {
    entries: Vec<VariableAssignment>,
}

/// A binding as a pair of character sequences: (name, value).
pub type BindingView = (Seq<char>, Seq<char>);

impl View for VariableMap {
    type V = Seq<BindingView>;

    closed spec fn view(&self) -> Seq<BindingView> {
        self.entries@.map_values(|a: VariableAssignment| (a.name@, a.value@))
    }
}

/// The text `${name}`.
pub open spec fn pattern_of(name: Seq<char>) -> Seq<char> {
    seq!['$', '{'] + name + seq!['}']
}

/// `s` from position `i` on, with every occurrence of `pat` (leftmost first,
/// not overlapping) replaced by `val`.
pub open spec fn replace_from(s: Seq<char>, i: int, pat: Seq<char>, val: Seq<char>) -> Seq<char>
    decreases s.len() - i,
{
    if i < 0 || i >= s.len() {
        Seq::empty()
    } else if pat.len() > 0 && occurs_at(s, i, pat) {
        val + replace_from(s, i + pat.len(), pat, val)
    } else {
        seq![s[i]] + replace_from(s, i + 1, pat, val)
    }
}

/// `s` with every occurrence of `pat` replaced by `val`.
pub open spec fn replace_all(s: Seq<char>, pat: Seq<char>, val: Seq<char>) -> Seq<char> {
    replace_from(s, 0, pat, val)
}

/// One expansion round restricted to the first `k` bindings: each binding in
/// turn has all of its references replaced.
pub open spec fn expand_round(s: Seq<char>, vars: Seq<BindingView>, k: int) -> Seq<char>
    decreases k,
{
    if k <= 0 || k > vars.len() {
        s
    } else {
        replace_all(expand_round(s, vars, k - 1), pattern_of(vars[k - 1].0), vars[k - 1].1)
    }
}

/// `s` holds a reference `${name}` to some bound name.
pub open spec fn has_reference(s: Seq<char>, vars: Seq<BindingView>) -> bool {
    exists|k: int, i: int| 0 <= k < vars.len() && #[trigger] occurs_at(s, i, pattern_of(vars[k].0))
}

/// The number of `$` characters in `s`.
pub open spec fn dollars(s: Seq<char>) -> nat
    decreases s.len(),
{
    if s.len() == 0 {
        0
    } else {
        (if s[0] == '$' {
            1nat
        } else {
            0nat
        }) + dollars(s.skip(1))
    }
}

/// No bound value holds a `$`, so no replacement creates a new reference.
pub open spec fn plain_values(vars: Seq<BindingView>) -> bool {
    forall|k: int| 0 <= k < vars.len() ==> !(#[trigger] vars[k].1).contains('$')
}

/// Expansion with at most `rounds` rounds: stops as soon as no reference to a
/// bound name is left, or a round changes nothing.
pub open spec fn expand_rounds(s: Seq<char>, vars: Seq<BindingView>, rounds: nat) -> Seq<char>
    decreases rounds,
{
    if rounds == 0 || !has_reference(s, vars) {
        s
    } else {
        let t = expand_round(s, vars, vars.len() as int);
        if t == s {
            s
        } else {
            expand_rounds(t, vars, (rounds - 1) as nat)
        }
    }
}

/// The expansion of `s`: rounds of replacement repeat until no reference to
/// a bound name is left (a fixed point), or until a round changes nothing.
/// Unknown names stay verbatim. Every round that leaves a reference removes
/// at least one `$` when bound values hold none, so at most as many rounds as
/// `s` has `$` are run; values that do hold `$` may refer to each other
/// without end, and this bound stops them.
pub open spec fn expand(s: Seq<char>, vars: Seq<BindingView>) -> Seq<char> {
    expand_rounds(s, vars, dollars(s))
}

/// `$` counts add up over a concatenation.
pub proof fn lemma_dollars_add(a: Seq<char>, b: Seq<char>)
    ensures
        dollars(a + b) == dollars(a) + dollars(b),
    decreases a.len(),
{
    if a.len() > 0 {
        assert((a + b).skip(1) =~= a.skip(1) + b);
        lemma_dollars_add(a.skip(1), b);
    } else {
        assert(a + b =~= b);
    }
}

/// The `$` count of a suffix, one character at a time.
proof fn lemma_dollars_skip(s: Seq<char>, i: int)
    requires
        0 <= i < s.len(),
    ensures
        dollars(s.skip(i)) == (if s[i] == '$' {
            1nat
        } else {
            0nat
        }) + dollars(s.skip(i + 1)),
{
    assert(s.skip(i).skip(1) =~= s.skip(i + 1));
}

/// A sequence without `$` counts none.
proof fn lemma_no_dollars(s: Seq<char>)
    requires
        !s.contains('$'),
    ensures
        dollars(s) == 0,
    decreases s.len(),
{
    if s.len() > 0 {
        assert(s[0] != '$');
        assert forall|i: int| 0 <= i < s.skip(1).len() implies s.skip(1)[i] != '$' by {
            assert(s.skip(1)[i] == s[i + 1]);
        }
        lemma_no_dollars(s.skip(1));
    }
}

/// Replacing a pattern that starts with `$` by a value without `$` never adds
/// a `$`; when it removes none, nothing was replaced.
proof fn lemma_replace_dollars(s: Seq<char>, i: int, pat: Seq<char>, val: Seq<char>)
    requires
        0 <= i <= s.len(),
        pat.len() > 0,
        pat[0] == '$',
        dollars(val) == 0,
    ensures
        dollars(replace_from(s, i, pat, val)) <= dollars(s.skip(i)),
        dollars(replace_from(s, i, pat, val)) == dollars(s.skip(i)) ==> replace_from(s, i, pat, val)
            == s.skip(i) && forall|j: int| i <= j ==> !#[trigger] occurs_at(s, j, pat),
    decreases s.len() - i,
{
    let r = replace_from(s, i, pat, val);
    if i >= s.len() {
        assert(r =~= s.skip(i));
    } else if occurs_at(s, i, pat) {
        let m = pat.len() as int;
        lemma_replace_dollars(s, i + m, pat, val);
        lemma_dollars_add(val, replace_from(s, i + m, pat, val));
        assert(s.skip(i) =~= s.subrange(i, i + m) + s.skip(i + m));
        lemma_dollars_add(s.subrange(i, i + m), s.skip(i + m));
        assert(s.subrange(i, i + m) =~= pat);
        assert(dollars(pat) == 1 + dollars(pat.skip(1)));
        assert(r == val + replace_from(s, i + m, pat, val));
    } else {
        let rest = replace_from(s, i + 1, pat, val);
        lemma_replace_dollars(s, i + 1, pat, val);
        assert(r == seq![s[i]] + rest);
        lemma_dollars_add(seq![s[i]], rest);
        assert(seq![s[i]].skip(1) =~= Seq::<char>::empty());
        assert(dollars(Seq::<char>::empty()) == 0);
        assert(dollars(seq![s[i]]) == (if s[i] == '$' {
            1nat
        } else {
            0nat
        }));
        lemma_dollars_skip(s, i);
        if dollars(r) == dollars(s.skip(i)) {
            assert(rest == s.skip(i + 1));
            assert(r =~= s.skip(i));
        }
    }
}

/// A round never adds a `$`; when it removes none, it changed nothing and
/// found no reference to the first `k` names.
proof fn lemma_round_dollars(s: Seq<char>, vars: Seq<BindingView>, k: int)
    requires
        plain_values(vars),
        0 <= k <= vars.len(),
    ensures
        dollars(expand_round(s, vars, k)) <= dollars(s),
        dollars(expand_round(s, vars, k)) == dollars(s) ==> expand_round(s, vars, k) == s && forall|j: int, i: int|
            0 <= j < k ==> !#[trigger] occurs_at(s, i, pattern_of(vars[j].0)),
    decreases k,
{
    if k > 0 {
        lemma_round_dollars(s, vars, k - 1);
        let t = expand_round(s, vars, k - 1);
        let pat = pattern_of(vars[k - 1].0);
        lemma_no_dollars(vars[k - 1].1);
        lemma_replace_dollars(t, 0, pat, vars[k - 1].1);
        assert(t.skip(0) =~= t);
    }
}

/// A reference means a `$`.
proof fn lemma_reference_dollar(s: Seq<char>, i: int, pat: Seq<char>)
    requires
        occurs_at(s, i, pat),
        pat.len() > 0,
        pat[0] == '$',
    ensures
        dollars(s) >= 1,
{
    assert(s =~= s.subrange(0, i) + s.skip(i));
    lemma_dollars_add(s.subrange(0, i), s.skip(i));
    lemma_dollars_skip(s, i);
    assert(s[i] == s.subrange(i, i + pat.len())[0]);
}

/// With at least as many rounds as `$`, and bound values without `$`,
/// expansion leaves no reference to a bound name.
pub proof fn lemma_expand_settles(s: Seq<char>, vars: Seq<BindingView>, n: nat)
    requires
        plain_values(vars),
        n >= dollars(s),
    ensures
        !has_reference(expand_rounds(s, vars, n), vars),
    decreases n,
{
    if has_reference(s, vars) {
        let (k, i) = choose|k: int, i: int| 0 <= k < vars.len() && #[trigger] occurs_at(s, i, pattern_of(vars[k].0));
        lemma_reference_dollar(s, i, pattern_of(vars[k].0));
        lemma_round_dollars(s, vars, vars.len() as int);
        let t = expand_round(s, vars, vars.len() as int);
        assert(dollars(t) < dollars(s));
        lemma_expand_settles(t, vars, (n - 1) as nat);
    }
}

/// The position of the first binding of `name` at or after `i`, or -1.
pub open spec fn find_name(vars: Seq<BindingView>, name: Seq<char>, i: int) -> int
    decreases vars.len() - i,
{
    if i < 0 || i >= vars.len() {
        -1
    } else if vars[i].0 == name {
        i
    } else {
        find_name(vars, name, i + 1)
    }
}

/// The value bound to `name`, if any.
pub open spec fn lookup(vars: Seq<BindingView>, name: Seq<char>) -> Option<Seq<char>> {
    let k = find_name(vars, name, 0);
    if k >= 0 {
        Some(vars[k].1)
    } else {
        None
    }
}

/// The bindings after assigning `value` to `name`: an existing binding is
/// replaced in place, a new name goes last.
pub open spec fn assign(vars: Seq<BindingView>, name: Seq<char>, value: Seq<char>) -> Seq<BindingView> {
    let k = find_name(vars, name, 0);
    if k >= 0 {
        vars.update(k, (name, value))
    } else {
        vars.push((name, value))
    }
}

/// The `${name}` pattern as characters.
fn pattern_chars(name: &String) -> (r: Vec<char>)
    ensures
        r@ == pattern_of(name@),
{
    let nc = to_chars(name.as_str());
    let mut r: Vec<char> = Vec::new();
    r.push('$');
    r.push('{');
    let mut i: usize = 0;
    while i < nc.len()
        invariant
            i <= nc@.len(),
            r@ == seq!['$', '{'] + nc@.subrange(0, i as int),
        decreases nc.len() - i,
    {
        r.push(nc[i]);
        i = i + 1;
        assert(r@ =~= seq!['$', '{'] + nc@.subrange(0, i as int));
    }
    r.push('}');
    assert(nc@.subrange(0, nc@.len() as int) =~= nc@);
    assert(r@ =~= pattern_of(name@));
    r
}

/// Computes [`replace_all`].
fn replace_all_exec(s: &String, pat: &Vec<char>, val: &String) -> (r: String)
    requires
        pat@.len() > 0,
    ensures
        r@ == replace_all(s@, pat@, val@),
{
    let src = s.as_str();
    let sc = to_chars(src);
    let mut out = String::new();
    let mut i: usize = 0;
    while i < sc.len()
        invariant
            sc@ == s@,
            src@ == s@,
            pat@.len() > 0,
            i <= sc@.len(),
            out@ + replace_from(s@, i as int, pat@, val@) == replace_all(s@, pat@, val@),
        decreases sc.len() - i,
    {
        let ghost before = out@;
        if occurs_at_exec(&sc, i, pat) {
            out.append(val.as_str());
            assert(before + replace_from(s@, i as int, pat@, val@) =~= out@ + replace_from(
                s@,
                i + pat@.len(),
                pat@,
                val@,
            ));
            i = i + pat.len();
        } else {
            let c = substring(src, i, i + 1);
            assert(c@ =~= seq![s@[i as int]]);
            out.append(c.as_str());
            assert(out@ + replace_from(s@, i + 1, pat@, val@) =~= before + replace_from(
                s@,
                i as int,
                pat@,
                val@,
            ));
            i = i + 1;
        }
    }
    assert(out@ =~= out@ + replace_from(s@, i as int, pat@, val@));
    out
}

impl VariableMap {
    /// A map without bindings.
    pub fn new() -> (r: Self)
        ensures
            r@ == Seq::<BindingView>::empty(),
    {
        let r = VariableMap { entries: Vec::new() };
        assert(r@ =~= Seq::<BindingView>::empty());
        r
    }

    /// The bindings, in order.
    pub fn entries(&self) -> (r: &Vec<VariableAssignment>)
        ensures
            r@.map_values(|a: VariableAssignment| (a.name@, a.value@)) == self@,
    {
        &self.entries
    }

    /// Binds `value` to `name` as given, without expanding it.
    pub fn insert(&mut self, name: String, value: String)
        ensures
            final(self)@ == assign(old(self)@, name@, value@),
    {
        let ghost nv = name@;
        let ghost vv = value@;
        let mut k: usize = 0;
        while k < self.entries.len()
            invariant
                self@ == old(self)@,
                nv == name@,
                vv == value@,
                k <= self.entries@.len(),
                find_name(self@, nv, 0) == find_name(self@, nv, k as int),
            decreases self.entries.len() - k,
        {
            assert(self@[k as int] == (self.entries@[k as int].name@, self.entries@[k as int].value@));
            if same_text(&self.entries[k].name, &name) {
                assert(find_name(old(self)@, nv, k as int) == k);
                self.entries.set(k, VariableAssignment { name, value });
                assert(self@ =~= assign(old(self)@, nv, vv));
                return;
            }
            k = k + 1;
        }
        self.entries.push(VariableAssignment { name, value });
        assert(self@ =~= assign(old(self)@, nv, vv));
    }

    /// The value bound to `name`, if any.
    pub fn get(&self, name: &str) -> (r: Option<String>)
        ensures
            opt_view(r) == lookup(self@, name@),
    {
        let target = String::from_str(name);
        let mut k: usize = 0;
        while k < self.entries.len()
            invariant
                target@ == name@,
                k <= self.entries@.len(),
                find_name(self@, name@, 0) == find_name(self@, name@, k as int),
            decreases self.entries.len() - k,
        {
            assert(self@[k as int] == (self.entries@[k as int].name@, self.entries@[k as int].value@));
            if same_text(&self.entries[k].name, &target) {
                return Some(self.entries[k].value.clone());
            }
            k = k + 1;
        }
        None
    }
}

/// The bindings that a list of assignments yields: each value is expanded
/// against the bindings made before it, then assigned.
pub open spec fn resolve(assignments: Seq<BindingView>) -> Seq<BindingView>
    decreases assignments.len(),
{
    if assignments.len() == 0 {
        Seq::empty()
    } else {
        let prior = resolve(assignments.drop_last());
        let a = assignments.last();
        assign(prior, a.0, expand(a.1, prior))
    }
}

/// Tests whether `s` refers to any of the names whose patterns are `pats`.
fn has_reference_exec(sc: &Vec<char>, pats: &Vec<Vec<char>>, Ghost(vars): Ghost<Seq<BindingView>>) -> (r: bool)
    requires
        pats@.len() == vars.len(),
        forall|k: int| 0 <= k < vars.len() ==> #[trigger] pats@[k]@ == pattern_of(vars[k].0),
    ensures
        r == has_reference(sc@, vars),
{
    let mut k: usize = 0;
    while k < pats.len()
        invariant
            pats@.len() == vars.len(),
            forall|k: int| 0 <= k < vars.len() ==> #[trigger] pats@[k]@ == pattern_of(vars[k].0),
            k <= pats@.len(),
            forall|a: int, i: int| 0 <= a < k ==> !#[trigger] occurs_at(sc@, i, pattern_of(vars[a].0)),
        decreases pats.len() - k,
    {
        let mut i: usize = 0;
        while i < sc.len()
            invariant
                pats@.len() == vars.len(),
                forall|k: int| 0 <= k < vars.len() ==> #[trigger] pats@[k]@ == pattern_of(vars[k].0),
                k < pats@.len(),
                i <= sc@.len(),
                forall|j: int| 0 <= j < i ==> !#[trigger] occurs_at(sc@, j, pattern_of(vars[k as int].0)),
            decreases sc.len() - i,
        {
            if occurs_at_exec(sc, i, &pats[k]) {
                assert(occurs_at(sc@, i as int, pattern_of(vars[k as int].0)));
                return true;
            }
            i = i + 1;
        }
        assert forall|j: int| !#[trigger] occurs_at(sc@, j, pattern_of(vars[k as int].0)) by {
            if 0 <= j < i {
            } else {
                assert(!occurs_at(sc@, j, pattern_of(vars[k as int].0)));
            }
        }
        k = k + 1;
    }
    false
}

impl VariableMap {
    /// The `${name}` pattern of each binding, in order.
    fn patterns(&self) -> (r: Vec<Vec<char>>)
        ensures
            r@.len() == self@.len(),
            forall|k: int| 0 <= k < self@.len() ==> #[trigger] r@[k]@ == pattern_of(self@[k].0),
    {
        let mut r: Vec<Vec<char>> = Vec::new();
        let mut k: usize = 0;
        while k < self.entries.len()
            invariant
                k <= self.entries@.len(),
                r@.len() == k,
                forall|j: int| 0 <= j < k ==> #[trigger] r@[j]@ == pattern_of(self@[j].0),
            decreases self.entries.len() - k,
        {
            assert(self@[k as int].0 == self.entries@[k as int].name@);
            r.push(pattern_chars(&self.entries[k].name));
            k = k + 1;
        }
        r
    }

    /// One expansion round: every binding in order has its references
    /// replaced.
    fn expand_round_exec(&self, s: String, pats: &Vec<Vec<char>>) -> (r: String)
        requires
            pats@.len() == self@.len(),
            forall|k: int| 0 <= k < self@.len() ==> #[trigger] pats@[k]@ == pattern_of(self@[k].0),
        ensures
            r@ == expand_round(s@, self@, self@.len() as int),
    {
        let mut cur = s;
        let ghost s0 = cur@;
        let mut k: usize = 0;
        while k < self.entries.len()
            invariant
                pats@.len() == self@.len(),
                forall|k: int| 0 <= k < self@.len() ==> #[trigger] pats@[k]@ == pattern_of(self@[k].0),
                k <= self@.len(),
                self@.len() == self.entries@.len(),
                cur@ == expand_round(s0, self@, k as int),
            decreases self.entries.len() - k,
        {
            assert(self@[k as int] == (self.entries@[k as int].name@, self.entries@[k as int].value@));
            assert(pats@[k as int]@.len() > 0);
            cur = replace_all_exec(&cur, &pats[k], &self.entries[k].value);
            k = k + 1;
        }
        cur
    }

    /// The expansion of `value` against these bindings: see [`expand`].
    pub fn expand_variable(&self, value: &str) -> (r: String)
        ensures
            r@ == expand(value@, self@),
            plain_values(self@) ==> !has_reference(r@, self@),
    {
        proof {
            if plain_values(self@) {
                lemma_expand_settles(value@, self@, dollars(value@));
            }
        }
        let pats = self.patterns();
        let vc = to_chars(value);
        let mut rounds: usize = 0;
        let mut i: usize = 0;
        assert(vc@.skip(0) =~= vc@);
        while i < vc.len()
            invariant
                i <= vc@.len(),
                rounds <= i,
                rounds + dollars(vc@.skip(i as int)) == dollars(vc@),
            decreases vc.len() - i,
        {
            proof {
                lemma_dollars_skip(vc@, i as int);
            }
            if vc[i] == '$' {
                rounds = rounds + 1;
            }
            i = i + 1;
        }
        assert(vc@.skip(i as int) =~= Seq::<char>::empty());
        assert(vc@.skip(0) =~= vc@);
        let mut cur = String::from_str(value);
        while rounds > 0
            invariant
                pats@.len() == self@.len(),
                forall|k: int| 0 <= k < self@.len() ==> #[trigger] pats@[k]@ == pattern_of(self@[k].0),
                expand(value@, self@) == expand_rounds(cur@, self@, rounds as nat),
                plain_values(self@) ==> !has_reference(expand(value@, self@), self@),
            decreases rounds,
        {
            let cc = to_chars(cur.as_str());
            if !has_reference_exec(&cc, &pats, Ghost(self@)) {
                return cur;
            }
            let next = self.expand_round_exec(cur.clone(), &pats);
            if same_text(&next, &cur) {
                return cur;
            }
            cur = next;
            rounds = rounds - 1;
        }
        cur
    }
}

/// Expands `value` against `vars`: see [`expand`].
pub fn expand_variable(value: &str, vars: &VariableMap) -> (r: String)
    ensures
        r@ == expand(value@, vars@),
        plain_values(vars@) ==> !has_reference(r@, vars@),
{
    vars.expand_variable(value)
}

/// Builds the bindings of a list of assignments, in order: each value is
/// expanded against the names bound before it (no forward references).
pub fn resolve_variables(assignments: Vec<VariableAssignment>) -> (r: VariableMap)
    ensures
        r@ == resolve(assignments@.map_values(|a: VariableAssignment| (a.name@, a.value@))),
{
    let ghost av = assignments@.map_values(|a: VariableAssignment| (a.name@, a.value@));
    let mut map = VariableMap::new();
    let mut k: usize = 0;
    while k < assignments.len()
        invariant
            k <= assignments@.len(),
            av == assignments@.map_values(|a: VariableAssignment| (a.name@, a.value@)),
            map@ == resolve(av.take(k as int)),
        decreases assignments.len() - k,
    {
        let a = &assignments[k];
        let v = map.expand_variable(a.value.as_str());
        assert(av.take(k + 1).drop_last() =~= av.take(k as int));
        map.insert(a.name.clone(), v);
        k = k + 1;
    }
    assert(av.take(k as int) =~= av);
    map
}

/// Expansion is idempotent when no bound value holds a `$`: expanding the
/// result again changes nothing.
pub proof fn lemma_expand_idempotent(s: Seq<char>, vars: Seq<BindingView>)
    requires
        plain_values(vars),
    ensures
        expand(expand(s, vars), vars) == expand(s, vars),
{
    lemma_expand_settles(s, vars, dollars(s));
}

} // verus!
