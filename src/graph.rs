//! The graph construction engine: files become nodes, nodes are placed in
//! groups, includes become edges between groups (or between nodes of zoomed
//! groups), and edges can be colored.
//!
//! A group's id is its position in the graph's group list, and a node's id
//! is its position in its group, so ids are unique by construction.
use vstd::prelude::*;
use crate::config::{strs, views};
use crate::path_mapper::{opt_view, PathMapping};
use crate::text::{same_text, substring, to_chars};

verus! {

/// One file placed in a group.
#[derive(Debug, Clone, PartialEq)]
pub struct MappedNode {
    /// Position of the node in its group.
    pub id: usize,
    /// The file.
    pub path: String,
    /// The file's display name.
    pub display_name: String,
}

/// A named cluster of nodes.
#[derive(Debug, Clone, PartialEq)]
pub struct Group {
    /// Position of the group in the graph.
    pub id: usize,
    pub name: String,
    /// Whether this group is the expanded copy of a zoomed group.
    pub zoomed: bool,
    pub color: String,
    pub nodes: Vec<MappedNode>,
}

/// An edge end: a group, or a node of a group.
#[derive(Debug, Clone, Copy, PartialEq, Eq, Structural, Hash, PartialOrd, Ord)]
pub struct LinkNode {
    pub group_id: usize,
    pub node_id: Option<usize>,
}

/// A directed edge, possibly colored.
#[derive(Debug, Clone, PartialEq, Eq, Hash, PartialOrd, Ord)]
pub struct GraphLink {
    pub from: LinkNode,
    pub to: LinkNode,
    pub color: Option<String>,
    pub is_bold: bool,
}

/// The finished graph.
#[derive(Debug, Clone)]
pub struct Graph {
    groups: Vec<Group>,
    links: Vec<GraphLink>,
    zoomed: Vec<usize>,
}

/// A graph under construction.
#[derive(Debug, Clone)]
pub struct GraphBuilder {
    graph: Graph,
    /// The known files and their display names.
    path_maps: Vec<PathMapping>,
    /// Zoomed groups that are also focused.
    focus_zoomed: Vec<usize>,
}

pub struct NodeView {
    pub id: nat,
    pub path: Seq<char>,
    pub display_name: Seq<char>,
}

pub struct GroupView {
    pub id: nat,
    pub name: Seq<char>,
    pub zoomed: bool,
    pub color: Seq<char>,
    pub nodes: Seq<NodeView>,
}

pub struct LinkNodeView {
    pub group_id: nat,
    pub node_id: Option<nat>,
}

pub struct GraphLinkView {
    pub from: LinkNodeView,
    pub to: LinkNodeView,
    pub color: Option<Seq<char>>,
    pub is_bold: bool,
}

pub struct GraphView {
    pub groups: Seq<GroupView>,
    pub links: Seq<GraphLinkView>,
    pub zoomed: Seq<nat>,
}

pub struct BuilderView {
    pub graph: GraphView,
    /// (path, display name) of every known file, the last entry for a file wins.
    pub known: Seq<(Seq<char>, Seq<char>)>,
    pub focused: Seq<nat>,
}

impl View for MappedNode {
    type V = NodeView;

    open spec fn view(&self) -> NodeView {
        NodeView { id: self.id as nat, path: self.path@, display_name: self.display_name@ }
    }
}

impl View for Group {
    type V = GroupView;

    open spec fn view(&self) -> GroupView {
        GroupView {
            id: self.id as nat,
            name: self.name@,
            zoomed: self.zoomed,
            color: self.color@,
            nodes: self.nodes@.map_values(|n: MappedNode| n@),
        }
    }
}

impl View for LinkNode {
    type V = LinkNodeView;

    open spec fn view(&self) -> LinkNodeView {
        LinkNodeView {
            group_id: self.group_id as nat,
            node_id: match self.node_id {
                Some(n) => Some(n as nat),
                None => None,
            },
        }
    }
}

impl View for GraphLink {
    type V = GraphLinkView;

    open spec fn view(&self) -> GraphLinkView {
        GraphLinkView { from: self.from@, to: self.to@, color: opt_view(self.color), is_bold: self.is_bold }
    }
}

impl View for Graph {
    type V = GraphView;

    closed spec fn view(&self) -> GraphView {
        GraphView {
            groups: views(self.groups@),
            links: views(self.links@),
            zoomed: self.zoomed@.map_values(|z: usize| z as nat),
        }
    }
}

impl View for GraphBuilder {
    type V = BuilderView;

    closed spec fn view(&self) -> BuilderView {
        BuilderView {
            graph: self.graph@,
            known: self.path_maps@.map_values(|m: PathMapping| (m.from@, m.to@)),
            focused: self.focus_zoomed@.map_values(|z: usize| z as nat),
        }
    }
}

/// The display name of the last entry for `p` among the first `n` known
/// entries.
pub open spec fn display_before(known: Seq<(Seq<char>, Seq<char>)>, p: Seq<char>, n: int) -> Option<Seq<char>>
    decreases n,
{
    if n <= 0 || n > known.len() {
        None
    } else if known[n - 1].0 == p {
        Some(known[n - 1].1)
    } else {
        display_before(known, p, n - 1)
    }
}

/// The last entry for `p` before `n` gives its display name.
pub proof fn lemma_display_last(known: Seq<(Seq<char>, Seq<char>)>, p: Seq<char>, k: int, n: int)
    requires
        0 <= k < n <= known.len(),
        known[k].0 == p,
        forall|j: int| k < j < n ==> #[trigger] known[j].0 != p,
    ensures
        display_before(known, p, n) == Some(known[k].1),
    decreases n,
{
    if n - 1 > k {
        lemma_display_last(known, p, k, n - 1);
    }
}

/// A file without an entry before `n` has no display name.
pub proof fn lemma_display_absent(known: Seq<(Seq<char>, Seq<char>)>, p: Seq<char>, n: int)
    requires
        n <= known.len(),
        forall|j: int| 0 <= j < n ==> #[trigger] known[j].0 != p,
    ensures
        display_before(known, p, n) is None,
    decreases n,
{
    if n > 0 {
        lemma_display_absent(known, p, n - 1);
    }
}

/// The display name of known file `p`: a file listed more than once takes
/// the name of its last entry.
pub open spec fn display_of(known: Seq<(Seq<char>, Seq<char>)>, p: Seq<char>) -> Option<Seq<char>> {
    display_before(known, p, known.len() as int)
}

/// Node `n` of group `g` exists.
pub open spec fn is_node(groups: Seq<GroupView>, g: int, n: int) -> bool {
    0 <= g < groups.len() && 0 <= n < groups[g].nodes.len()
}

/// Some group holds a node for file `p`.
pub open spec fn placed(groups: Seq<GroupView>, p: Seq<char>) -> bool {
    exists|g: int, n: int| is_node(groups, g, n) && #[trigger] groups[g].nodes[n].path == p
}

/// Some group is named `name`.
pub open spec fn name_taken(groups: Seq<GroupView>, name: Seq<char>) -> bool {
    exists|g: int| 0 <= g < groups.len() && #[trigger] groups[g].name == name
}

/// `e` is a node-level end that names an existing node.
pub open spec fn valid_end(groups: Seq<GroupView>, e: LinkNodeView) -> bool {
    e.node_id is Some && is_node(groups, e.group_id as int, e.node_id->0 as int)
}

/// The builder's invariant.
pub open spec fn builder_wf(b: BuilderView) -> bool {
    names_distinct(b.graph.groups) && placement_wf(b)
}

/// No two groups share a name.
pub open spec fn names_distinct(groups: Seq<GroupView>) -> bool {
    forall|g1: int, g2: int|
        0 <= g1 < groups.len() && 0 <= g2 < groups.len() && g1 != g2 ==> #[trigger] groups[g1].name
            != #[trigger] groups[g2].name
}

/// The invariant but for distinct names: ids are positions, every node is a
/// known file under its display name, no file has two nodes, and edges and
/// zoom marks refer to existing groups and nodes.
pub open spec fn placement_wf(b: BuilderView) -> bool {
    let groups = b.graph.groups;
    &&& forall|g: int| 0 <= g < groups.len() ==> #[trigger] groups[g].id == g && !groups[g].zoomed
        && groups[g].nodes.len() > 0
    &&& forall|g: int, n: int| is_node(groups, g, n) ==> #[trigger] groups[g].nodes[n].id == n
        && display_of(b.known, groups[g].nodes[n].path) == Some(groups[g].nodes[n].display_name)
    &&& forall|g1: int, n1: int, g2: int, n2: int|
        is_node(groups, g1, n1) && is_node(groups, g2, n2) && (g1 != g2 || n1 != n2)
            ==> #[trigger] groups[g1].nodes[n1].path != #[trigger] groups[g2].nodes[n2].path
    &&& forall|k: int| 0 <= k < b.graph.links.len() ==> valid_end(groups, #[trigger] b.graph.links[k].from)
        && valid_end(groups, b.graph.links[k].to) && b.graph.links[k].from != b.graph.links[k].to
    &&& forall|k: int| 0 <= k < b.graph.zoomed.len() ==> #[trigger] b.graph.zoomed[k] < groups.len()
    &&& forall|k: int| 0 <= k < b.focused.len() ==> #[trigger] b.focused[k] < groups.len()
}

/// The files of `paths` (among the first `n`) that a new group takes, in
/// order: known, not placed in any group, and not taken earlier in the list.
pub open spec fn kept(b: BuilderView, paths: Seq<Seq<char>>, n: int) -> Seq<Seq<char>>
    decreases n,
{
    if n <= 0 || n > paths.len() {
        Seq::empty()
    } else {
        let k = kept(b, paths, n - 1);
        let p = paths[n - 1];
        if display_of(b.known, p) is Some && !placed(b.graph.groups, p) && !k.contains(p) {
            k.push(p)
        } else {
            k
        }
    }
}

/// The nodes for files `ps`, numbered in order.
pub open spec fn nodes_for(known: Seq<(Seq<char>, Seq<char>)>, ps: Seq<Seq<char>>) -> Seq<NodeView> {
    Seq::new(
        ps.len(),
        |j: int| NodeView { id: j as nat, path: ps[j], display_name: display_of(known, ps[j])->0 },
    )
}

/// `b` with one more group, holding the files `ps`.
pub open spec fn with_group(b: BuilderView, name: Seq<char>, color: Seq<char>, ps: Seq<Seq<char>>) -> BuilderView {
    BuilderView {
        graph: GraphView {
            groups: b.graph.groups.push(
                GroupView {
                    id: b.graph.groups.len(),
                    name,
                    zoomed: false,
                    color,
                    nodes: nodes_for(b.known, ps),
                },
            ),
            ..b.graph
        },
        ..b
    }
}

/// The effect of defining group `name` from `paths`: files already placed
/// elsewhere or not known are skipped; a group left empty, or one whose name
/// is taken, is not created.
pub open spec fn define_group_spec(b: BuilderView, name: Seq<char>, color: Seq<char>, paths: Seq<Seq<char>>) -> BuilderView {
    let ps = kept(b, paths, paths.len() as int);
    if name_taken(b.graph.groups, name) || ps.len() == 0 {
        b
    } else {
        with_group(b, name, color, ps)
    }
}

/// What `kept` takes is known, unplaced, duplicate free, and from `paths`.
pub proof fn lemma_kept(b: BuilderView, paths: Seq<Seq<char>>, n: int)
    ensures
        forall|j: int| 0 <= j < kept(b, paths, n).len() ==> display_of(b.known, #[trigger] kept(b, paths, n)[j]) is Some
            && !placed(b.graph.groups, kept(b, paths, n)[j]) && paths.contains(kept(b, paths, n)[j]),
        forall|i: int, j: int| 0 <= i < j < kept(b, paths, n).len() ==> #[trigger] kept(b, paths, n)[i] != #[trigger] kept(b, paths, n)[j],
    decreases n,
{
    if n <= 0 || n > paths.len() {
    } else {
        lemma_kept(b, paths, n - 1);
        let k = kept(b, paths, n - 1);
        let p = paths[n - 1];
        assert(paths.contains(p));
        if display_of(b.known, p) is Some && !placed(b.graph.groups, p) && !k.contains(p) {
            let k2 = k.push(p);
            assert forall|i: int, j: int| 0 <= i < j < k2.len() implies k2[i] != k2[j] by {
                if j == k.len() {
                    assert(k2[i] == k[i]);
                    assert(k.contains(k[i]));
                }
            }
        }
    }
}

/// Defining a group keeps the invariant.
pub proof fn lemma_define_group_wf(b: BuilderView, name: Seq<char>, color: Seq<char>, paths: Seq<Seq<char>>)
    requires
        builder_wf(b),
    ensures
        builder_wf(define_group_spec(b, name, color, paths)),
{
    let ps = kept(b, paths, paths.len() as int);
    if !(name_taken(b.graph.groups, name) || ps.len() == 0) {
        lemma_with_group_wf(b, name, color, paths);
    }
}

/// Adding a group of the files that `kept` takes keeps all of the invariant
/// but distinct names, and those too when the name is new.
pub proof fn lemma_with_group_wf(b: BuilderView, name: Seq<char>, color: Seq<char>, paths: Seq<Seq<char>>)
    requires
        placement_wf(b),
        kept(b, paths, paths.len() as int).len() > 0,
    ensures
        placement_wf(with_group(b, name, color, kept(b, paths, paths.len() as int))),
        names_distinct(b.graph.groups) && !name_taken(b.graph.groups, name) ==> names_distinct(
            with_group(b, name, color, kept(b, paths, paths.len() as int)).graph.groups,
        ),
{
    let ps = kept(b, paths, paths.len() as int);
    {
        lemma_kept(b, paths, paths.len() as int);
        let b2 = with_group(b, name, color, ps);
        let g0 = b.graph.groups;
        let g2 = b2.graph.groups;
        let last = g0.len() as int;
        assert forall|g: int, n: int| is_node(g2, g, n) implies #[trigger] g2[g].nodes[n].id == n
            && display_of(b2.known, g2[g].nodes[n].path) == Some(g2[g].nodes[n].display_name) by {
            if g < last {
                assert(g2[g] == g0[g]);
                assert(is_node(g0, g, n));
            }
        }
        if names_distinct(g0) && !name_taken(g0, name) {
            assert forall|g1: int, g2i: int|
                0 <= g1 < g2.len() && 0 <= g2i < g2.len() && g1 != g2i implies #[trigger] g2[g1].name
                    != #[trigger] g2[g2i].name by {
                if g1 == last {
                    assert(g2[g2i] == g0[g2i]);
                } else if g2i == last {
                    assert(g2[g1] == g0[g1]);
                } else {
                    assert(g2[g1] == g0[g1]);
                    assert(g2[g2i] == g0[g2i]);
                }
            }
        }
        assert forall|g1: int, n1: int, h: int, n2: int|
            is_node(g2, g1, n1) && is_node(g2, h, n2) && (g1 != h || n1 != n2)
                implies #[trigger] g2[g1].nodes[n1].path != #[trigger] g2[h].nodes[n2].path by {
            if g1 == last && h == last {
            } else if g1 == last {
                assert(g2[h] == g0[h]);
                assert(is_node(g0, h, n2));
                assert(!placed(g0, ps[n1]));
            } else if h == last {
                assert(g2[g1] == g0[g1]);
                assert(is_node(g0, g1, n1));
                assert(!placed(g0, ps[n2]));
            } else {
                assert(g2[g1] == g0[g1]);
                assert(g2[h] == g0[h]);
                assert(is_node(g0, g1, n1));
                assert(is_node(g0, h, n2));
            }
        }
        assert forall|k: int| 0 <= k < b2.graph.links.len() implies valid_end(g2, #[trigger] b2.graph.links[k].from)
            && valid_end(g2, b2.graph.links[k].to) && b2.graph.links[k].from != b2.graph.links[k].to by {
            let l = b.graph.links[k];
            assert(valid_end(g0, l.from));
            assert(valid_end(g0, l.to));
            assert(g2[l.from.group_id as int] == g0[l.from.group_id as int]);
            assert(g2[l.to.group_id as int] == g0[l.to.group_id as int]);
        }
    }
}

/// The node list holds a node for file `p`.
fn nodes_hold(nodes: &Vec<MappedNode>, p: &String) -> (r: bool)
    ensures
        r == exists|j: int| 0 <= j < nodes@.len() && #[trigger] nodes@[j].path@ == p@,
{
    let mut j: usize = 0;
    while j < nodes.len()
        invariant
            j <= nodes@.len(),
            forall|i: int| 0 <= i < j ==> #[trigger] nodes@[i].path@ != p@,
        decreases nodes.len() - j,
    {
        if same_text(&nodes[j].path, p) {
            return true;
        }
        j = j + 1;
    }
    false
}

impl GraphBuilder {
    /// The invariant, on the builder's view.
    pub open spec fn wf(&self) -> bool {
        builder_wf(self@)
    }

    /// A builder that knows the given files (with their display names) and
    /// has no groups, edges or zoom marks yet.
    pub fn new(paths: Vec<PathMapping>) -> (r: Self)
        ensures
            r.wf(),
            r@.known == paths@.map_values(|m: PathMapping| (m.from@, m.to@)),
            forall|k: int|
                #![trigger paths@[k]]
                0 <= k < paths@.len() && (forall|j: int|
                    k < j < paths@.len() ==> #[trigger] paths@[j].from@ != paths@[k].from@) ==> display_of(
                    r@.known,
                    paths@[k].from@,
                ) == Some(paths@[k].to@),
            forall|p: Seq<char>|
                (forall|k: int| 0 <= k < paths@.len() ==> #[trigger] paths@[k].from@ != p) ==> display_of(
                    r@.known,
                    p,
                ) is None,
            r@.graph.groups.len() == 0,
            r@.graph.links.len() == 0,
            r@.graph.zoomed.len() == 0,
            r@.focused.len() == 0,
    {
        let r = GraphBuilder {
            graph: Graph { groups: Vec::new(), links: Vec::new(), zoomed: Vec::new() },
            path_maps: paths,
            focus_zoomed: Vec::new(),
        };
        let ghost known = r@.known;
        assert forall|k: int|
            #![trigger paths@[k]]
            0 <= k < paths@.len() && (forall|j: int|
                k < j < paths@.len() ==> #[trigger] paths@[j].from@ != paths@[k].from@) implies display_of(
                known,
                paths@[k].from@,
            ) == Some(paths@[k].to@) by {
            assert forall|j: int| k < j < known.len() implies #[trigger] known[j].0 != paths@[k].from@ by {
                assert(known[j].0 == paths@[j].from@);
            }
            lemma_display_last(known, paths@[k].from@, k, known.len() as int);
        }
        assert forall|p: Seq<char>|
            (forall|k: int| 0 <= k < paths@.len() ==> #[trigger] paths@[k].from@ != p) implies display_of(
                known,
                p,
            ) is None by {
            assert forall|j: int| 0 <= j < known.len() implies #[trigger] known[j].0 != p by {
                assert(known[j].0 == paths@[j].from@);
            }
            lemma_display_absent(known, p, known.len() as int);
        }
        r
    }

    /// The display name of known file `p`.
    fn display_lookup(&self, p: &String) -> (r: Option<String>)
        ensures
            opt_view(r) == display_of(self@.known, p@),
    {
        let mut i: usize = self.path_maps.len();
        while i > 0
            invariant
                i <= self.path_maps@.len(),
                display_of(self@.known, p@) == display_before(self@.known, p@, i as int),
            decreases i,
        {
            let k = i - 1;
            assert(self@.known[k as int] == (self.path_maps@[k as int].from@, self.path_maps@[k as int].to@));
            if same_text(&self.path_maps[k].from, p) {
                return Some(self.path_maps[k].to.clone());
            }
            i = k;
        }
        None
    }

    /// Whether `p` is a known file.
    pub fn known_path(&self, p: &str) -> (r: bool)
        ensures
            r == (display_of(self@.known, p@) is Some),
    {
        let p = String::from_str(p);
        self.display_lookup(&p).is_some()
    }

    /// Where file `p` is placed, if anywhere.
    fn find_node(&self, p: &String) -> (r: Option<(usize, usize)>)
        ensures
            match r {
                Some((g, n)) => is_node(self@.graph.groups, g as int, n as int)
                    && self@.graph.groups[g as int].nodes[n as int].path == p@,
                None => !placed(self@.graph.groups, p@),
            },
    {
        let ghost groups = self@.graph.groups;
        let mut g: usize = 0;
        while g < self.graph.groups.len()
            invariant
                groups == self@.graph.groups,
                g <= groups.len(),
                forall|h: int, n: int| 0 <= h < g && is_node(groups, h, n) ==> #[trigger] groups[h].nodes[n].path != p@,
            decreases self.graph.groups.len() - g,
        {
            let nodes = &self.graph.groups[g].nodes;
            assert(groups[g as int] == self.graph.groups@[g as int]@);
            let mut n: usize = 0;
            while n < nodes.len()
                invariant
                    groups == self@.graph.groups,
                    g < groups.len(),
                    nodes == self.graph.groups@[g as int].nodes,
                    groups[g as int] == self.graph.groups@[g as int]@,
                    n <= nodes@.len(),
                    forall|m: int| 0 <= m < n ==> #[trigger] groups[g as int].nodes[m].path != p@,
                decreases nodes.len() - n,
            {
                assert(groups[g as int].nodes[n as int] == nodes@[n as int]@);
                if same_text(&nodes[n].path, p) {
                    return Some((g, n));
                }
                n = n + 1;
            }
            g = g + 1;
        }
        None
    }

    /// The group named `name`, if any.
    fn find_group(&self, name: &String) -> (r: Option<usize>)
        ensures
            match r {
                Some(g) => g < self@.graph.groups.len() && self@.graph.groups[g as int].name == name@,
                None => !name_taken(self@.graph.groups, name@),
            },
    {
        let ghost groups = self@.graph.groups;
        let mut g: usize = 0;
        while g < self.graph.groups.len()
            invariant
                groups == self@.graph.groups,
                g <= groups.len(),
                forall|h: int| 0 <= h < g ==> #[trigger] groups[h].name != name@,
            decreases self.graph.groups.len() - g,
        {
            assert(groups[g as int] == self.graph.groups@[g as int]@);
            if same_text(&self.graph.groups[g].name, name) {
                return Some(g);
            }
            g = g + 1;
        }
        None
    }

    /// Defines group `name` from the files `paths`: see
    /// [`define_group_spec`]. Returns whether the group was created.
    pub fn define_group(&mut self, name: &str, color: &str, paths: &Vec<String>) -> (r: bool)
        requires
            old(self).wf(),
        ensures
            final(self).wf(),
            final(self)@ == define_group_spec(old(self)@, name@, color@, strs(paths@)),
            r == !(name_taken(old(self)@.graph.groups, name@) || kept(old(self)@, strs(paths@), paths@.len() as int).len() == 0),
    {
        let ghost b = self@;
        proof {
            lemma_define_group_wf(b, name@, color@, strs(paths@));
        }
        let name = String::from_str(name);
        if self.find_group(&name).is_some() {
            return false;
        }
        self.add_group(name, color, paths)
    }

    /// Adds group `name` of the files of `paths` that are known and not yet
    /// placed, unless there are none; the name is not checked.
    fn add_group(&mut self, name: String, color: &str, paths: &Vec<String>) -> (r: bool)
        requires
            placement_wf(old(self)@),
        ensures
            placement_wf(final(self)@),
            r == (kept(old(self)@, strs(paths@), paths@.len() as int).len() > 0),
            final(self)@ == if r {
                with_group(old(self)@, name@, color@, kept(old(self)@, strs(paths@), paths@.len() as int))
            } else {
                old(self)@
            },
    {
        let ghost b = self@;
        let ghost ps = strs(paths@);
        let mut nodes: Vec<MappedNode> = Vec::new();
        let mut k: usize = 0;
        while k < paths.len()
            invariant
                self@ == b,
                ps == strs(paths@),
                k <= paths@.len(),
                views(nodes@) == nodes_for(b.known, kept(b, ps, k as int)),
            decreases paths.len() - k,
        {
            let p = &paths[k];
            assert(ps[k as int] == p@);
            let ghost kk = kept(b, ps, k as int);
            match self.display_lookup(p) {
                Some(d) => {
                    let found = self.find_node(p);
                    proof {
                        assert(views(nodes@).len() == nodes@.len());
                        assert(nodes_for(b.known, kk).len() == kk.len());
                        assert forall|j: int| 0 <= j < kk.len() implies kk[j] == nodes@[j].path@ by {
                            assert(views(nodes@)[j] == nodes@[j]@);
                            assert(nodes_for(b.known, kk)[j].path == kk[j]);
                        }
                    }
                    let dup = nodes_hold(&nodes, p);
                    proof {
                        if kk.contains(p@) {
                            let j = choose|j: int| 0 <= j < kk.len() && kk[j] == p@;
                            assert(nodes@[j].path@ == p@);
                        }
                        if dup {
                            let j = choose|j: int| 0 <= j < nodes@.len() && #[trigger] nodes@[j].path@ == p@;
                            assert(kk[j] == p@);
                        }
                    }
                    if found.is_none() && !dup {
                        let ghost before = views(nodes@);
                        let node = MappedNode { id: nodes.len(), path: p.clone(), display_name: d };
                        nodes.push(node);
                        assert(views(nodes@) =~= before.push(node@));
                        assert(views(nodes@) =~= nodes_for(b.known, kk.push(p@)));
                    }
                },
                None => {},
            }
            k = k + 1;
        }
        if nodes.len() == 0 {
            return false;
        }
        proof {
            lemma_with_group_wf(b, name@, color@, ps);
        }
        let group = Group { id: self.graph.groups.len(), name, zoomed: false, color: String::from_str(color), nodes };
        let ghost gv = group@;
        self.graph.groups.push(group);
        assert(self@.graph.groups =~= b.graph.groups.push(gv));
        assert(self@ =~= with_group(b, name@, color@, kept(b, ps, ps.len() as int)));
        true
    }
}

/// The node that holds file `p`, as an edge end (meaningful when placed).
pub open spec fn placement_of(groups: Seq<GroupView>, p: Seq<char>) -> LinkNodeView {
    let (g, n) = choose|g: int, n: int| is_node(groups, g, n) && #[trigger] groups[g].nodes[n].path == p;
    LinkNodeView { group_id: g as nat, node_id: Some(n as nat) }
}

/// The position of the group named `name` (meaningful when the name is taken).
pub open spec fn group_index(groups: Seq<GroupView>, name: Seq<char>) -> int {
    choose|g: int| 0 <= g < groups.len() && #[trigger] groups[g].name == name
}

/// The edge end for file `p`, placing it in a group of its own (named by its
/// display name) when no group holds it yet.
pub open spec fn ensure_spec(b: BuilderView, p: Seq<char>) -> (BuilderView, Option<LinkNodeView>) {
    if placed(b.graph.groups, p) {
        (b, Some(placement_of(b.graph.groups, p)))
    } else {
        match display_of(b.known, p) {
            None => (b, None),
            Some(d) => {
                let b2 = define_group_spec(b, d, "thistle"@, seq![p]);
                if placed(b2.graph.groups, p) {
                    (b2, Some(placement_of(b2.graph.groups, p)))
                } else {
                    (b2, None)
                }
            },
        }
    }
}

/// `b` with edge `l` added, unless it is there already.
pub open spec fn with_link(b: BuilderView, l: GraphLinkView) -> BuilderView {
    if b.graph.links.contains(l) {
        b
    } else {
        BuilderView { graph: GraphView { links: b.graph.links.push(l), ..b.graph }, ..b }
    }
}

/// The effect of an include edge from file `from` to file `to`: both ends
/// are placed (see [`ensure_spec`]); unless one cannot be, or both are the
/// same node, the uncolored edge is added.
pub open spec fn add_link_spec(b: BuilderView, from: Seq<char>, to: Seq<char>) -> BuilderView {
    let (b1, f) = ensure_spec(b, from);
    match f {
        None => b1,
        Some(fe) => {
            let (b2, t) = ensure_spec(b1, to);
            match t {
                None => b2,
                Some(te) => if fe == te {
                    b2
                } else {
                    with_link(b2, GraphLinkView { from: fe, to: te, color: None, is_bold: false })
                },
            }
        },
    }
}

/// The edges after coloring those without a color whose selected end
/// (`from` end when `at_from`) lies in group `g`.
pub open spec fn recolor(links: Seq<GraphLinkView>, g: nat, at_from: bool, color: Seq<char>, bold: bool) -> Seq<GraphLinkView> {
    Seq::new(
        links.len(),
        |k: int|
            if (if at_from {
                links[k].from.group_id
            } else {
                links[k].to.group_id
            }) == g && links[k].color is None {
                GraphLinkView { color: Some(color), is_bold: bold, ..links[k] }
            } else {
                links[k]
            },
    )
}

/// The effect of a color instruction on group `name`: nothing when no group
/// has that name; edges that already have a color keep it.
pub open spec fn color_spec(b: BuilderView, name: Seq<char>, at_from: bool, color: Seq<char>, bold: bool) -> BuilderView {
    if name_taken(b.graph.groups, name) {
        let g = group_index(b.graph.groups, name) as nat;
        BuilderView { graph: GraphView { links: recolor(b.graph.links, g, at_from, color, bold), ..b.graph }, ..b }
    } else {
        b
    }
}

/// `s` with `x` added, unless it is there already.
pub open spec fn add_once(s: Seq<nat>, x: nat) -> Seq<nat> {
    if s.contains(x) {
        s
    } else {
        s.push(x)
    }
}

/// The effect of zooming group `name`: nothing when no group has that name.
pub open spec fn zoom_spec(b: BuilderView, name: Seq<char>, focused: bool) -> BuilderView {
    if name_taken(b.graph.groups, name) {
        let g = group_index(b.graph.groups, name) as nat;
        BuilderView {
            graph: GraphView { zoomed: add_once(b.graph.zoomed, g), ..b.graph },
            focused: if focused {
                add_once(b.focused, g)
            } else {
                b.focused
            },
            ..b
        }
    } else {
        b
    }
}

/// Under the invariant, the node found for a file is its placement.
pub proof fn lemma_placement(b: BuilderView, p: Seq<char>, g: int, n: int)
    requires
        builder_wf(b),
        is_node(b.graph.groups, g, n),
        b.graph.groups[g].nodes[n].path == p,
    ensures
        placed(b.graph.groups, p),
        placement_of(b.graph.groups, p) == (LinkNodeView { group_id: g as nat, node_id: Some(n as nat) }),
{
    let groups = b.graph.groups;
    assert(is_node(groups, g, n) && groups[g].nodes[n].path == p);
    let (g2, n2) = choose|g2: int, n2: int| is_node(groups, g2, n2) && #[trigger] groups[g2].nodes[n2].path == p;
    if g2 != g || n2 != n {
        assert(groups[g].nodes[n].path != groups[g2].nodes[n2].path);
    }
}

/// Under the invariant, the group found by name is the named group.
pub proof fn lemma_group_index(b: BuilderView, name: Seq<char>, g: int)
    requires
        builder_wf(b),
        0 <= g < b.graph.groups.len(),
        b.graph.groups[g].name == name,
    ensures
        name_taken(b.graph.groups, name),
        group_index(b.graph.groups, name) == g,
{
    let groups = b.graph.groups;
    assert(groups[g].name == name);
    let g2 = group_index(groups, name);
    if g2 != g {
        assert(groups[g2].name != groups[g].name);
    }
}

/// Whether two optional strings are equal.
fn same_opt_text(a: &Option<String>, b: &Option<String>) -> (r: bool)
    ensures
        r == (opt_view(*a) == opt_view(*b)),
{
    match (a, b) {
        (Some(x), Some(y)) => same_text(x, y),
        (None, None) => true,
        _ => false,
    }
}

/// Whether two edges are equal.
fn same_link(a: &GraphLink, b: &GraphLink) -> (r: bool)
    ensures
        r == (a@ == b@),
{
    let r = a.from == b.from && a.to == b.to && a.is_bold == b.is_bold && same_opt_text(&a.color, &b.color);
    proof {
        if a.from@ == b.from@ {
            assert(a.from == b.from);
        }
        if a.to@ == b.to@ {
            assert(a.to == b.to);
        }
    }
    r
}

/// Whether `links` holds an edge equal to `l`.
fn links_hold(links: &Vec<GraphLink>, l: &GraphLink) -> (r: bool)
    ensures
        r == views(links@).contains(l@),
{
    let mut k: usize = 0;
    while k < links.len()
        invariant
            k <= links@.len(),
            forall|j: int| 0 <= j < k ==> #[trigger] links@[j]@ != l@,
        decreases links.len() - k,
    {
        if same_link(&links[k], l) {
            assert(views(links@)[k as int] == l@);
            return true;
        }
        k = k + 1;
    }
    proof {
        if views(links@).contains(l@) {
            let j = choose|j: int| 0 <= j < views(links@).len() && views(links@)[j] == l@;
            assert(links@[j]@ == l@);
        }
    }
    false
}

/// Groups only grow when a group is defined.
pub proof fn lemma_define_group_grows(b: BuilderView, name: Seq<char>, color: Seq<char>, paths: Seq<Seq<char>>)
    ensures
        define_group_spec(b, name, color, paths).graph.groups.len() >= b.graph.groups.len(),
        forall|g: int| 0 <= g < b.graph.groups.len() ==> #[trigger] define_group_spec(b, name, color, paths).graph.groups[g]
            == b.graph.groups[g],
        define_group_spec(b, name, color, paths).graph.links == b.graph.links,
        define_group_spec(b, name, color, paths).graph.zoomed == b.graph.zoomed,
        define_group_spec(b, name, color, paths).focused == b.focused,
        define_group_spec(b, name, color, paths).known == b.known,
{
}

impl GraphBuilder {
    /// The edge end for file `p`: see [`ensure_spec`].
    fn ensure_link_node(&mut self, p: &String) -> (r: Option<LinkNode>)
        requires
            old(self).wf(),
        ensures
            final(self).wf(),
            final(self)@ == ensure_spec(old(self)@, p@).0,
            match r {
                Some(e) => ensure_spec(old(self)@, p@).1 == Some(e@) && valid_end(final(self)@.graph.groups, e@),
                None => ensure_spec(old(self)@, p@).1 is None,
            },
    {
        let ghost b = self@;
        match self.find_node(p) {
            Some((g, n)) => {
                proof {
                    lemma_placement(b, p@, g as int, n as int);
                }
                return Some(LinkNode { group_id: g, node_id: Some(n) });
            },
            None => {},
        }
        let d = match self.display_lookup(p) {
            Some(d) => d,
            None => return None,
        };
        let v = vec![p.clone()];
        assert(strs(v@) =~= seq![p@]);
        self.define_group(d.as_str(), "thistle", &v);
        match self.find_node(p) {
            Some((g, n)) => {
                proof {
                    lemma_placement(self@, p@, g as int, n as int);
                }
                Some(LinkNode { group_id: g, node_id: Some(n) })
            },
            None => None,
        }
    }

    /// Records that file `from` includes file `to`: see [`add_link_spec`].
    pub fn add_link(&mut self, from: &str, to: &str)
        requires
            old(self).wf(),
        ensures
            final(self).wf(),
            final(self)@ == add_link_spec(old(self)@, from@, to@),
    {
        let ghost b = self@;
        let from = String::from_str(from);
        let to = String::from_str(to);
        let f = match self.ensure_link_node(&from) {
            Some(e) => e,
            None => return,
        };
        let ghost b1 = self@;
        proof {
            let d = display_of(b.known, from@);
            if !placed(b.graph.groups, from@) && d is Some {
                lemma_define_group_grows(b, d->0, "thistle"@, seq![from@]);
            }
        }
        let t = match self.ensure_link_node(&to) {
            Some(e) => e,
            None => return,
        };
        proof {
            let d = display_of(b1.known, to@);
            if !placed(b1.graph.groups, to@) && d is Some {
                lemma_define_group_grows(b1, d->0, "thistle"@, seq![to@]);
            }
            assert(valid_end(self@.graph.groups, f@));
        }
        if f == t {
            return;
        }
        let link = GraphLink { from: f, to: t, color: None, is_bold: false };
        if links_hold(&self.graph.links, &link) {
            return;
        }
        let ghost lv = link@;
        self.graph.links.push(link);
        proof {
            let b2 = ensure_spec(b1, to@).0;
            assert(views(self.graph.links@) =~= b2.graph.links.push(lv));
            assert(self@ =~= with_link(b2, lv));
        }
    }

    /// Colors the uncolored edges that leave group `group_name`; see
    /// [`color_spec`].
    pub fn color_from(&mut self, group_name: &str, color: &str, is_bold: bool)
        requires
            old(self).wf(),
        ensures
            final(self).wf(),
            final(self)@ == color_spec(old(self)@, group_name@, true, color@, is_bold),
    {
        self.recolor_links(group_name, color, is_bold, true)
    }

    /// Colors the uncolored edges that enter group `group_name`; see
    /// [`color_spec`].
    pub fn color_to(&mut self, group_name: &str, color: &str, is_bold: bool)
        requires
            old(self).wf(),
        ensures
            final(self).wf(),
            final(self)@ == color_spec(old(self)@, group_name@, false, color@, is_bold),
    {
        self.recolor_links(group_name, color, is_bold, false)
    }

    fn recolor_links(&mut self, group_name: &str, color: &str, is_bold: bool, at_from: bool)
        requires
            old(self).wf(),
        ensures
            final(self).wf(),
            final(self)@ == color_spec(old(self)@, group_name@, at_from, color@, is_bold),
    {
        let ghost b = self@;
        let name = String::from_str(group_name);
        let g = match self.find_group(&name) {
            Some(g) => g,
            None => return,
        };
        proof {
            lemma_group_index(b, name@, g as int);
        }
        let ghost target = recolor(b.graph.links, g as nat, at_from, color@, is_bold);
        let n = self.graph.links.len();
        let mut k: usize = 0;
        while k < n
            invariant
                n == b.graph.links.len(),
                self.graph.links@.len() == n,
                k <= n,
                self@.graph.groups == b.graph.groups,
                self@.graph.zoomed == b.graph.zoomed,
                self@.known == b.known,
                self@.focused == b.focused,
                target == recolor(b.graph.links, g as nat, at_from, color@, is_bold),
                forall|j: int| 0 <= j < k ==> #[trigger] self@.graph.links[j] == target[j],
                forall|j: int| k <= j < n ==> #[trigger] self@.graph.links[j] == b.graph.links[j],
            decreases n - k,
        {
            let l = &self.graph.links[k];
            assert(self@.graph.links[k as int] == l@);
            let end = if at_from {
                l.from.group_id
            } else {
                l.to.group_id
            };
            if end == g && l.color.is_none() {
                let nl = GraphLink { from: l.from, to: l.to, color: Some(String::from_str(color)), is_bold };
                let ghost before = self.graph.links@;
                let ghost nlv = nl@;
                self.graph.links.set(k, nl);
                assert(views(self.graph.links@) =~= views(before).update(k as int, nlv));
            }
            k = k + 1;
        }
        assert(self@.graph.links =~= target);
        assert(self@ =~= color_spec(b, name@, at_from, color@, is_bold));
        assert forall|j: int| 0 <= j < target.len() implies valid_end(b.graph.groups, #[trigger] target[j].from)
            && valid_end(b.graph.groups, target[j].to) && target[j].from != target[j].to by {
            assert(target[j].from == b.graph.links[j].from);
            assert(target[j].to == b.graph.links[j].to);
        }
    }

    /// Marks group `group`, and with `focused` also focuses it; see
    /// [`zoom_spec`].
    pub fn zoom_in(&mut self, group: &str, focused: bool)
        requires
            old(self).wf(),
        ensures
            final(self).wf(),
            final(self)@ == zoom_spec(old(self)@, group@, focused),
    {
        let ghost b = self@;
        let name = String::from_str(group);
        let g = match self.find_group(&name) {
            Some(g) => g,
            None => return,
        };
        proof {
            lemma_group_index(b, name@, g as int);
        }
        if !usize_list_holds(&self.graph.zoomed, g) {
            self.graph.zoomed.push(g);
        }
        assert(self@.graph.zoomed =~= add_once(b.graph.zoomed, g as nat));
        if focused {
            if !usize_list_holds(&self.focus_zoomed, g) {
                self.focus_zoomed.push(g);
            }
            assert(self@.focused =~= add_once(b.focused, g as nat));
        }
        assert(self@ =~= zoom_spec(b, name@, focused));
    }
}

/// Whether `v` holds `x`.
fn usize_list_holds(v: &Vec<usize>, x: usize) -> (r: bool)
    ensures
        r == v@.map_values(|z: usize| z as nat).contains(x as nat),
{
    let mut k: usize = 0;
    while k < v.len()
        invariant
            k <= v@.len(),
            forall|j: int| 0 <= j < k ==> #[trigger] v@[j] != x,
        decreases v.len() - k,
    {
        if v[k] == x {
            assert(v@.map_values(|z: usize| z as nat)[k as int] == x as nat);
            return true;
        }
        k = k + 1;
    }
    proof {
        let m = v@.map_values(|z: usize| z as nat);
        if m.contains(x as nat) {
            let j = choose|j: int| 0 <= j < m.len() && m[j] == x as nat;
            assert(v@[j] == x);
        }
    }
    false
}

/// A target that the build tool lists, with its source files.
#[derive(Debug, Clone, PartialEq)]
pub struct GnTarget {
    pub name: String,
    pub sources: Vec<String>,
}

impl View for GnTarget {
    type V = (Seq<char>, Seq<Seq<char>>);

    open spec fn view(&self) -> (Seq<char>, Seq<Seq<char>>) {
        (self.name@, strs(self.sources@))
    }
}

/// The position of the dot that starts the extension of the file name in
/// `p[..i]`, or -1. A dot that starts the file name starts no extension.
pub open spec fn ext_dot(p: Seq<char>, i: int) -> int
    decreases i,
{
    if i <= 0 || i > p.len() {
        -1
    } else if p[i - 1] == '/' {
        -1
    } else if p[i - 1] == '.' {
        if i - 1 == 0 || p[i - 2] == '/' {
            -1
        } else {
            i - 1
        }
    } else {
        ext_dot(p, i - 1)
    }
}

/// `p` without the extension of its file name.
pub open spec fn stem(p: Seq<char>) -> Seq<char> {
    let d = ext_dot(p, p.len() as int);
    if d >= 0 {
        p.take(d)
    } else {
        p
    }
}

/// The position of the last dot in `s[..i]`, or -1.
pub open spec fn last_dot(s: Seq<char>, i: int) -> int
    decreases i,
{
    if i <= 0 || i > s.len() {
        -1
    } else if s[i - 1] == '.' {
        i - 1
    } else {
        last_dot(s, i - 1)
    }
}

/// `s` cut before its last dot.
pub open spec fn before_last_dot(s: Seq<char>) -> Seq<char> {
    let d = last_dot(s, s.len() as int);
    if d >= 0 {
        s.take(d)
    } else {
        s
    }
}

/// `st` with extension `e`.
pub open spec fn with_ext(st: Seq<char>, e: Seq<char>) -> Seq<char> {
    st + seq!['.'] + e
}

/// The known, unplaced files among `st` with each of the first `n`
/// extensions, in the extensions' order.
pub open spec fn candidates(b: BuilderView, st: Seq<char>, exts: Seq<Seq<char>>, n: int) -> Seq<Seq<char>>
    decreases n,
{
    if n <= 0 || n > exts.len() {
        Seq::empty()
    } else {
        let c = candidates(b, st, exts, n - 1);
        let p = with_ext(st, exts[n - 1]);
        if display_of(b.known, p) is Some && !placed(b.graph.groups, p) {
            c.push(p)
        } else {
            c
        }
    }
}

/// Groups the files of stem `st` when at least two of them are candidates;
/// the group is named after the first one's display name without its
/// extension.
pub open spec fn ext_step(b: BuilderView, exts: Seq<Seq<char>>, st: Seq<char>) -> BuilderView {
    let c = candidates(b, st, exts, exts.len() as int);
    if c.len() >= 2 {
        define_group_spec(b, before_last_dot(display_of(b.known, c[0])->0), "aqua"@, c)
    } else {
        b
    }
}

/// [`ext_step`] for the stems of the first `k` known files of `b0`, in order.
pub open spec fn ext_fold(b0: BuilderView, exts: Seq<Seq<char>>, k: int) -> BuilderView
    decreases k,
{
    if k <= 0 || k > b0.known.len() {
        b0
    } else {
        ext_step(ext_fold(b0, exts, k - 1), exts, stem(b0.known[k - 1].0))
    }
}

/// The known files among the first `n` of `srcs`.
pub open spec fn known_sources(b: BuilderView, srcs: Seq<Seq<char>>, n: int) -> Seq<Seq<char>>
    decreases n,
{
    if n <= 0 || n > srcs.len() {
        Seq::empty()
    } else {
        let c = known_sources(b, srcs, n - 1);
        if display_of(b.known, srcs[n - 1]) is Some {
            c.push(srcs[n - 1])
        } else {
            c
        }
    }
}

/// One group for target `t`, unless it is ignored or has no known source.
pub open spec fn gn_step(b: BuilderView, t: (Seq<char>, Seq<Seq<char>>), ignore: Seq<Seq<char>>) -> BuilderView {
    let items = known_sources(b, t.1, t.1.len() as int);
    if ignore.contains(t.0) || items.len() == 0 {
        b
    } else {
        define_group_spec(b, t.0, "lightgreen"@, items)
    }
}

/// [`gn_step`] for the first `k` targets, in order.
pub open spec fn gn_fold(b: BuilderView, ts: Seq<(Seq<char>, Seq<Seq<char>>)>, ignore: Seq<Seq<char>>, k: int) -> BuilderView
    decreases k,
{
    if k <= 0 || k > ts.len() {
        b
    } else {
        gn_step(gn_fold(b, ts, ignore, k - 1), ts[k - 1], ignore)
    }
}

/// Computes [`stem`].
fn stem_exec(p: &String) -> (r: String)
    ensures
        r@ == stem(p@),
{
    let pc = to_chars(p.as_str());
    let n = pc.len();
    let mut i = n;
    while i > 0
        invariant
            i <= n,
            n == pc@.len(),
            pc@ == p@,
            ext_dot(p@, n as int) == ext_dot(p@, i as int),
        ensures
            ext_dot(p@, n as int) == -1,
        decreases i,
    {
        let c = pc[i - 1];
        if c == '/' {
            break;
        }
        if c == '.' {
            if i - 1 == 0 || pc[i - 2] == '/' {
                break;
            }
            return substring(p.as_str(), 0, i - 1);
        }
        i = i - 1;
    }
    p.clone()
}

/// Computes [`before_last_dot`].
fn before_last_dot_exec(s: &String) -> (r: String)
    ensures
        r@ == before_last_dot(s@),
{
    let sc = to_chars(s.as_str());
    let n = sc.len();
    let mut i = n;
    while i > 0
        invariant
            i <= n,
            n == sc@.len(),
            sc@ == s@,
            last_dot(s@, n as int) == last_dot(s@, i as int),
        decreases i,
    {
        if sc[i - 1] == '.' {
            return substring(s.as_str(), 0, i - 1);
        }
        i = i - 1;
    }
    s.clone()
}

/// Computes [`with_ext`].
fn with_ext_exec(st: &String, e: &String) -> (r: String)
    ensures
        r@ == with_ext(st@, e@),
{
    let mut r = st.clone();
    r.append(".");
    r.append(e.as_str());
    proof {
        reveal_strlit(".");
    }
    r
}

impl GraphBuilder {
    /// Groups files that differ only in their extension, for the given
    /// extensions; see [`ext_fold`].
    pub fn group_extensions(&mut self, extensions: &Vec<String>)
        requires
            old(self).wf(),
        ensures
            final(self).wf(),
            final(self)@ == ext_fold(old(self)@, strs(extensions@), old(self)@.known.len() as int),
    {
        let ghost b0 = self@;
        let ghost exts = strs(extensions@);
        let n = self.path_maps.len();
        let mut k: usize = 0;
        while k < n
            invariant
                n == b0.known.len(),
                exts == strs(extensions@),
                k <= n,
                self.wf(),
                self@ == ext_fold(b0, exts, k as int),
                self@.known == b0.known,
                self.path_maps@.len() == n,
            decreases n - k,
        {
            assert(self@.known[k as int] == (self.path_maps@[k as int].from@, self.path_maps@[k as int].to@));
            let st = stem_exec(&self.path_maps[k].from);
            let ghost bk = self@;
            let mut cands: Vec<String> = Vec::new();
            let mut e: usize = 0;
            while e < extensions.len()
                invariant
                    self@ == bk,
                    exts == strs(extensions@),
                    e <= extensions@.len(),
                    strs(cands@) == candidates(bk, st@, exts, e as int),
                decreases extensions.len() - e,
            {
                let p = with_ext_exec(&st, &extensions[e]);
                assert(exts[e as int] == extensions@[e as int]@);
                if self.display_lookup(&p).is_some() && self.find_node(&p).is_none() {
                    let ghost before = strs(cands@);
                    let ghost pv = p@;
                    cands.push(p);
                    assert(strs(cands@) =~= before.push(pv));
                }
                e = e + 1;
            }
            if cands.len() >= 2 {
                let d = self.display_lookup(&cands[0]);
                assert(strs(cands@)[0] == cands@[0]@);
                let d = match d {
                    Some(d) => d,
                    None => {
                        proof {
                            lemma_candidates_known(bk, st@, exts, exts.len() as int);
                        }
                        k = k + 1;
                        continue;
                    },
                };
                let name = before_last_dot_exec(&d);
                self.define_group(name.as_str(), "aqua", &cands);
            }
            k = k + 1;
        }
    }

    /// One group per target that is not ignored and has known sources; see
    /// [`gn_fold`].
    pub fn add_groups_from_gn(&mut self, gn_groups: Vec<GnTarget>, ignore_targets: &Vec<String>)
        requires
            old(self).wf(),
        ensures
            final(self).wf(),
            final(self)@ == gn_fold(old(self)@, views(gn_groups@), strs(ignore_targets@), gn_groups@.len() as int),
    {
        let ghost b0 = self@;
        let ghost ts = views(gn_groups@);
        let ghost ig = strs(ignore_targets@);
        let mut k: usize = 0;
        while k < gn_groups.len()
            invariant
                ts == views(gn_groups@),
                ig == strs(ignore_targets@),
                k <= gn_groups@.len(),
                self.wf(),
                self@ == gn_fold(b0, ts, ig, k as int),
            decreases gn_groups.len() - k,
        {
            let t = &gn_groups[k];
            assert(ts[k as int] == t@);
            let ignored = string_list_holds(ignore_targets, &t.name);
            if !ignored {
                let ghost bk = self@;
                let mut items: Vec<String> = Vec::new();
                let mut j: usize = 0;
                while j < t.sources.len()
                    invariant
                        self@ == bk,
                        j <= t.sources@.len(),
                        strs(items@) == known_sources(bk, strs(t.sources@), j as int),
                    decreases t.sources.len() - j,
                {
                    assert(strs(t.sources@)[j as int] == t.sources@[j as int]@);
                    if self.display_lookup(&t.sources[j]).is_some() {
                        let ghost before = strs(items@);
                        let ghost pv = t.sources@[j as int]@;
                        items.push(t.sources[j].clone());
                        assert(strs(items@) =~= before.push(pv));
                    }
                    j = j + 1;
                }
                if items.len() > 0 {
                    self.define_group(t.name.as_str(), "lightgreen", &items);
                }
            }
            k = k + 1;
        }
    }
}

/// What `candidates` takes is known.
proof fn lemma_candidates_known(b: BuilderView, st: Seq<char>, exts: Seq<Seq<char>>, n: int)
    ensures
        forall|j: int| 0 <= j < candidates(b, st, exts, n).len() ==> display_of(b.known, #[trigger] candidates(b, st, exts, n)[j]) is Some,
    decreases n,
{
    if n > 0 && n <= exts.len() {
        lemma_candidates_known(b, st, exts, n - 1);
    }
}

/// Whether `v` holds a string equal to `x`.
fn string_list_holds(v: &Vec<String>, x: &String) -> (r: bool)
    ensures
        r == strs(v@).contains(x@),
{
    let mut k: usize = 0;
    while k < v.len()
        invariant
            k <= v@.len(),
            forall|j: int| 0 <= j < k ==> #[trigger] v@[j]@ != x@,
        decreases v.len() - k,
    {
        if same_text(&v[k], x) {
            assert(strs(v@)[k as int] == x@);
            return true;
        }
        k = k + 1;
    }
    proof {
        if strs(v@).contains(x@) {
            let j = choose|j: int| 0 <= j < strs(v@).len() && strs(v@)[j] == x@;
            assert(v@[j]@ == x@);
        }
    }
    false
}

/// The files of the known entries.
pub open spec fn known_files(known: Seq<(Seq<char>, Seq<char>)>) -> Seq<Seq<char>> {
    known.map_values(|e: (Seq<char>, Seq<char>)| e.0)
}

/// The builder after the catch-all group: every known file that no group
/// holds goes into one group of its own, even when a group of that name
/// exists already.
pub open spec fn with_catch_all(b: BuilderView) -> BuilderView {
    let ps = kept(b, known_files(b.known), known_files(b.known).len() as int);
    if ps.len() == 0 {
        b
    } else {
        with_group(b, "NO DEPENDENCIES OR GROUPS"@, "gray85"@, ps)
    }
}

/// Group `g` is marked zoomed.
pub open spec fn is_zoomed(b: BuilderView, g: nat) -> bool {
    b.graph.zoomed.contains(g)
}

/// Group `g` is marked focused.
pub open spec fn is_focused(b: BuilderView, g: nat) -> bool {
    b.focused.contains(g)
}

/// The zoomed groups among the first `n`, in order.
pub open spec fn zoom_list(b: BuilderView, n: int) -> Seq<nat>
    decreases n,
{
    if n <= 0 {
        Seq::empty()
    } else if is_zoomed(b, (n - 1) as nat) {
        zoom_list(b, n - 1).push((n - 1) as nat)
    } else {
        zoom_list(b, n - 1)
    }
}

/// The color of the `j`-th zoomed copy.
pub open spec fn zoom_color_name(j: int) -> Seq<char> {
    let k = j % 6;
    if k == 0 {
        "powderblue"@
    } else if k == 1 {
        "peachpuff"@
    } else if k == 2 {
        "thistle"@
    } else if k == 3 {
        "honeydew"@
    } else if k == 4 {
        "khaki"@
    } else {
        "lavender"@
    }
}

/// The zoomed copy of group `g`, as the `j`-th copy after `count` groups.
pub open spec fn zoom_copy(g: GroupView, count: nat, j: int) -> GroupView {
    GroupView {
        id: count + j as nat,
        name: g.name + " (ZOOM)"@,
        zoomed: true,
        color: zoom_color_name(j),
        nodes: g.nodes,
    }
}

/// The zoomed copies of `b`'s groups, in the order of the groups they copy.
pub open spec fn zoom_copies(b: BuilderView) -> Seq<GroupView> {
    let zl = zoom_list(b, b.graph.groups.len() as int);
    Seq::new(zl.len(), |j: int| zoom_copy(b.graph.groups[zl[j] as int], b.graph.groups.len() as nat, j))
}

/// An edge end in the finished graph: in a zoomed group, the node of the
/// group's copy; elsewhere, the group itself.
pub open spec fn final_end(b: BuilderView, e: LinkNodeView) -> LinkNodeView {
    if is_zoomed(b, e.group_id) {
        LinkNodeView {
            group_id: b.graph.groups.len() as nat + zoom_list(b, e.group_id as int).len(),
            node_id: e.node_id,
        }
    } else {
        LinkNodeView { group_id: e.group_id, node_id: None }
    }
}

/// The color of an edge that touches a zoomed group: an uncolored edge
/// between two groups that enters a focused group, or leaves one, gets the
/// color for that direction.
pub open spec fn zoom_edge_color(b: BuilderView, l: GraphLinkView) -> Option<Seq<char>> {
    if l.color is None && l.from.group_id != l.to.group_id {
        if is_focused(b, l.to.group_id) {
            Some("maroon"@)
        } else if is_focused(b, l.from.group_id) {
            Some("darkblue"@)
        } else {
            None
        }
    } else {
        l.color
    }
}

/// What edge `l` becomes in the finished graph, if anything. Edges between
/// groups that are not zoomed are kept between the groups. Edges that touch
/// a zoomed group are kept between the copies' nodes; when a group is
/// focused, only those within one group or touching a focused group stay.
/// Edges whose two ends became one are dropped.
pub open spec fn final_link(b: BuilderView, l: GraphLinkView) -> Option<GraphLinkView> {
    if !is_zoomed(b, l.from.group_id) && !is_zoomed(b, l.to.group_id) {
        let c = GraphLinkView {
            from: LinkNodeView { group_id: l.from.group_id, node_id: None },
            to: LinkNodeView { group_id: l.to.group_id, node_id: None },
            color: l.color,
            is_bold: l.is_bold,
        };
        if c.from != c.to {
            Some(c)
        } else {
            None
        }
    } else if b.focused.len() == 0 || l.from.group_id == l.to.group_id || is_focused(b, l.from.group_id)
        || is_focused(b, l.to.group_id) {
        let z = GraphLinkView {
            from: final_end(b, l.from),
            to: final_end(b, l.to),
            color: zoom_edge_color(b, l),
            is_bold: l.is_bold,
        };
        if z.from != z.to {
            Some(z)
        } else {
            None
        }
    } else {
        None
    }
}

/// The finished edges of the first `n` edges of `b`, without repeats.
pub open spec fn final_links(b: BuilderView, n: int) -> Seq<GraphLinkView>
    decreases n,
{
    if n <= 0 || n > b.graph.links.len() {
        Seq::empty()
    } else {
        let o = final_links(b, n - 1);
        match final_link(b, b.graph.links[n - 1]) {
            Some(x) => if o.contains(x) {
                o
            } else {
                o.push(x)
            },
            None => o,
        }
    }
}

/// The finished graph of builder `b`.
pub open spec fn build_spec(b: BuilderView) -> GraphView {
    let b1 = with_catch_all(b);
    let copies = zoom_copies(b1);
    GraphView {
        groups: b1.graph.groups + copies,
        links: final_links(b1, b1.graph.links.len() as int),
        zoomed: Seq::new(copies.len(), |j: int| b1.graph.groups.len() as nat + j as nat),
    }
}

impl MappedNode {
    /// A copy of the node.
    pub fn duplicate(&self) -> (r: MappedNode)
        ensures
            r@ == self@,
    {
        MappedNode { id: self.id, path: self.path.clone(), display_name: self.display_name.clone() }
    }
}

impl Group {
    /// The zoomed copy of this group, with the new id `new_id` and color
    /// `color`: the same nodes, under the name with ` (ZOOM)` appended. As a
    /// node is known by its group and its position there, the copy's nodes
    /// are distinct from this group's.
    pub fn zoomed(&self, new_id: usize, color: String) -> (r: Group)
        requires
            new_id != self.id,
        ensures
            r@.id != self@.id,
            r@ == (GroupView {
                id: new_id as nat,
                name: self.name@ + " (ZOOM)"@,
                zoomed: true,
                color: color@,
                nodes: self@.nodes,
            }),
    {
        let mut nodes: Vec<MappedNode> = Vec::new();
        let mut k: usize = 0;
        while k < self.nodes.len()
            invariant
                k <= self.nodes@.len(),
                views(nodes@) == views(self.nodes@).take(k as int),
            decreases self.nodes.len() - k,
        {
            let ghost before = views(nodes@);
            let n = self.nodes[k].duplicate();
            let ghost nv = n@;
            nodes.push(n);
            assert(nv == views(self.nodes@)[k as int]);
            assert(views(nodes@) =~= before.push(nv));
            assert(views(nodes@) =~= views(self.nodes@).take(k + 1));
            k = k + 1;
        }
        assert(views(self.nodes@).take(k as int) =~= views(self.nodes@));
        let mut name = self.name.clone();
        name.append(" (ZOOM)");
        let r = Group { id: new_id, name, zoomed: true, color, nodes };
        assert(r@.nodes =~= self@.nodes);
        r
    }
}

impl LinkNode {
    /// The same end at group level.
    pub fn without_node(&self) -> (r: LinkNode)
        ensures
            r@ == (LinkNodeView { group_id: self@.group_id, node_id: None }),
    {
        LinkNode { group_id: self.group_id, node_id: None }
    }

    /// The same end moved to the group that `m` maps its group to, if any.
    pub fn try_remap(&self, m: &Vec<Option<usize>>) -> (r: Option<LinkNode>)
        ensures
            match r {
                Some(e) => self.group_id < m@.len() && m@[self.group_id as int] == Some(e.group_id)
                    && e.node_id == self.node_id,
                None => self.group_id >= m@.len() || m@[self.group_id as int] is None,
            },
    {
        if self.group_id < m.len() {
            match m[self.group_id] {
                Some(g) => Some(LinkNode { group_id: g, node_id: self.node_id }),
                None => None,
            }
        } else {
            None
        }
    }
}

impl GraphLink {
    /// The same edge with both ends moved by `m`, if both can be.
    pub fn try_remap(&self, m: &Vec<Option<usize>>) -> (r: Option<GraphLink>)
        ensures
            match r {
                Some(l) => self.from.group_id < m@.len() && m@[self.from.group_id as int] == Some(l.from.group_id)
                    && self.to.group_id < m@.len() && m@[self.to.group_id as int] == Some(l.to.group_id)
                    && l.from.node_id == self.from.node_id && l.to.node_id == self.to.node_id
                    && opt_view(l.color) == opt_view(self.color) && l.is_bold == self.is_bold,
                None => self.from.group_id >= m@.len() || m@[self.from.group_id as int] is None
                    || self.to.group_id >= m@.len() || m@[self.to.group_id as int] is None,
            },
    {
        let from = match self.from.try_remap(m) {
            Some(e) => e,
            None => return None,
        };
        let to = match self.to.try_remap(m) {
            Some(e) => e,
            None => return None,
        };
        Some(GraphLink { from, to, color: copy_opt_text(&self.color), is_bold: self.is_bold })
    }
}

/// A copy of an optional string.
fn copy_opt_text(a: &Option<String>) -> (r: Option<String>)
    ensures
        opt_view(r) == opt_view(*a),
{
    match a {
        Some(x) => Some(x.clone()),
        None => None,
    }
}

/// The color of the `j`-th zoomed copy.
fn zoom_color_exec(j: usize) -> (r: String)
    ensures
        r@ == zoom_color_name(j as int),
{
    let k = j % 6;
    if k == 0 {
        String::from_str("powderblue")
    } else if k == 1 {
        String::from_str("peachpuff")
    } else if k == 2 {
        String::from_str("thistle")
    } else if k == 3 {
        String::from_str("honeydew")
    } else if k == 4 {
        String::from_str("khaki")
    } else {
        String::from_str("lavender")
    }
}

impl Graph {
    /// The groups, a group's id being its position.
    pub fn groups(&self) -> (r: &Vec<Group>)
        ensures
            views(r@) == self@.groups,
    {
        &self.groups
    }

    /// The edges, without repeats.
    pub fn links(&self) -> (r: &Vec<GraphLink>)
        ensures
            views(r@) == self@.links,
    {
        &self.links
    }

    /// The ids of the zoomed copies.
    pub fn zoomed(&self) -> (r: &Vec<usize>)
        ensures
            r@.map_values(|z: usize| z as nat) == self@.zoomed,
    {
        &self.zoomed
    }
}

/// The view of an optional edge.
pub open spec fn opt_link(r: Option<GraphLink>) -> Option<GraphLinkView> {
    match r {
        Some(l) => Some(l@),
        None => None,
    }
}

/// There are no more zoomed groups among the first `n` than `n`.
pub proof fn lemma_zoom_list_len(b: BuilderView, n: int)
    ensures
        zoom_list(b, n).len() <= if n < 0 {
            0
        } else {
            n
        },
    decreases n,
{
    if n > 0 {
        lemma_zoom_list_len(b, n - 1);
    }
}

/// The remapping table of the zoomed groups: group `h` goes to its copy.
pub open spec fn remap_table_ok(b: BuilderView, remap: Seq<Option<usize>>, n: int) -> bool {
    &&& remap.len() == n
    &&& forall|h: int|
        0 <= h < n ==> #[trigger] remap[h] == if is_zoomed(b, h as nat) {
            Some((b.graph.groups.len() + zoom_list(b, h).len()) as usize)
        } else {
            None
        }
}

/// Computes [`final_link`].
fn final_link_exec(l: &GraphLink, remap: &Vec<Option<usize>>, focus: &Vec<usize>, Ghost(b): Ghost<BuilderView>) -> (r: Option<GraphLink>)
    requires
        remap_table_ok(b, remap@, b.graph.groups.len() as int),
        b.graph.groups.len() <= usize::MAX / 2,
        l.from.group_id < b.graph.groups.len(),
        l.to.group_id < b.graph.groups.len(),
        focus@.map_values(|z: usize| z as nat) == b.focused,
    ensures
        opt_link(r) == final_link(b, l@),
{
    let fz = remap[l.from.group_id].is_some();
    let tz = remap[l.to.group_id].is_some();
    if !fz && !tz {
        let c = GraphLink {
            from: l.from.without_node(),
            to: l.to.without_node(),
            color: copy_opt_text(&l.color),
            is_bold: l.is_bold,
        };
        if c.from != c.to {
            return Some(c);
        } else {
            assert(c.from@ == c.to@);
            return None;
        }
    }
    let ff = usize_list_holds(focus, l.from.group_id);
    let tf = usize_list_holds(focus, l.to.group_id);
    if !(focus.len() == 0 || l.from.group_id == l.to.group_id || ff || tf) {
        return None;
    }
    proof {
        lemma_zoom_list_len(b, l.from.group_id as int);
        lemma_zoom_list_len(b, l.to.group_id as int);
    }
    let from = match l.from.try_remap(remap) {
        Some(e) => e,
        None => l.from.without_node(),
    };
    let to = match l.to.try_remap(remap) {
        Some(e) => e,
        None => l.to.without_node(),
    };
    let color = if l.color.is_none() && l.from.group_id != l.to.group_id {
        if tf {
            Some(String::from_str("maroon"))
        } else if ff {
            Some(String::from_str("darkblue"))
        } else {
            None
        }
    } else {
        copy_opt_text(&l.color)
    };
    let z = GraphLink { from, to, color, is_bold: l.is_bold };
    if z.from != z.to {
        Some(z)
    } else {
        assert(z.from@ == z.to@);
        None
    }
}

impl GraphBuilder {
    /// The number of groups defined so far.
    pub fn group_count(&self) -> (r: usize)
        ensures
            r == self@.graph.groups.len(),
    {
        self.graph.groups.len()
    }

    /// Finishes the graph: see [`build_spec`].
    pub fn build(self) -> (g: Graph)
        requires
            self.wf(),
            self@.graph.groups.len() < usize::MAX / 2,
        ensures
            g@ == build_spec(self@),
    {
        let mut this = self;
        let ghost b = this@;
        let mut files: Vec<String> = Vec::new();
        let mut k: usize = 0;
        while k < this.path_maps.len()
            invariant
                this@ == b,
                k <= this.path_maps@.len(),
                strs(files@) == known_files(b.known).take(k as int),
            decreases this.path_maps.len() - k,
        {
            let f = this.path_maps[k].from.clone();
            let ghost before = strs(files@);
            let ghost fv = f@;
            files.push(f);
            assert(b.known[k as int] == (this.path_maps@[k as int].from@, this.path_maps@[k as int].to@));
            assert(known_files(b.known)[k as int] == fv);
            assert(strs(files@) =~= before.push(fv));
            assert(strs(files@) =~= known_files(b.known).take(k + 1));
            k = k + 1;
        }
        assert(known_files(b.known).take(k as int) =~= known_files(b.known));
        this.add_group(String::from_str("NO DEPENDENCIES OR GROUPS"), "gray85", &files);
        let ghost b1 = this@;
        assert(b1 == with_catch_all(b));
        assert(b1.graph.groups.len() <= b.graph.groups.len() + 1);
        let count = this.graph.groups.len();
        let mut copies: Vec<Group> = Vec::new();
        let mut remap: Vec<Option<usize>> = Vec::new();
        let mut g: usize = 0;
        while g < count
            invariant
                this@ == b1,
                placement_wf(this@),
                count == b1.graph.groups.len(),
                count <= usize::MAX / 2,
                g <= count,
                remap_table_ok(b1, remap@, g as int),
                copies@.len() == zoom_list(b1, g as int).len(),
                forall|j: int| 0 <= j < copies@.len() ==> #[trigger] copies@[j]@ == zoom_copy(
                    b1.graph.groups[zoom_list(b1, g as int)[j] as int],
                    count as nat,
                    j,
                ),
            decreases count - g,
        {
            proof {
                lemma_zoom_list_len(b1, g as int);
            }
            if usize_list_holds(&this.graph.zoomed, g) {
                let j = copies.len();
                remap.push(Some(count + j));
                assert(this@.graph.groups[g as int] == this.graph.groups@[g as int]@);
                assert(this@.graph.groups[g as int].id == g);
                let c = this.graph.groups[g].zoomed(count + j, zoom_color_exec(j));
                copies.push(c);
                assert(zoom_list(b1, g + 1) == zoom_list(b1, g as int).push(g as nat));
            } else {
                remap.push(None);
            }
            g = g + 1;
        }
        let mut out: Vec<GraphLink> = Vec::new();
        let mut k: usize = 0;
        while k < this.graph.links.len()
            invariant
                this@ == b1,
                placement_wf(this@),
                count == b1.graph.groups.len(),
                count <= usize::MAX / 2,
                remap_table_ok(b1, remap@, count as int),
                k <= this.graph.links@.len(),
                views(out@) == final_links(b1, k as int),
            decreases this.graph.links.len() - k,
        {
            let l = &this.graph.links[k];
            assert(b1.graph.links[k as int] == l@);
            assert(valid_end(b1.graph.groups, b1.graph.links[k as int].from));
            assert(valid_end(b1.graph.groups, b1.graph.links[k as int].to));
            match final_link_exec(l, &remap, &this.focus_zoomed, Ghost(b1)) {
                Some(x) => {
                    if !links_hold(&out, &x) {
                        let ghost before = views(out@);
                        let ghost xv = x@;
                        out.push(x);
                        assert(views(out@) =~= before.push(xv));
                    }
                },
                None => {},
            }
            k = k + 1;
        }
        proof {
            lemma_zoom_list_len(b1, count as int);
        }
        let mut zoomed: Vec<usize> = Vec::new();
        let mut j: usize = 0;
        while j < copies.len()
            invariant
                j <= copies@.len(),
                copies@.len() <= count,
                count <= usize::MAX / 2,
                zoomed@.len() == j,
                forall|i: int| 0 <= i < j ==> #[trigger] zoomed@[i] == count + i,
            decreases copies.len() - j,
        {
            zoomed.push(count + j);
            j = j + 1;
        }
        let ghost copies_v = views(copies@);
        assert(copies_v =~= zoom_copies(b1));
        let mut groups = this.graph.groups;
        let ghost gv = views(groups@);
        groups.append(&mut copies);
        let r = Graph { groups, links: out, zoomed };
        assert(views(r.groups@) =~= gv + copies_v);
        assert(r@.zoomed =~= build_spec(b).zoomed);
        assert(r@ =~= build_spec(b));
        r
    }
}

} // verus!
