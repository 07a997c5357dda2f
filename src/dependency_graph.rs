//! A plain record of nodes and of which node depends on which.
use vstd::prelude::*;
use crate::config::strs;
use crate::sources::add_text;
use crate::text::same_text;

verus! {

/// How a group of files came about.
#[derive(Debug, Clone, Copy, PartialEq, Eq, Structural, Hash, PartialOrd, Ord)]
pub enum FileGroupType {
    Manual,
    HeaderSource,
    Existing,
}

/// A single file, or a titled group of files.
#[derive(Debug, Clone, PartialEq, Eq, Hash, PartialOrd, Ord)]
pub enum Node {
    Single { name: String },
    Group { title: String, files: Vec<String>, group_type: FileGroupType },
}

pub enum NodeView {
    Single(Seq<char>),
    Group(Seq<char>, Seq<Seq<char>>, FileGroupType),
}

impl View for Node {
    type V = NodeView;

    open spec fn view(&self) -> NodeView {
        match self {
            Node::Single { name } => NodeView::Single(name@),
            Node::Group { title, files, group_type } => NodeView::Group(title@, strs(files@), *group_type),
        }
    }
}

/// Records dependencies between nodes.
pub trait DependencyGraph {
    /// Marks that `src` depends on `dest`.
    fn add_dependency(&mut self, src: String, dest: String);
}

/// Nodes (each once) and, per node name, the names it depends on (each
/// once), in the order first given.
#[derive(Debug, Clone)]
pub struct DependencyGroups {
    nodes: Vec<Node>,
    dependencies: Vec<(String, Vec<String>)>,
}

pub struct DependencyGroupsView {
    pub nodes: Seq<NodeView>,
    pub dependencies: Seq<(Seq<char>, Seq<Seq<char>>)>,
}

impl View for DependencyGroups {
    type V = DependencyGroupsView;

    closed spec fn view(&self) -> DependencyGroupsView {
        DependencyGroupsView {
            nodes: self.nodes@.map_values(|n: Node| n@),
            dependencies: self.dependencies@.map_values(|d: (String, Vec<String>)| (d.0@, strs(d.1@))),
        }
    }
}

/// `s` with `x` added, unless it is there already.
pub open spec fn add_node_once(s: Seq<NodeView>, x: NodeView) -> Seq<NodeView> {
    if s.contains(x) {
        s
    } else {
        s.push(x)
    }
}

/// The position of the first entry for `src` at or after `i`, or -1.
pub open spec fn find_source(deps: Seq<(Seq<char>, Seq<Seq<char>>)>, src: Seq<char>, i: int) -> int
    decreases deps.len() - i,
{
    if i < 0 || i >= deps.len() {
        -1
    } else if deps[i].0 == src {
        i
    } else {
        find_source(deps, src, i + 1)
    }
}

/// The dependencies after recording that `src` depends on `dest`.
pub open spec fn add_dep(deps: Seq<(Seq<char>, Seq<Seq<char>>)>, src: Seq<char>, dest: Seq<char>) -> Seq<(Seq<char>, Seq<Seq<char>>)> {
    let i = find_source(deps, src, 0);
    if i >= 0 {
        deps.update(i, (src, add_text(deps[i].1, dest)))
    } else {
        deps.push((src, seq![dest]))
    }
}

fn same_strings(a: &Vec<String>, b: &Vec<String>) -> (r: bool)
    ensures
        r == (strs(a@) == strs(b@)),
{
    if a.len() != b.len() {
        assert(strs(a@).len() != strs(b@).len());
        return false;
    }
    let mut k: usize = 0;
    while k < a.len()
        invariant
            a@.len() == b@.len(),
            k <= a@.len(),
            forall|j: int| 0 <= j < k ==> #[trigger] a@[j]@ == b@[j]@,
        decreases a.len() - k,
    {
        if !same_text(&a[k], &b[k]) {
            assert(strs(a@)[k as int] != strs(b@)[k as int]);
            return false;
        }
        k = k + 1;
    }
    assert(strs(a@) =~= strs(b@));
    true
}

fn same_node(a: &Node, b: &Node) -> (r: bool)
    ensures
        r == (a@ == b@),
{
    match (a, b) {
        (Node::Single { name: x }, Node::Single { name: y }) => same_text(x, y),
        (Node::Group { title: t1, files: f1, group_type: g1 }, Node::Group { title: t2, files: f2, group_type: g2 }) =>
            same_text(t1, t2) && same_strings(f1, f2) && *g1 == *g2,
        _ => false,
    }
}

impl DependencyGroups {
    pub fn new() -> (r: Self)
        ensures
            r@.nodes.len() == 0,
            r@.dependencies.len() == 0,
    {
        DependencyGroups { nodes: Vec::new(), dependencies: Vec::new() }
    }

    /// Adds a node, unless an equal one is there.
    pub fn add_node(&mut self, n: Node)
        ensures
            final(self)@.nodes == add_node_once(old(self)@.nodes, n@),
            final(self)@.dependencies == old(self)@.dependencies,
    {
        let mut k: usize = 0;
        while k < self.nodes.len()
            invariant
                self@ == old(self)@,
                k <= self.nodes@.len(),
                forall|j: int| 0 <= j < k ==> #[trigger] self.nodes@[j]@ != n@,
            decreases self.nodes.len() - k,
        {
            if same_node(&self.nodes[k], &n) {
                assert(self@.nodes[k as int] == n@);
                return;
            }
            k = k + 1;
        }
        proof {
            if self@.nodes.contains(n@) {
                let j = choose|j: int| 0 <= j < self@.nodes.len() && self@.nodes[j] == n@;
                assert(self.nodes@[j]@ == n@);
            }
        }
        let ghost nv = n@;
        self.nodes.push(n);
        assert(self@.nodes =~= old(self)@.nodes.push(nv));
        assert(self@.dependencies =~= old(self)@.dependencies);
    }

    /// Records that `src` depends on `dest`: see [`add_dep`].
    pub fn insert_dependency(&mut self, src: String, dest: String)
        ensures
            final(self)@.dependencies == add_dep(old(self)@.dependencies, src@, dest@),
            final(self)@.nodes == old(self)@.nodes,
    {
        let ghost deps = self@.dependencies;
        let mut i: usize = 0;
        while i < self.dependencies.len()
            invariant
                self@ == old(self)@,
                deps == self@.dependencies,
                i <= self.dependencies@.len(),
                find_source(deps, src@, 0) == find_source(deps, src@, i as int),
            decreases self.dependencies.len() - i,
        {
            assert(deps[i as int] == (self.dependencies@[i as int].0@, strs(self.dependencies@[i as int].1@)));
            if same_text(&self.dependencies[i].0, &src) {
                let mut targets = crate::sources::copy_strings(&self.dependencies[i].1);
                let mut k: usize = 0;
                let mut found = false;
                while k < targets.len()
                    invariant
                        k <= targets@.len(),
                        !found ==> forall|j: int| 0 <= j < k ==> #[trigger] targets@[j]@ != dest@,
                        found ==> strs(targets@).contains(dest@),
                    decreases targets.len() - k,
                {
                    if same_text(&targets[k], &dest) {
                        assert(strs(targets@)[k as int] == dest@);
                        found = true;
                    }
                    k = k + 1;
                }
                let ghost tv = strs(targets@);
                proof {
                    if !found && tv.contains(dest@) {
                        let j = choose|j: int| 0 <= j < tv.len() && tv[j] == dest@;
                        assert(targets@[j]@ == dest@);
                    }
                }
                let ghost dv = dest@;
                if !found {
                    targets.push(dest);
                    assert(strs(targets@) =~= tv.push(dv));
                }
                let ghost nt = strs(targets@);
                self.dependencies.set(i, (src, targets));
                assert(self@.dependencies =~= deps.update(i as int, (deps[i as int].0, nt)));
                assert(self@.dependencies =~= add_dep(deps, deps[i as int].0, dv));
                return;
            }
            i = i + 1;
        }
        let ghost sv = src@;
        let ghost dv = dest@;
        let list = vec![dest];
        assert(strs(list@) =~= seq![dv]);
        self.dependencies.push((src, list));
        assert(self@.dependencies =~= deps.push((sv, seq![dv])));
        assert(self@.nodes =~= old(self)@.nodes);
    }
}

impl DependencyGraph for DependencyGroups {
    fn add_dependency(&mut self, src: String, dest: String) {
        self.insert_dependency(src, dest)
    }
}

} // verus!
