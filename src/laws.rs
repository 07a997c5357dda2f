//! Properties of the graph engine that relate several operations.
use vstd::prelude::*;
use crate::graph::{
    builder_wf, build_spec, define_group_spec, display_before, display_of, final_link, final_links,
    is_node, is_zoomed, kept, known_files, lemma_define_group_wf, lemma_with_group_wf, placed, placement_wf,
    with_catch_all, zoom_copies, zoom_list, BuilderView,
};

verus! {

/// Defining a group never puts a file into two groups, nor twice into one:
/// whatever files are given, every file of the result has one node.
pub proof fn lemma_placement_unique(b: BuilderView, name: Seq<char>, color: Seq<char>, paths: Seq<Seq<char>>)
    requires
        builder_wf(b),
    ensures
        ({
            let groups = define_group_spec(b, name, color, paths).graph.groups;
            forall|g1: int, n1: int, g2: int, n2: int|
                is_node(groups, g1, n1) && is_node(groups, g2, n2) && #[trigger] groups[g1].nodes[n1].path
                    == #[trigger] groups[g2].nodes[n2].path ==> g1 == g2 && n1 == n2
        }),
{
    lemma_define_group_wf(b, name, color, paths);
}

/// A file listed among the known entries has a display name.
proof fn lemma_known_has_display(known: Seq<(Seq<char>, Seq<char>)>, i: int, n: int)
    requires
        0 <= i < n <= known.len(),
    ensures
        display_before(known, known[i].0, n) is Some,
    decreases n,
{
    if known[n - 1].0 != known[i].0 {
        lemma_known_has_display(known, i, n - 1);
    }
}

/// A known, unplaced file of `paths` is kept.
proof fn lemma_kept_takes(b: BuilderView, paths: Seq<Seq<char>>, n: int, j: int)
    requires
        0 <= j < n <= paths.len(),
        display_of(b.known, paths[j]) is Some,
        !placed(b.graph.groups, paths[j]),
    ensures
        kept(b, paths, n).contains(paths[j]),
    decreases n,
{
    let k = kept(b, paths, n - 1);
    if j < n - 1 {
        lemma_kept_takes(b, paths, n - 1, j);
        let t = k.index_of(paths[j]);
        assert(kept(b, paths, n)[t] == paths[j]);
    } else if k.contains(paths[j]) {
        let t = k.index_of(paths[j]);
        assert(kept(b, paths, n)[t] == paths[j]);
    } else {
        assert(kept(b, paths, n)[k.len() as int] == paths[j]);
    }
}

/// The finished graph covers every known file: each lies in exactly one of
/// the graph's groups other than the zoomed copies, and every node of every
/// group is a known file.
pub proof fn lemma_catch_all_coverage(b: BuilderView)
    requires
        builder_wf(b),
    ensures
        ({
            let groups = build_spec(b).groups;
            &&& forall|i: int|
                #![trigger b.known[i]]
                0 <= i < b.known.len() ==> exists|g: int, n: int|
                    is_node(groups, g, n) && !groups[g].zoomed && #[trigger] groups[g].nodes[n].path
                        == b.known[i].0
            &&& forall|g1: int, n1: int, g2: int, n2: int|
                is_node(groups, g1, n1) && is_node(groups, g2, n2) && !groups[g1].zoomed
                    && !groups[g2].zoomed && #[trigger] groups[g1].nodes[n1].path
                    == #[trigger] groups[g2].nodes[n2].path ==> g1 == g2 && n1 == n2
            &&& forall|g: int, n: int|
                is_node(groups, g, n) ==> display_of(b.known, #[trigger] groups[g].nodes[n].path) is Some
        }),
{
    let b1 = with_catch_all(b);
    let files = known_files(b.known);
    if kept(b, files, files.len() as int).len() > 0 {
        lemma_with_group_wf(b, "NO DEPENDENCIES OR GROUPS"@, "gray85"@, files);
    }
    assert(placement_wf(b1));
    let copies = zoom_copies(b1);
    let groups = build_spec(b).groups;
    assert(groups == b1.graph.groups + copies);
    let c = b1.graph.groups.len() as int;
    assert forall|g: int| c <= g < groups.len() implies #[trigger] groups[g].zoomed by {
        assert(groups[g] == copies[g - c]);
    }
    assert forall|g: int| 0 <= g < c implies #[trigger] groups[g] == b1.graph.groups[g] by {}
    assert forall|i: int| #![trigger b.known[i]] 0 <= i < b.known.len() implies exists|g: int, n: int|
        is_node(groups, g, n) && !groups[g].zoomed && #[trigger] groups[g].nodes[n].path == b.known[i].0 by {
        let p = b.known[i].0;
        if placed(b.graph.groups, p) {
            let (g, n) = choose|g: int, n: int| is_node(b.graph.groups, g, n) && #[trigger] b.graph.groups[g].nodes[n].path == p;
            assert(b.graph.groups[g].id == g);
            assert(b1.graph.groups.len() >= b.graph.groups.len());
            assert(b1.graph.groups[g] == b.graph.groups[g]);
            assert(groups[g] == b1.graph.groups[g]);
            assert(is_node(groups, g, n) && !groups[g].zoomed && groups[g].nodes[n].path == p);
        } else {
            lemma_known_has_display(b.known, i, b.known.len() as int);
            assert(files[i] == p);
            lemma_kept_takes(b, files, files.len() as int, i);
            let ks = kept(b, files, files.len() as int);
            let t = ks.index_of(p);
            assert(ks.len() > 0);
            let last = b.graph.groups.len() as int;
            assert(b1.graph.groups[last].nodes[t].path == p);
            assert(groups[last] == b1.graph.groups[last]);
            assert(is_node(groups, last, t));
            assert(is_node(groups, last, t) && !groups[last].zoomed && groups[last].nodes[t].path == p);
        }
    }
    assert forall|g1: int, n1: int, g2: int, n2: int|
        is_node(groups, g1, n1) && is_node(groups, g2, n2) && !groups[g1].zoomed && !groups[g2].zoomed
            && #[trigger] groups[g1].nodes[n1].path == #[trigger] groups[g2].nodes[n2].path implies g1 == g2
        && n1 == n2 by {
        assert(g1 < c && g2 < c);
        assert(is_node(b1.graph.groups, g1, n1));
        assert(is_node(b1.graph.groups, g2, n2));
    }
    assert forall|g: int, n: int| is_node(groups, g, n) implies display_of(b.known, #[trigger] groups[g].nodes[n].path)
        is Some by {
        if g < c {
            assert(is_node(b1.graph.groups, g, n));
            assert(b1.graph.groups[g].nodes[n].id == n);
        } else {
            let zl = zoom_list(b1, c);
            lemma_zoom_list_bounds(b1, c);
            assert(groups[g] == copies[g - c]);
            let h = zl[g - c] as int;
            assert(groups[g].nodes == b1.graph.groups[h].nodes);
            assert(is_node(b1.graph.groups, h, n));
            assert(b1.graph.groups[h].nodes[n].id == n);
        }
    }
}

/// No edge of the finished graph starts where it ends.
pub proof fn lemma_no_self_links(b: BuilderView)
    ensures
        forall|k: int| 0 <= k < build_spec(b).links.len() ==> #[trigger] build_spec(b).links[k].from
            != build_spec(b).links[k].to,
{
    let b1 = with_catch_all(b);
    lemma_final_links_proper(b1, b1.graph.links.len() as int);
}

/// Every finished edge comes from [`final_link`], which drops self edges.
proof fn lemma_final_links_proper(b: BuilderView, n: int)
    ensures
        forall|k: int| 0 <= k < final_links(b, n).len() ==> #[trigger] final_links(b, n)[k].from
            != final_links(b, n)[k].to,
    decreases n,
{
    if n > 0 && n <= b.graph.links.len() {
        lemma_final_links_proper(b, n - 1);
        let o = final_links(b, n - 1);
        match final_link(b, b.graph.links[n - 1]) {
            Some(x) => {
                if !o.contains(x) {
                    assert forall|k: int| 0 <= k < o.push(x).len() implies #[trigger] o.push(x)[k].from
                        != o.push(x)[k].to by {
                        if k < o.len() {
                            assert(o.push(x)[k] == o[k]);
                        }
                    }
                }
            },
            None => {},
        }
    }
}

/// The zoomed groups among the first `n` are among the first `n`.
proof fn lemma_zoom_list_bounds(b: BuilderView, n: int)
    ensures
        forall|j: int| 0 <= j < zoom_list(b, n).len() ==> #[trigger] zoom_list(b, n)[j] < n,
    decreases n,
{
    if n > 0 {
        lemma_zoom_list_bounds(b, n - 1);
        let prev = zoom_list(b, n - 1);
        if is_zoomed(b, (n - 1) as nat) {
            assert forall|j: int| 0 <= j < prev.push((n - 1) as nat).len() implies #[trigger] prev.push(
                (n - 1) as nat,
            )[j] < n by {
                if j < prev.len() {
                    assert(prev.push((n - 1) as nat)[j] == prev[j]);
                }
            }
        }
    }
}

/// A zoomed group shows up at its rank among the zoomed groups.
proof fn lemma_zoom_list_at(b: BuilderView, g: int, n: int)
    requires
        0 <= g < n,
        is_zoomed(b, g as nat),
    ensures
        zoom_list(b, g).len() < zoom_list(b, n).len(),
        zoom_list(b, n)[zoom_list(b, g).len() as int] == g,
    decreases n,
{
    if g < n - 1 {
        lemma_zoom_list_at(b, g, n - 1);
    }
}

/// Zooming a group of N nodes gives the finished graph a copy of it with the
/// same N nodes, under a group id of its own, so its nodes (a node being
/// known by its group and its position there) differ from those of the zoomed group;
/// the zoomed group itself stays as it was.
pub proof fn lemma_zoom_copy(b: BuilderView, g: int)
    requires
        builder_wf(b),
        0 <= g < b.graph.groups.len(),
        is_zoomed(b, g as nat),
    ensures
        ({
            let b1 = with_catch_all(b);
            let out = build_spec(b);
            let z = (b1.graph.groups.len() + zoom_list(b1, g).len()) as int;
            &&& z < out.groups.len()
            &&& out.groups[g] == b.graph.groups[g]
            &&& out.groups[z].zoomed
            &&& out.groups[z].nodes == b.graph.groups[g].nodes
            &&& out.groups[z].nodes.len() == b.graph.groups[g].nodes.len()
            &&& out.groups[z].id != out.groups[g].id
            &&& out.zoomed.contains(out.groups[z].id)
        }),
{
    let b1 = with_catch_all(b);
    let files = known_files(b.known);
    if kept(b, files, files.len() as int).len() > 0 {
        lemma_with_group_wf(b, "NO DEPENDENCIES OR GROUPS"@, "gray85"@, files);
    }
    let c = b1.graph.groups.len() as int;
    assert(b1.graph.zoomed == b.graph.zoomed);
    assert(b1.graph.groups[g] == b.graph.groups[g]);
    lemma_zoom_list_at(b1, g, c);
    let r = zoom_list(b1, g).len() as int;
    let out = build_spec(b);
    let copies = zoom_copies(b1);
    assert(out.groups[c + r] == copies[r]);
    assert(out.groups[g] == b1.graph.groups[g]);
    assert(out.zoomed[r] == out.groups[c + r].id);
}

} // verus!
