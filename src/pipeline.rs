//! From the instructions of a configuration and the discovered files to the
//! finished graph.
use vstd::prelude::*;
use crate::config::{
    strs, views, ColorInstructionView, EdgeColorView, GraphInstructions,
    GraphInstructionsView, GroupEdgeEnd, GroupEdgeEndView, GroupInstruction, GroupInstructionView,
    MapInstruction, MapInstructionView, ZoomItemView,
};
use crate::graph::{
    add_link_spec, build_spec, color_spec, define_group_spec, display_of, ext_fold, gn_fold,
    zoom_spec, BuilderView, GnTarget, Graph, GraphBuilder, GraphView,
};
use crate::path_mapper::{invert_name, map_path, PathMapper, PathMapping, RuleView};
use crate::sources::{all_paths, DependencyData, DependencyView, SourceWithIncludes};
use crate::text::{occurs_at_exec, starts_with, to_chars};

verus! {

/// The display rules of the map instructions, in order.
pub open spec fn map_rules(ms: Seq<MapInstructionView>, n: int) -> Seq<RuleView>
    decreases n,
{
    if n <= 0 || n > ms.len() {
        Seq::empty()
    } else {
        match ms[n - 1] {
            MapInstructionView::DisplayMap { from, to } => map_rules(ms, n - 1).push((from, to)),
            _ => map_rules(ms, n - 1),
        }
    }
}

/// The kept prefixes of the map instructions, in order.
pub open spec fn keep_prefixes(ms: Seq<MapInstructionView>, n: int) -> Seq<Seq<char>>
    decreases n,
{
    if n <= 0 || n > ms.len() {
        Seq::empty()
    } else {
        match ms[n - 1] {
            MapInstructionView::Keep(p) => keep_prefixes(ms, n - 1).push(p),
            _ => keep_prefixes(ms, n - 1),
        }
    }
}

/// The dropped prefixes of the map instructions, in order.
pub open spec fn drop_prefixes(ms: Seq<MapInstructionView>, n: int) -> Seq<Seq<char>>
    decreases n,
{
    if n <= 0 || n > ms.len() {
        Seq::empty()
    } else {
        match ms[n - 1] {
            MapInstructionView::Drop(p) => drop_prefixes(ms, n - 1).push(p),
            _ => drop_prefixes(ms, n - 1),
        }
    }
}

/// A display name is shown when it starts with a kept prefix (or nothing
/// is kept explicitly) and with no dropped prefix.
pub open spec fn shown(d: Seq<char>, keeps: Seq<Seq<char>>, drops: Seq<Seq<char>>) -> bool {
    (keeps.len() == 0 || exists|k: int| 0 <= k < keeps.len() && starts_with(d, #[trigger] keeps[k]))
        && forall|k: int| 0 <= k < drops.len() ==> !starts_with(d, #[trigger] drops[k])
}

/// The known files among the first `n` of `paths`, with their display
/// names: those that a rule maps and whose display name is shown.
pub open spec fn known_entries(
    paths: Seq<Seq<char>>,
    rules: Seq<RuleView>,
    keeps: Seq<Seq<char>>,
    drops: Seq<Seq<char>>,
    n: int,
) -> Seq<(Seq<char>, Seq<char>)>
    decreases n,
{
    if n <= 0 || n > paths.len() {
        Seq::empty()
    } else {
        let prior = known_entries(paths, rules, keeps, drops, n - 1);
        match map_path(rules, paths[n - 1]) {
            Some(d) => if shown(d, keeps, drops) {
                prior.push((paths[n - 1], d))
            } else {
                prior
            },
            None => prior,
        }
    }
}

/// The extensions that pair sources with headers.
pub open spec fn paired_extensions() -> Seq<Seq<char>> {
    seq!["h"@, "cpp"@, "hpp"@, "c"@, "cxx"@]
}

/// The paths behind the first `n` display names that `rules` can invert.
pub open spec fn inverted(items: Seq<Seq<char>>, rules: Seq<RuleView>, n: int) -> Seq<Seq<char>>
    decreases n,
{
    if n <= 0 || n > items.len() {
        Seq::empty()
    } else {
        match invert_name(rules, items[n - 1]) {
            Some(p) => inverted(items, rules, n - 1).push(p),
            None => inverted(items, rules, n - 1),
        }
    }
}

/// The targets that the build tool gave for a group instruction.
pub type TargetsView = Option<Seq<(Seq<char>, Seq<Seq<char>>)>>;

/// The effect of one group instruction. A group from the build tool's
/// targets uses the targets loaded for it (none when loading failed); a
/// manual group lists display names, which are turned back into paths.
pub open spec fn group_step(b: BuilderView, g: GroupInstructionView, targets: TargetsView, rules: Seq<RuleView>) -> BuilderView {
    match g {
        GroupInstructionView::GroupSourceHeader => ext_fold(b, paired_extensions(), b.known.len() as int),
        GroupInstructionView::GroupFromGn { ignore_targets, .. } => match targets {
            Some(ts) => gn_fold(b, ts, ignore_targets, ts.len() as int),
            None => b,
        },
        GroupInstructionView::ManualGroup { name, color, items } => define_group_spec(
            b,
            name,
            match color {
                Some(c) => c,
                None => "orange"@,
            },
            inverted(items, rules, items.len() as int),
        ),
    }
}

/// The targets loaded for group instruction `k`.
pub open spec fn targets_at(ts: Seq<TargetsView>, k: int) -> TargetsView {
    if 0 <= k < ts.len() {
        ts[k]
    } else {
        None
    }
}

/// The first `k` group instructions, in order.
pub open spec fn group_fold(b: BuilderView, gs: Seq<GroupInstructionView>, ts: Seq<TargetsView>, rules: Seq<RuleView>, k: int) -> BuilderView
    decreases k,
{
    if k <= 0 || k > gs.len() {
        b
    } else {
        group_step(group_fold(b, gs, ts, rules, k - 1), gs[k - 1], targets_at(ts, k - 1), rules)
    }
}

/// The first `k` zoom items, in order.
pub open spec fn zoom_fold(b: BuilderView, zs: Seq<ZoomItemView>, k: int) -> BuilderView
    decreases k,
{
    if k <= 0 || k > zs.len() {
        b
    } else {
        let z = zs[k - 1];
        zoom_spec(zoom_fold(b, zs, k - 1), z.name, z.focused)
    }
}

/// Edges from file `from` to the first `j` of `targets` that are known.
pub open spec fn target_fold(b: BuilderView, from: Seq<char>, targets: Seq<Seq<char>>, j: int) -> BuilderView
    decreases j,
{
    if j <= 0 || j > targets.len() {
        b
    } else {
        let prior = target_fold(b, from, targets, j - 1);
        if display_of(prior.known, targets[j - 1]) is Some {
            add_link_spec(prior, from, targets[j - 1])
        } else {
            prior
        }
    }
}

/// The edges of the first `k` scanned files whose own file is known.
pub open spec fn link_fold(b: BuilderView, files: Seq<(Seq<char>, Seq<Seq<char>>)>, k: int) -> BuilderView
    decreases k,
{
    if k <= 0 || k > files.len() {
        b
    } else {
        let prior = link_fold(b, files, k - 1);
        let f = files[k - 1];
        if display_of(prior.known, f.0) is Some {
            target_fold(prior, f.0, f.1, f.1.len() as int)
        } else {
            prior
        }
    }
}

/// The first `k` color instructions, in order.
pub open spec fn color_fold(b: BuilderView, cs: Seq<ColorInstructionView>, k: int) -> BuilderView
    decreases k,
{
    if k <= 0 || k > cs.len() {
        b
    } else {
        let c = cs[k - 1];
        let (name, at_from) = match c.end {
            GroupEdgeEndView::From(n) => (n, true),
            GroupEdgeEndView::To(n) => (n, false),
        };
        let (color, bold) = match c.color {
            EdgeColorView::Regular(x) => (x, false),
            EdgeColorView::Bold(x) => (x, true),
        };
        color_spec(color_fold(b, cs, k - 1), name, at_from, color, bold)
    }
}

/// The builder once every instruction has been applied: known files from
/// the map instructions, then groups, zoom marks, edges and colors, each in
/// the order given.
pub open spec fn configured(g: GraphInstructionsView, data: DependencyView, ts: Seq<TargetsView>) -> BuilderView {
    let ms = g.map_instructions;
    let rules = map_rules(ms, ms.len() as int);
    let paths = all_paths(data.files, data.files.len() as int);
    let known = known_entries(
        paths,
        rules,
        keep_prefixes(ms, ms.len() as int),
        drop_prefixes(ms, ms.len() as int),
        paths.len() as int,
    );
    let b0 = BuilderView {
        graph: GraphView { groups: Seq::empty(), links: Seq::empty(), zoomed: Seq::empty() },
        known,
        focused: Seq::empty(),
    };
    let b1 = group_fold(b0, g.group_instructions, ts, rules, g.group_instructions.len() as int);
    let b2 = zoom_fold(b1, g.zoom_items, g.zoom_items.len() as int);
    let b3 = link_fold(b2, data.files, data.files.len() as int);
    color_fold(b3, g.color_instructions, g.color_instructions.len() as int)
}

/// The view of the targets loaded for each group instruction.
pub open spec fn targets_view(ts: Seq<Option<Vec<GnTarget>>>) -> Seq<TargetsView> {
    ts.map_values(
        |o: Option<Vec<GnTarget>>|
            match o {
                Some(v) => Some(views(v@)),
                None => None,
            },
    )
}

/// Why a graph could not be finished.
#[derive(Debug, Clone, Copy, PartialEq, Eq, Structural)]
pub enum GraphError {
    /// More groups than ids can be given to, with their zoomed copies.
    TooManyGroups,
}

/// A copy of a list of targets.
fn copy_targets(v: &Vec<GnTarget>) -> (r: Vec<GnTarget>)
    ensures
        views(r@) == views(v@),
{
    let mut out: Vec<GnTarget> = Vec::new();
    let mut k: usize = 0;
    while k < v.len()
        invariant
            k <= v@.len(),
            views(out@) == views(v@).take(k as int),
        decreases v.len() - k,
    {
        let t = GnTarget { name: v[k].name.clone(), sources: crate::sources::copy_strings(&v[k].sources) };
        let ghost before = views(out@);
        let ghost tv = t@;
        out.push(t);
        assert(tv == views(v@)[k as int]);
        assert(views(out@) =~= before.push(tv));
        assert(views(out@) =~= views(v@).take(k + 1));
        k = k + 1;
    }
    assert(views(v@).take(k as int) =~= views(v@));
    out
}

/// The display rules, kept prefixes and dropped prefixes of the map
/// instructions.
fn read_map_instructions(ms: &Vec<MapInstruction>) -> (r: (PathMapper, Vec<String>, Vec<String>))
    ensures
        r.0@ == map_rules(views(ms@), ms@.len() as int),
        strs(r.1@) == keep_prefixes(views(ms@), ms@.len() as int),
        strs(r.2@) == drop_prefixes(views(ms@), ms@.len() as int),
{
    let ghost mv = views(ms@);
    let mut mapper = PathMapper::new();
    let mut keeps: Vec<String> = Vec::new();
    let mut drops: Vec<String> = Vec::new();
    let mut k: usize = 0;
    while k < ms.len()
        invariant
            mv == views(ms@),
            k <= ms@.len(),
            mapper@ == map_rules(mv, k as int),
            strs(keeps@) == keep_prefixes(mv, k as int),
            strs(drops@) == drop_prefixes(mv, k as int),
        decreases ms.len() - k,
    {
        assert(mv[k as int] == ms@[k as int]@);
        match &ms[k] {
            MapInstruction::DisplayMap { from, to } => {
                mapper.add_mapping(PathMapping { from: from.clone(), to: to.clone() });
            },
            MapInstruction::Keep(p) => {
                let ghost before = strs(keeps@);
                keeps.push(p.clone());
                assert(strs(keeps@) =~= before.push(p@));
            },
            MapInstruction::Drop(p) => {
                let ghost before = strs(drops@);
                drops.push(p.clone());
                assert(strs(drops@) =~= before.push(p@));
            },
        }
        k = k + 1;
    }
    (mapper, keeps, drops)
}

/// Whether `d` starts with one of `prefixes`.
fn starts_with_any(d: &Vec<char>, prefixes: &Vec<String>) -> (r: bool)
    ensures
        r == exists|k: int| 0 <= k < prefixes@.len() && starts_with(d@, #[trigger] strs(prefixes@)[k]),
{
    let mut k: usize = 0;
    while k < prefixes.len()
        invariant
            k <= prefixes@.len(),
            forall|j: int| 0 <= j < k ==> !starts_with(d@, #[trigger] strs(prefixes@)[j]),
        decreases prefixes.len() - k,
    {
        let pc = to_chars(prefixes[k].as_str());
        assert(strs(prefixes@)[k as int] == prefixes@[k as int]@);
        if occurs_at_exec(d, 0, &pc) {
            return true;
        }
        k = k + 1;
    }
    false
}

/// Computes [`shown`].
fn shown_exec(d: &String, keeps: &Vec<String>, drops: &Vec<String>) -> (r: bool)
    ensures
        r == shown(d@, strs(keeps@), strs(drops@)),
{
    let dc = to_chars(d.as_str());
    (keeps.len() == 0 || starts_with_any(&dc, keeps)) && !starts_with_any(&dc, drops)
}

/// Adds the entry for `p`, when a rule maps it and its name is shown.
fn add_known(
    known: &mut Vec<PathMapping>,
    p: &String,
    mapper: &PathMapper,
    keeps: &Vec<String>,
    drops: &Vec<String>,
)
    ensures
        final(known)@.map_values(|m: PathMapping| (m.from@, m.to@)) == match map_path(mapper@, p@) {
            Some(d) => if shown(d, strs(keeps@), strs(drops@)) {
                old(known)@.map_values(|m: PathMapping| (m.from@, m.to@)).push((p@, d))
            } else {
                old(known)@.map_values(|m: PathMapping| (m.from@, m.to@))
            },
            None => old(known)@.map_values(|m: PathMapping| (m.from@, m.to@)),
        },
{
    match mapper.try_map(p.as_str()) {
        Some(d) => {
            if shown_exec(&d, keeps, drops) {
                let ghost before = old(known)@.map_values(|m: PathMapping| (m.from@, m.to@));
                let ghost dv = d@;
                known.push(PathMapping { from: p.clone(), to: d });
                assert(known@.map_values(|m: PathMapping| (m.from@, m.to@)) =~= before.push((p@, dv)));
            }
        },
        None => {},
    }
}

/// The known files of the discovered data, with their display names: see
/// [`known_entries`].
fn known_files_of(data: &DependencyData, mapper: &PathMapper, keeps: &Vec<String>, drops: &Vec<String>) -> (r: Vec<PathMapping>)
    ensures
        r@.map_values(|m: PathMapping| (m.from@, m.to@)) == known_entries(
            all_paths(data@.files, data@.files.len() as int),
            mapper@,
            strs(keeps@),
            strs(drops@),
            all_paths(data@.files, data@.files.len() as int).len() as int,
        ),
{
    let ghost files = data@.files;
    let ghost rules = mapper@;
    let ghost ks = strs(keeps@);
    let ghost ds = strs(drops@);
    let ghost all = all_paths(files, files.len() as int);
    let fs = data.files();
    let mut known: Vec<PathMapping> = Vec::new();
    let mut k: usize = 0;
    while k < fs.len()
        invariant
            files == data@.files,
            fs@.map_values(|f: SourceWithIncludes| (f.path@, strs(f.includes@))) == files,
            rules == mapper@,
            ks == strs(keeps@),
            ds == strs(drops@),
            k <= fs@.len(),
            known@.map_values(|m: PathMapping| (m.from@, m.to@)) == known_entries(
                all_paths(files, k as int),
                rules,
                ks,
                ds,
                all_paths(files, k as int).len() as int,
            ),
        decreases fs.len() - k,
    {
        let f = &fs[k];
        assert(files[k as int] == (f.path@, strs(f.includes@)));
        let ghost prefix = all_paths(files, k as int);
        let mut j: usize = 0;
        while j < f.includes.len()
            invariant
                rules == mapper@,
                ks == strs(keeps@),
                ds == strs(drops@),
                j <= f.includes@.len(),
                known@.map_values(|m: PathMapping| (m.from@, m.to@)) == known_entries(
                    prefix + strs(f.includes@).take(j as int),
                    rules,
                    ks,
                    ds,
                    prefix.len() + j,
                ),
            decreases f.includes.len() - j,
        {
            let ghost pre = prefix + strs(f.includes@).take(j as int);
            let ghost next = prefix + strs(f.includes@).take(j + 1);
            assert(strs(f.includes@)[j as int] == f.includes@[j as int]@);
            proof {
                lemma_known_entries_prefix(pre, next, rules, ks, ds, pre.len() as int);
            }
            add_known(&mut known, &f.includes[j], mapper, keeps, drops);
            assert(next[pre.len() as int] == f.includes@[j as int]@);
            j = j + 1;
        }
        let ghost pre = prefix + strs(f.includes@);
        let ghost next = all_paths(files, k + 1);
        assert(strs(f.includes@).take(j as int) =~= strs(f.includes@));
        assert(next =~= pre + seq![f.path@]);
        proof {
            lemma_known_entries_prefix(pre, next, rules, ks, ds, pre.len() as int);
        }
        add_known(&mut known, &f.path, mapper, keeps, drops);
        k = k + 1;
    }
    known
}

/// `known_entries` depends only on the paths it has looked at.
proof fn lemma_known_entries_prefix(
    a: Seq<Seq<char>>,
    b: Seq<Seq<char>>,
    rules: Seq<RuleView>,
    keeps: Seq<Seq<char>>,
    drops: Seq<Seq<char>>,
    n: int,
)
    requires
        0 <= n <= a.len(),
        n <= b.len(),
        forall|i: int| 0 <= i < n ==> a[i] == b[i],
    ensures
        known_entries(a, rules, keeps, drops, n) == known_entries(b, rules, keeps, drops, n),
    decreases n,
{
    if n > 0 {
        lemma_known_entries_prefix(a, b, rules, keeps, drops, n - 1);
    }
}

/// The paths behind the display names `items`: see [`inverted`].
fn invert_items(items: &Vec<String>, mapper: &PathMapper) -> (r: Vec<String>)
    ensures
        strs(r@) == inverted(strs(items@), mapper@, items@.len() as int),
{
    let mut out: Vec<String> = Vec::new();
    let mut k: usize = 0;
    while k < items.len()
        invariant
            k <= items@.len(),
            strs(out@) == inverted(strs(items@), mapper@, k as int),
        decreases items.len() - k,
    {
        assert(strs(items@)[k as int] == items@[k as int]@);
        match mapper.try_invert(items[k].as_str()) {
            Some(p) => {
                let ghost before = strs(out@);
                let ghost pv = p@;
                out.push(p);
                assert(strs(out@) =~= before.push(pv));
            },
            None => {},
        }
        k = k + 1;
    }
    out
}

/// The extensions that pair sources with headers, as strings.
fn paired_extension_list() -> (r: Vec<String>)
    ensures
        strs(r@) == paired_extensions(),
{
    let r = vec![
        String::from_str("h"),
        String::from_str("cpp"),
        String::from_str("hpp"),
        String::from_str("c"),
        String::from_str("cxx"),
    ];
    assert(strs(r@) =~= paired_extensions());
    r
}

/// Applies every instruction of `graph` to the discovered `data` and
/// finishes the graph; see [`configured`] and [`build_spec`]. `targets`
/// holds, at the position of each group instruction that asks for the build
/// tool's targets, what the tool listed (nothing where it failed).
pub fn build_graph_from(graph: &GraphInstructions, data: &DependencyData, targets: &Vec<Option<Vec<GnTarget>>>) -> (r: Result<Graph, GraphError>)
    ensures
        match r {
            Ok(g) => configured(graph@, data@, targets_view(targets@)).graph.groups.len() < usize::MAX / 2
                && g@ == build_spec(configured(graph@, data@, targets_view(targets@))),
            Err(_) => configured(graph@, data@, targets_view(targets@)).graph.groups.len() >= usize::MAX / 2,
        },
{
    let ghost gv = graph@;
    let ghost ts = targets_view(targets@);
    let (mapper, keeps, drops) = read_map_instructions(&graph.map_instructions);
    let known = known_files_of(data, &mapper, &keeps, &drops);
    let mut b = GraphBuilder::new(known);
    let ghost b0 = b@;
    let ghost rules = mapper@;
    assert(b0.graph.groups =~= Seq::<crate::graph::GroupView>::empty());
    assert(b0.graph.links =~= Seq::<crate::graph::GraphLinkView>::empty());
    assert(b0.graph.zoomed =~= Seq::<nat>::empty());
    assert(b0.focused =~= Seq::<nat>::empty());
    assert(b0 == BuilderView {
        graph: GraphView { groups: Seq::empty(), links: Seq::empty(), zoomed: Seq::empty() },
        known: b0.known,
        focused: Seq::empty(),
    });
    let gs = &graph.group_instructions;
    let mut k: usize = 0;
    while k < gs.len()
        invariant
            gv == graph@,
            ts == targets_view(targets@),
            rules == mapper@,
            gv.group_instructions == views(gs@),
            k <= gs@.len(),
            b.wf(),
            b@ == group_fold(b0, gv.group_instructions, ts, rules, k as int),
        decreases gs.len() - k,
    {
        assert(gv.group_instructions[k as int] == gs@[k as int]@);
        match &gs[k] {
            GroupInstruction::GroupSourceHeader => {
                let exts = paired_extension_list();
                b.group_extensions(&exts);
            },
            GroupInstruction::GroupFromGn { ignore_targets, .. } => {
                if k < targets.len() {
                    match &targets[k] {
                        Some(list) => {
                            assert(ts[k as int] == Some(views(list@)));
                            let copy = copy_targets(list);
                            b.add_groups_from_gn(copy, ignore_targets);
                        },
                        None => {},
                    }
                }
            },
            GroupInstruction::ManualGroup { name, color, items } => {
                let paths = invert_items(items, &mapper);
                match color {
                    Some(c) => {
                        b.define_group(name.as_str(), c.as_str(), &paths);
                    },
                    None => {
                        b.define_group(name.as_str(), "orange", &paths);
                    },
                }
            },
        }
        k = k + 1;
    }
    let ghost b1 = b@;
    let zs = &graph.zoom_items;
    let mut k: usize = 0;
    while k < zs.len()
        invariant
            gv == graph@,
            gv.zoom_items == views(zs@),
            k <= zs@.len(),
            b.wf(),
            b@ == zoom_fold(b1, gv.zoom_items, k as int),
        decreases zs.len() - k,
    {
        assert(gv.zoom_items[k as int] == zs@[k as int]@);
        b.zoom_in(zs[k].name.as_str(), zs[k].focused);
        k = k + 1;
    }
    let ghost b2 = b@;
    let ghost files = data@.files;
    let fs = data.files();
    let mut k: usize = 0;
    while k < fs.len()
        invariant
            files == data@.files,
            fs@.map_values(|f: SourceWithIncludes| (f.path@, strs(f.includes@))) == files,
            k <= fs@.len(),
            b.wf(),
            b@ == crate::pipeline::link_fold(b2, files, k as int),
        decreases fs.len() - k,
    {
        let f = &fs[k];
        assert(files[k as int] == (f.path@, strs(f.includes@)));
        if b.known_path(f.path.as_str()) {
            let ghost bk = b@;
            let mut j: usize = 0;
            while j < f.includes.len()
                invariant
                    j <= f.includes@.len(),
                    b.wf(),
                    b@ == target_fold(bk, f.path@, strs(f.includes@), j as int),
                    b@.known == bk.known,
                decreases f.includes.len() - j,
            {
                assert(strs(f.includes@)[j as int] == f.includes@[j as int]@);
                if b.known_path(f.includes[j].as_str()) {
                    b.add_link(f.path.as_str(), f.includes[j].as_str());
                    proof {
                        lemma_add_link_known(target_fold(bk, f.path@, strs(f.includes@), j as int), f.path@, f.includes@[j as int]@);
                    }
                }
                j = j + 1;
            }
            assert(strs(f.includes@).len() == f.includes@.len());
        }
        k = k + 1;
    }
    let ghost b3 = b@;
    let cs = &graph.color_instructions;
    let mut k: usize = 0;
    while k < cs.len()
        invariant
            gv == graph@,
            gv.color_instructions == views(cs@),
            k <= cs@.len(),
            b.wf(),
            b@ == color_fold(b3, gv.color_instructions, k as int),
        decreases cs.len() - k,
    {
        let c = &cs[k];
        assert(gv.color_instructions[k as int] == c@);
        let color = c.color.color_name();
        let bold = c.color.is_bold();
        match &c.end {
            GroupEdgeEnd::From(n) => b.color_from(n.as_str(), color.as_str(), bold),
            GroupEdgeEnd::To(n) => b.color_to(n.as_str(), color.as_str(), bold),
        }
        k = k + 1;
    }
    assert(b@ == configured(gv, data@, ts));
    if b.group_count() >= usize::MAX / 2 {
        return Err(GraphError::TooManyGroups);
    }
    Ok(b.build())
}

/// Adding an edge leaves the known files as they were.
proof fn lemma_add_link_known(b: BuilderView, from: Seq<char>, to: Seq<char>)
    ensures
        add_link_spec(b, from, to).known == b.known,
{
}

} // verus!
