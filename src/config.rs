//! The instructions that a configuration describes, after parsing.
use vstd::prelude::*;
use crate::expand::{expand, BindingView, VariableMap};

verus! {

/// How files are named and filtered for display.
#[derive(Debug, Clone, PartialEq)]
pub enum MapInstruction {
    /// Paths under `from` are shown with the prefix `to`.
    DisplayMap { from: String, to: String },
    /// Only display names with one of the kept prefixes are shown.
    Keep(String),
    /// Display names with a dropped prefix are not shown.
    Drop(String),
}

/// How files are put into groups.
#[derive(Debug, Clone, PartialEq)]
pub enum GroupInstruction {
    /// Files that differ only in their extension form one group.
    GroupSourceHeader,
    /// One group per target that the build tool lists.
    GroupFromGn {
        gn_root: String,
        target: String,
        source_root: String,
        ignore_targets: Vec<String>,
    },
    /// A group listed by hand, by display names.
    ManualGroup { name: String, color: Option<String>, items: Vec<String> },
}

/// A group to show expanded; a focused one also filters the edges.
#[derive(Debug, Clone, PartialEq)]
pub struct ZoomItem {
    pub name: String,
    pub focused: bool,
}

/// The end of an edge that a color instruction selects by group name.
#[derive(Debug, Clone, PartialEq)]
pub enum GroupEdgeEnd {
    From(String),
    To(String),
}

/// An edge color, plain or bold.
#[derive(Debug, Clone, PartialEq)]
pub enum EdgeColor {
    Regular(String),
    Bold(String),
}

/// Colors the edges that leave or enter a group.
#[derive(Debug, Clone, PartialEq)]
pub struct ColorInstruction {
    pub end: GroupEdgeEnd,
    pub color: EdgeColor,
}

/// Where the files and their search directories come from.
#[derive(Debug, Clone, PartialEq)]
pub enum InputCommand {
    LoadCompileDb { path: String, load_includes: bool, load_sources: bool },
    IncludeDirectory(String),
    Glob(String),
}

/// The instructions of the `graph` block.
#[derive(Debug, Clone, PartialEq)]
pub struct GraphInstructions {
    pub map_instructions: Vec<MapInstruction>,
    pub group_instructions: Vec<GroupInstruction>,
    pub color_instructions: Vec<ColorInstruction>,
    pub zoom_items: Vec<ZoomItem>,
}

/// A whole configuration, with every token expanded.
#[derive(Debug, Clone)]
pub struct ConfigurationFile {
    pub variable_map: VariableMap,
    pub input_commands: Vec<InputCommand>,
    pub graph: GraphInstructions,
}

pub enum MapInstructionView {
    DisplayMap { from: Seq<char>, to: Seq<char> },
    Keep(Seq<char>),
    Drop(Seq<char>),
}

pub enum GroupInstructionView {
    GroupSourceHeader,
    GroupFromGn {
        gn_root: Seq<char>,
        target: Seq<char>,
        source_root: Seq<char>,
        ignore_targets: Seq<Seq<char>>,
    },
    ManualGroup { name: Seq<char>, color: Option<Seq<char>>, items: Seq<Seq<char>> },
}

pub struct ZoomItemView {
    pub name: Seq<char>,
    pub focused: bool,
}

pub enum GroupEdgeEndView {
    From(Seq<char>),
    To(Seq<char>),
}

pub enum EdgeColorView {
    Regular(Seq<char>),
    Bold(Seq<char>),
}

pub struct ColorInstructionView {
    pub end: GroupEdgeEndView,
    pub color: EdgeColorView,
}

pub enum InputCommandView {
    LoadCompileDb { path: Seq<char>, load_includes: bool, load_sources: bool },
    IncludeDirectory(Seq<char>),
    Glob(Seq<char>),
}

pub struct GraphInstructionsView {
    pub map_instructions: Seq<MapInstructionView>,
    pub group_instructions: Seq<GroupInstructionView>,
    pub color_instructions: Seq<ColorInstructionView>,
    pub zoom_items: Seq<ZoomItemView>,
}

pub struct ConfigurationView {
    pub variables: Seq<BindingView>,
    pub input_commands: Seq<InputCommandView>,
    pub graph: GraphInstructionsView,
}

impl View for ConfigurationFile {
    type V = ConfigurationView;

    open spec fn view(&self) -> ConfigurationView {
        ConfigurationView {
            variables: self.variable_map@,
            input_commands: views(self.input_commands@),
            graph: self.graph@,
        }
    }
}

/// The character sequences of a list of strings.
pub open spec fn strs(v: Seq<String>) -> Seq<Seq<char>> {
    v.map_values(|s: String| s@)
}

impl View for MapInstruction {
    type V = MapInstructionView;

    open spec fn view(&self) -> MapInstructionView {
        match self {
            MapInstruction::DisplayMap { from, to } => MapInstructionView::DisplayMap { from: from@, to: to@ },
            MapInstruction::Keep(p) => MapInstructionView::Keep(p@),
            MapInstruction::Drop(p) => MapInstructionView::Drop(p@),
        }
    }
}

impl View for GroupInstruction {
    type V = GroupInstructionView;

    open spec fn view(&self) -> GroupInstructionView {
        match self {
            GroupInstruction::GroupSourceHeader => GroupInstructionView::GroupSourceHeader,
            GroupInstruction::GroupFromGn { gn_root, target, source_root, ignore_targets } =>
                GroupInstructionView::GroupFromGn {
                    gn_root: gn_root@,
                    target: target@,
                    source_root: source_root@,
                    ignore_targets: strs(ignore_targets@),
                },
            GroupInstruction::ManualGroup { name, color, items } => GroupInstructionView::ManualGroup {
                name: name@,
                color: match color {
                    Some(c) => Some(c@),
                    None => None,
                },
                items: strs(items@),
            },
        }
    }
}

impl View for ZoomItem {
    type V = ZoomItemView;

    open spec fn view(&self) -> ZoomItemView {
        ZoomItemView { name: self.name@, focused: self.focused }
    }
}

impl View for GroupEdgeEnd {
    type V = GroupEdgeEndView;

    open spec fn view(&self) -> GroupEdgeEndView {
        match self {
            GroupEdgeEnd::From(n) => GroupEdgeEndView::From(n@),
            GroupEdgeEnd::To(n) => GroupEdgeEndView::To(n@),
        }
    }
}

impl View for EdgeColor {
    type V = EdgeColorView;

    open spec fn view(&self) -> EdgeColorView {
        match self {
            EdgeColor::Regular(c) => EdgeColorView::Regular(c@),
            EdgeColor::Bold(c) => EdgeColorView::Bold(c@),
        }
    }
}

impl View for ColorInstruction {
    type V = ColorInstructionView;

    open spec fn view(&self) -> ColorInstructionView {
        ColorInstructionView { end: self.end@, color: self.color@ }
    }
}

impl View for InputCommand {
    type V = InputCommandView;

    open spec fn view(&self) -> InputCommandView {
        match self {
            InputCommand::LoadCompileDb { path, load_includes, load_sources } =>
                InputCommandView::LoadCompileDb {
                    path: path@,
                    load_includes: *load_includes,
                    load_sources: *load_sources,
                },
            InputCommand::IncludeDirectory(p) => InputCommandView::IncludeDirectory(p@),
            InputCommand::Glob(p) => InputCommandView::Glob(p@),
        }
    }
}

/// The views of the elements of a list.
pub open spec fn views<T: View>(v: Seq<T>) -> Seq<T::V> {
    v.map_values(|x: T| x@)
}

impl View for GraphInstructions {
    type V = GraphInstructionsView;

    open spec fn view(&self) -> GraphInstructionsView {
        GraphInstructionsView {
            map_instructions: views(self.map_instructions@),
            group_instructions: views(self.group_instructions@),
            color_instructions: views(self.color_instructions@),
            zoom_items: views(self.zoom_items@),
        }
    }
}

impl EdgeColor {
    /// The color's name, bold or not.
    pub fn color_name(&self) -> (r: &String)
        ensures
            match self@ {
                EdgeColorView::Regular(c) => r@ == c,
                EdgeColorView::Bold(c) => r@ == c,
            },
    {
        match self {
            EdgeColor::Regular(c) => c,
            EdgeColor::Bold(c) => c,
        }
    }

    /// Whether the color is bold.
    pub fn is_bold(&self) -> (r: bool)
        ensures
            r == (self@ is Bold),
    {
        match self {
            EdgeColor::Regular(_) => false,
            EdgeColor::Bold(_) => true,
        }
    }
}

/// Every string of a list, expanded.
pub open spec fn expand_all(v: Seq<Seq<char>>, vars: Seq<BindingView>) -> Seq<Seq<char>> {
    v.map_values(|x: Seq<char>| expand(x, vars))
}

pub open spec fn expand_map_instruction(m: MapInstructionView, vars: Seq<BindingView>) -> MapInstructionView {
    match m {
        MapInstructionView::DisplayMap { from, to } => MapInstructionView::DisplayMap {
            from: expand(from, vars),
            to: expand(to, vars),
        },
        MapInstructionView::Keep(p) => MapInstructionView::Keep(expand(p, vars)),
        MapInstructionView::Drop(p) => MapInstructionView::Drop(expand(p, vars)),
    }
}

pub open spec fn expand_group_instruction(g: GroupInstructionView, vars: Seq<BindingView>) -> GroupInstructionView {
    match g {
        GroupInstructionView::GroupSourceHeader => GroupInstructionView::GroupSourceHeader,
        GroupInstructionView::GroupFromGn { gn_root, target, source_root, ignore_targets } =>
            GroupInstructionView::GroupFromGn {
                gn_root: expand(gn_root, vars),
                target: expand(target, vars),
                source_root: expand(source_root, vars),
                ignore_targets: expand_all(ignore_targets, vars),
            },
        GroupInstructionView::ManualGroup { name, color, items } => GroupInstructionView::ManualGroup {
            name: expand(name, vars),
            color: match color {
                Some(c) => Some(expand(c, vars)),
                None => None,
            },
            items: expand_all(items, vars),
        },
    }
}

pub open spec fn expand_zoom_item(z: ZoomItemView, vars: Seq<BindingView>) -> ZoomItemView {
    ZoomItemView { name: expand(z.name, vars), focused: z.focused }
}

pub open spec fn expand_color_instruction(c: ColorInstructionView, vars: Seq<BindingView>) -> ColorInstructionView {
    ColorInstructionView {
        end: match c.end {
            GroupEdgeEndView::From(n) => GroupEdgeEndView::From(expand(n, vars)),
            GroupEdgeEndView::To(n) => GroupEdgeEndView::To(expand(n, vars)),
        },
        color: match c.color {
            EdgeColorView::Regular(n) => EdgeColorView::Regular(expand(n, vars)),
            EdgeColorView::Bold(n) => EdgeColorView::Bold(expand(n, vars)),
        },
    }
}

pub open spec fn expand_input_command(c: InputCommandView, vars: Seq<BindingView>) -> InputCommandView {
    match c {
        InputCommandView::LoadCompileDb { path, load_includes, load_sources } =>
            InputCommandView::LoadCompileDb { path: expand(path, vars), load_includes, load_sources },
        InputCommandView::IncludeDirectory(p) => InputCommandView::IncludeDirectory(expand(p, vars)),
        InputCommandView::Glob(p) => InputCommandView::Glob(expand(p, vars)),
    }
}

pub open spec fn expand_graph_instructions(g: GraphInstructionsView, vars: Seq<BindingView>) -> GraphInstructionsView {
    GraphInstructionsView {
        map_instructions: g.map_instructions.map_values(|m| expand_map_instruction(m, vars)),
        group_instructions: g.group_instructions.map_values(|m| expand_group_instruction(m, vars)),
        color_instructions: g.color_instructions.map_values(|m| expand_color_instruction(m, vars)),
        zoom_items: g.zoom_items.map_values(|m| expand_zoom_item(m, vars)),
    }
}

/// Every string of a list, expanded against `vars`.
pub fn expand_strings(v: Vec<String>, vars: &VariableMap) -> (r: Vec<String>)
    ensures
        strs(r@) == expand_all(strs(v@), vars@),
{
    let mut out: Vec<String> = Vec::new();
    let mut k: usize = 0;
    while k < v.len()
        invariant
            k <= v@.len(),
            strs(out@) == expand_all(strs(v@), vars@).take(k as int),
        decreases v.len() - k,
    {
        let e = vars.expand_variable(v[k].as_str());
        let ghost before = out@;
        out.push(e);
        assert(strs(v@)[k as int] == v@[k as int]@);
        assert(expand_all(strs(v@), vars@)[k as int] == expand(v@[k as int]@, vars@));
        assert(out@ == before.push(e));
        assert(strs(out@) =~= strs(before).push(e@));
        assert(strs(out@) =~= expand_all(strs(v@), vars@).take(k + 1));
        k = k + 1;
    }
    assert(expand_all(strs(v@), vars@).take(k as int) =~= expand_all(strs(v@), vars@));
    out
}

impl MapInstruction {
    /// Every token expanded against `vars`.
    pub fn expanded_from(self, vars: &VariableMap) -> (r: Self)
        ensures
            r@ == expand_map_instruction(self@, vars@),
    {
        match self {
            MapInstruction::DisplayMap { from, to } => MapInstruction::DisplayMap {
                from: vars.expand_variable(from.as_str()),
                to: vars.expand_variable(to.as_str()),
            },
            MapInstruction::Keep(p) => MapInstruction::Keep(vars.expand_variable(p.as_str())),
            MapInstruction::Drop(p) => MapInstruction::Drop(vars.expand_variable(p.as_str())),
        }
    }
}

impl GroupInstruction {
    /// Every token expanded against `vars`.
    pub fn expanded_from(self, vars: &VariableMap) -> (r: Self)
        ensures
            r@ == expand_group_instruction(self@, vars@),
    {
        match self {
            GroupInstruction::GroupSourceHeader => GroupInstruction::GroupSourceHeader,
            GroupInstruction::GroupFromGn { gn_root, target, source_root, ignore_targets } =>
                GroupInstruction::GroupFromGn {
                    gn_root: vars.expand_variable(gn_root.as_str()),
                    target: vars.expand_variable(target.as_str()),
                    source_root: vars.expand_variable(source_root.as_str()),
                    ignore_targets: expand_strings(ignore_targets, vars),
                },
            GroupInstruction::ManualGroup { name, color, items } => GroupInstruction::ManualGroup {
                name: vars.expand_variable(name.as_str()),
                color: match color {
                    Some(c) => Some(vars.expand_variable(c.as_str())),
                    None => None,
                },
                items: expand_strings(items, vars),
            },
        }
    }
}

impl ZoomItem {
    /// The name expanded against `vars`.
    pub fn expanded_from(self, vars: &VariableMap) -> (r: Self)
        ensures
            r@ == expand_zoom_item(self@, vars@),
    {
        ZoomItem { name: vars.expand_variable(self.name.as_str()), focused: self.focused }
    }
}

impl ColorInstruction {
    /// Group name and color expanded against `vars`.
    pub fn expanded_from(self, vars: &VariableMap) -> (r: Self)
        ensures
            r@ == expand_color_instruction(self@, vars@),
    {
        let end = match self.end {
            GroupEdgeEnd::From(n) => GroupEdgeEnd::From(vars.expand_variable(n.as_str())),
            GroupEdgeEnd::To(n) => GroupEdgeEnd::To(vars.expand_variable(n.as_str())),
        };
        let color = match self.color {
            EdgeColor::Regular(n) => EdgeColor::Regular(vars.expand_variable(n.as_str())),
            EdgeColor::Bold(n) => EdgeColor::Bold(vars.expand_variable(n.as_str())),
        };
        ColorInstruction { end, color }
    }
}

impl InputCommand {
    /// The path or pattern expanded against `vars`.
    pub fn expanded_from(self, vars: &VariableMap) -> (r: Self)
        ensures
            r@ == expand_input_command(self@, vars@),
    {
        match self {
            InputCommand::LoadCompileDb { path, load_includes, load_sources } =>
                InputCommand::LoadCompileDb {
                    path: vars.expand_variable(path.as_str()),
                    load_includes,
                    load_sources,
                },
            InputCommand::IncludeDirectory(p) => InputCommand::IncludeDirectory(
                vars.expand_variable(p.as_str()),
            ),
            InputCommand::Glob(p) => InputCommand::Glob(vars.expand_variable(p.as_str())),
        }
    }
}

/// Every input command expanded against `vars`.
pub fn expand_input_commands(v: Vec<InputCommand>, vars: &VariableMap) -> (r: Vec<InputCommand>)
    ensures
        views(r@) == views(v@).map_values(|c| expand_input_command(c, vars@)),
{
    let ghost target = views(v@).map_values(|c| expand_input_command(c, vars@));
    let mut out: Vec<InputCommand> = Vec::new();
    let mut rest = v;
    let ghost v0 = rest@;
    let mut k: usize = 0;
    let n = rest.len();
    while k < n
        invariant
            n == v0.len(),
            k <= n,
            rest@ == v0.skip(k as int),
            views(out@) == target.take(k as int),
            target == views(v0).map_values(|c| expand_input_command(c, vars@)),
        decreases n - k,
    {
        let c = rest.remove(0);
        assert(c == v0[k as int]);
        let x = c.expanded_from(vars);
        let ghost before = out@;
        out.push(x);
        assert(views(v0)[k as int] == v0[k as int]@);
        assert(target[k as int] == x@);
        assert(views(out@) =~= views(before).push(x@));
        assert(views(out@) =~= target.take(k + 1));
        k = k + 1;
        assert(rest@ =~= v0.skip(k as int));
    }
    assert(target.take(k as int) =~= target);
    out
}

/// Every map instruction expanded against `vars`.
pub fn expand_map_instructions(v: Vec<MapInstruction>, vars: &VariableMap) -> (r: Vec<MapInstruction>)
    ensures
        views(r@) == views(v@).map_values(|c| expand_map_instruction(c, vars@)),
{
    let ghost target = views(v@).map_values(|c| expand_map_instruction(c, vars@));
    let mut out: Vec<MapInstruction> = Vec::new();
    let mut rest = v;
    let ghost v0 = rest@;
    let mut k: usize = 0;
    let n = rest.len();
    while k < n
        invariant
            n == v0.len(),
            k <= n,
            rest@ == v0.skip(k as int),
            views(out@) == target.take(k as int),
            target == views(v0).map_values(|c| expand_map_instruction(c, vars@)),
        decreases n - k,
    {
        let c = rest.remove(0);
        assert(c == v0[k as int]);
        let x = c.expanded_from(vars);
        let ghost before = out@;
        out.push(x);
        assert(views(v0)[k as int] == v0[k as int]@);
        assert(target[k as int] == x@);
        assert(views(out@) =~= views(before).push(x@));
        assert(views(out@) =~= target.take(k + 1));
        k = k + 1;
        assert(rest@ =~= v0.skip(k as int));
    }
    assert(target.take(k as int) =~= target);
    out
}

/// Every group instruction expanded against `vars`.
pub fn expand_group_instructions(v: Vec<GroupInstruction>, vars: &VariableMap) -> (r: Vec<GroupInstruction>)
    ensures
        views(r@) == views(v@).map_values(|c| expand_group_instruction(c, vars@)),
{
    let ghost target = views(v@).map_values(|c| expand_group_instruction(c, vars@));
    let mut out: Vec<GroupInstruction> = Vec::new();
    let mut rest = v;
    let ghost v0 = rest@;
    let mut k: usize = 0;
    let n = rest.len();
    while k < n
        invariant
            n == v0.len(),
            k <= n,
            rest@ == v0.skip(k as int),
            views(out@) == target.take(k as int),
            target == views(v0).map_values(|c| expand_group_instruction(c, vars@)),
        decreases n - k,
    {
        let c = rest.remove(0);
        assert(c == v0[k as int]);
        let x = c.expanded_from(vars);
        let ghost before = out@;
        out.push(x);
        assert(views(v0)[k as int] == v0[k as int]@);
        assert(target[k as int] == x@);
        assert(views(out@) =~= views(before).push(x@));
        assert(views(out@) =~= target.take(k + 1));
        k = k + 1;
        assert(rest@ =~= v0.skip(k as int));
    }
    assert(target.take(k as int) =~= target);
    out
}

/// Every color instruction expanded against `vars`.
pub fn expand_color_instructions(v: Vec<ColorInstruction>, vars: &VariableMap) -> (r: Vec<ColorInstruction>)
    ensures
        views(r@) == views(v@).map_values(|c| expand_color_instruction(c, vars@)),
{
    let ghost target = views(v@).map_values(|c| expand_color_instruction(c, vars@));
    let mut out: Vec<ColorInstruction> = Vec::new();
    let mut rest = v;
    let ghost v0 = rest@;
    let mut k: usize = 0;
    let n = rest.len();
    while k < n
        invariant
            n == v0.len(),
            k <= n,
            rest@ == v0.skip(k as int),
            views(out@) == target.take(k as int),
            target == views(v0).map_values(|c| expand_color_instruction(c, vars@)),
        decreases n - k,
    {
        let c = rest.remove(0);
        assert(c == v0[k as int]);
        let x = c.expanded_from(vars);
        let ghost before = out@;
        out.push(x);
        assert(views(v0)[k as int] == v0[k as int]@);
        assert(target[k as int] == x@);
        assert(views(out@) =~= views(before).push(x@));
        assert(views(out@) =~= target.take(k + 1));
        k = k + 1;
        assert(rest@ =~= v0.skip(k as int));
    }
    assert(target.take(k as int) =~= target);
    out
}

/// Every zoom item expanded against `vars`.
pub fn expand_zoom_items(v: Vec<ZoomItem>, vars: &VariableMap) -> (r: Vec<ZoomItem>)
    ensures
        views(r@) == views(v@).map_values(|c| expand_zoom_item(c, vars@)),
{
    let ghost target = views(v@).map_values(|c| expand_zoom_item(c, vars@));
    let mut out: Vec<ZoomItem> = Vec::new();
    let mut rest = v;
    let ghost v0 = rest@;
    let mut k: usize = 0;
    let n = rest.len();
    while k < n
        invariant
            n == v0.len(),
            k <= n,
            rest@ == v0.skip(k as int),
            views(out@) == target.take(k as int),
            target == views(v0).map_values(|c| expand_zoom_item(c, vars@)),
        decreases n - k,
    {
        let c = rest.remove(0);
        assert(c == v0[k as int]);
        let x = c.expanded_from(vars);
        let ghost before = out@;
        out.push(x);
        assert(views(v0)[k as int] == v0[k as int]@);
        assert(target[k as int] == x@);
        assert(views(out@) =~= views(before).push(x@));
        assert(views(out@) =~= target.take(k + 1));
        k = k + 1;
        assert(rest@ =~= v0.skip(k as int));
    }
    assert(target.take(k as int) =~= target);
    out
}

impl GraphInstructions {
    /// Every token of every instruction expanded against `vars`.
    pub fn expanded_from(self, vars: &VariableMap) -> (r: Self)
        ensures
            r@ == expand_graph_instructions(self@, vars@),
    {
        let r = GraphInstructions {
            map_instructions: expand_map_instructions(self.map_instructions, vars),
            group_instructions: expand_group_instructions(self.group_instructions, vars),
            color_instructions: expand_color_instructions(self.color_instructions, vars),
            zoom_items: expand_zoom_items(self.zoom_items, vars),
        };
        r
    }
}

} // verus!
