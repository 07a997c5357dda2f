//! The grammar of the configuration language, as spec functions.
//!
//! Each function takes the input characters and a position, and gives the
//! position after what it recognised together with the value recognised, or
//! `None` where the input does not match. Keywords match in any case.
//! Lists stop at the first element that does not match.
use vstd::prelude::*;
use crate::config::{
    expand_graph_instructions, expand_input_command, ColorInstructionView, ConfigurationView,
    EdgeColorView, GraphInstructionsView, GroupEdgeEndView, GroupInstructionView,
    InputCommandView, MapInstructionView, ZoomItemView,
};
use crate::lexer::{opt_ws, run, scan, tag, ws, CharClass};
use crate::expand::resolve;

verus! {

/// A token: a non-empty run of characters other than blanks and `#`.
pub open spec fn token(s: Seq<char>, i: int) -> Option<int> {
    run(s, i, CharClass::Token)
}

/// A list item: like a token, but it also stops at `}`.
pub open spec fn item(s: Seq<char>, i: int) -> Option<int> {
    run(s, i, CharClass::Item)
}

/// Keyword `t` after the position `o`, if any.
pub open spec fn then_tag(s: Seq<char>, o: Option<int>, t: Seq<char>) -> Option<int> {
    match o {
        Some(p) => tag(s, p, t),
        None => None,
    }
}

/// Required whitespace after the position `o`, if any.
pub open spec fn then_ws(s: Seq<char>, o: Option<int>) -> Option<int> {
    match o {
        Some(p) => ws(s, p),
        None => None,
    }
}

/// Optional whitespace after the position `o`, if any.
pub open spec fn then_ows(s: Seq<char>, o: Option<int>) -> Option<int> {
    match o {
        Some(p) => Some(opt_ws(s, p)),
        None => None,
    }
}

/// A comment: `#` and the rest of its line, whose text is the value.
pub open spec fn comment(s: Seq<char>, i: int) -> Option<(int, Seq<char>)> {
    if 0 <= i < s.len() && s[i] == '#' {
        let e = scan(s, i + 1, CharClass::Line);
        Some((e, s.subrange(i + 1, e)))
    } else {
        None
    }
}

/// `includes` (true) or `sources` (false).
pub open spec fn load_kind(s: Seq<char>, i: int) -> Option<(int, bool)> {
    match tag(s, i, "includes"@) {
        Some(e) => Some((e, true)),
        None => match tag(s, i, "sources"@) {
            Some(e) => Some((e, false)),
            None => None,
        },
    }
}

/// The rest of a comma separated list of load kinds, after the kinds so far
/// (`inc`, `src`): the end and whether each kind was named.
pub open spec fn load_rest(s: Seq<char>, i: int, inc: bool, src: bool) -> (int, bool, bool)
    decreases s.len() - i,
{
    match tag(s, opt_ws(s, i), ","@) {
        None => (i, inc, src),
        Some(c) => match load_kind(s, opt_ws(s, c)) {
            None => (i, inc, src),
            Some((e, k)) => if i < e <= s.len() {
                load_rest(s, e, inc || k, src || !k)
            } else {
                (i, inc, src)
            },
        },
    }
}

/// A possibly empty, comma separated list of load kinds.
pub open spec fn load_list(s: Seq<char>, i: int) -> (int, bool, bool) {
    match load_kind(s, i) {
        None => (i, false, false),
        Some((e, k)) => load_rest(s, e, k, !k),
    }
}

/// `from compiledb PATH load KINDS`.
pub open spec fn compiledb_path_first(s: Seq<char>, i: int) -> Option<(int, InputCommandView)> {
    match then_ws(s, then_tag(s, then_ws(s, then_tag(s, Some(opt_ws(s, i)), "from"@)), "compiledb"@)) {
        None => None,
        Some(a) => match token(s, a) {
            None => None,
            Some(b) => match then_tag(s, ws(s, b), "load"@) {
                None => None,
                Some(c) => {
                    let l = load_list(s, opt_ws(s, c));
                    Some(
                        (
                            opt_ws(s, l.0),
                            InputCommandView::LoadCompileDb {
                                path: s.subrange(a, b),
                                load_includes: l.1,
                                load_sources: l.2,
                            },
                        ),
                    )
                },
            },
        },
    }
}

/// `load [KINDS] from compiledb PATH`.
pub open spec fn compiledb_kinds_first(s: Seq<char>, i: int) -> Option<(int, InputCommandView)> {
    match then_ws(s, tag(s, opt_ws(s, i), "load"@)) {
        None => None,
        Some(a) => {
            let l = load_list(s, a);
            let b = if l.0 > a {
                ws(s, l.0)
            } else {
                Some(a)
            };
            match then_ws(s, then_tag(s, then_ws(s, then_tag(s, b, "from"@)), "compiledb"@)) {
                None => None,
                Some(c) => match token(s, c) {
                    None => None,
                    Some(d) => Some(
                        (
                            opt_ws(s, d),
                            InputCommandView::LoadCompileDb {
                                path: s.subrange(c, d),
                                load_includes: l.1,
                                load_sources: l.2,
                            },
                        ),
                    ),
                },
            }
        },
    }
}

/// A compile database command, in either word order.
pub open spec fn compiledb(s: Seq<char>, i: int) -> Option<(int, InputCommandView)> {
    match compiledb_path_first(s, i) {
        Some(r) => Some(r),
        None => compiledb_kinds_first(s, i),
    }
}

/// Keyword `t`, whitespace, a token, optional whitespace: the token's range.
pub open spec fn keyword_token(s: Seq<char>, i: int, t: Seq<char>) -> Option<(int, int, int)> {
    match then_ws(s, tag(s, i, t)) {
        None => None,
        Some(a) => match token(s, a) {
            None => None,
            Some(b) => Some((opt_ws(s, b), a, b)),
        },
    }
}

/// One command of the `input` block.
pub open spec fn input_command(s: Seq<char>, i: int) -> Option<(int, InputCommandView)> {
    match compiledb(s, i) {
        Some(r) => Some(r),
        None => match keyword_token(s, i, "glob"@) {
            Some((e, a, b)) => Some((e, InputCommandView::Glob(s.subrange(a, b)))),
            None => match keyword_token(s, i, "include_dir"@) {
                Some((e, a, b)) => Some((e, InputCommandView::IncludeDirectory(s.subrange(a, b)))),
                None => None,
            },
        },
    }
}

/// Input commands, as many as match.
pub open spec fn input_commands(s: Seq<char>, i: int) -> (int, Seq<InputCommandView>)
    decreases s.len() - i,
{
    match input_command(s, i) {
        Some((e, v)) => if i < e <= s.len() {
            let r = input_commands(s, e);
            (r.0, seq![v] + r.1)
        } else {
            (i, Seq::empty())
        },
        None => (i, Seq::empty()),
    }
}

/// Keyword `t`, optional whitespace, `{`, optional whitespace.
pub open spec fn block_open(s: Seq<char>, i: int, t: Seq<char>) -> Option<int> {
    then_ows(s, then_tag(s, then_ows(s, tag(s, i, t)), "{"@))
}

/// Optional whitespace, `}`, optional whitespace.
pub open spec fn block_close(s: Seq<char>, i: int) -> Option<int> {
    then_ows(s, tag(s, opt_ws(s, i), "}"@))
}

/// `input { COMMANDS }`.
pub open spec fn input_block(s: Seq<char>, i: int) -> Option<(int, Seq<InputCommandView>)> {
    match block_open(s, i, "input"@) {
        None => None,
        Some(a) => {
            let l = input_commands(s, a);
            match then_ows(s, tag(s, l.0, "}"@)) {
                None => None,
                Some(e) => Some((e, l.1)),
            }
        },
    }
}

/// One map instruction, without the whitespace after it.
pub open spec fn map_instruction(s: Seq<char>, i: int) -> Option<(int, MapInstructionView)> {
    match token(s, i) {
        Some(a) => match then_ws(s, then_tag(s, ws(s, a), "=>"@)) {
            Some(b) => match token(s, b) {
                Some(c) => Some(
                    (c, MapInstructionView::DisplayMap { from: s.subrange(i, a), to: s.subrange(b, c) }),
                ),
                None => map_filter(s, i),
            },
            None => map_filter(s, i),
        },
        None => map_filter(s, i),
    }
}

/// `keep PREFIX` or `drop PREFIX`.
pub open spec fn map_filter(s: Seq<char>, i: int) -> Option<(int, MapInstructionView)> {
    match then_ws(s, tag(s, opt_ws(s, i), "keep"@)) {
        Some(a) => match token(s, a) {
            Some(b) => Some((b, MapInstructionView::Keep(s.subrange(a, b)))),
            None => map_drop(s, i),
        },
        None => map_drop(s, i),
    }
}

/// `drop PREFIX`.
pub open spec fn map_drop(s: Seq<char>, i: int) -> Option<(int, MapInstructionView)> {
    match then_ws(s, tag(s, opt_ws(s, i), "drop"@)) {
        Some(a) => match token(s, a) {
            Some(b) => Some((b, MapInstructionView::Drop(s.subrange(a, b)))),
            None => None,
        },
        None => None,
    }
}

/// Map instructions, each followed by whitespace, as many as match.
pub open spec fn map_instructions(s: Seq<char>, i: int) -> (int, Seq<MapInstructionView>)
    decreases s.len() - i,
{
    match map_instruction(s, i) {
        Some((a, v)) => match ws(s, a) {
            Some(e) => if i < e <= s.len() {
                let r = map_instructions(s, e);
                (r.0, seq![v] + r.1)
            } else {
                (i, Seq::empty())
            },
            None => (i, Seq::empty()),
        },
        None => (i, Seq::empty()),
    }
}

/// `map { INSTRUCTIONS }`.
pub open spec fn map_block(s: Seq<char>, i: int) -> Option<(int, Seq<MapInstructionView>)> {
    match block_open(s, i, "map"@) {
        None => None,
        Some(a) => {
            let l = map_instructions(s, a);
            match block_close(s, l.0) {
                None => None,
                Some(e) => Some((e, l.1)),
            }
        },
    }
}

/// Items, each after optional whitespace, as many as match.
pub open spec fn items(s: Seq<char>, i: int) -> (int, Seq<Seq<char>>)
    decreases s.len() - i,
{
    match item(s, opt_ws(s, i)) {
        Some(e) => if i < e <= s.len() {
            let r = items(s, e);
            (r.0, seq![s.subrange(opt_ws(s, i), e)] + r.1)
        } else {
            (i, Seq::empty())
        },
        None => (i, Seq::empty()),
    }
}

/// A list of targets: items, then optional whitespace.
pub open spec fn target_list(s: Seq<char>, i: int) -> (int, Seq<Seq<char>>) {
    let l = items(s, i);
    (opt_ws(s, l.0), l.1)
}

/// `ignore targets { TARGETS }`, after whitespace.
pub open spec fn ignore_targets(s: Seq<char>, i: int) -> Option<(int, Seq<Seq<char>>)> {
    match then_tag(s, then_ows(s, then_tag(s, then_ws(s, then_tag(s, ws(s, i), "ignore"@)), "targets"@)), "{"@) {
        None => None,
        Some(a) => {
            let l = target_list(s, a);
            match block_close(s, l.0) {
                None => None,
                Some(e) => Some((e, l.1)),
            }
        },
    }
}

/// `gn root DIR target PATTERN sources DIR [ignore targets { ... }]`.
pub open spec fn gn_target(s: Seq<char>, i: int) -> Option<(int, GroupInstructionView)> {
    match then_ws(s, then_tag(s, then_ws(s, tag(s, i, "gn"@)), "root"@)) {
        None => None,
        Some(a) => match token(s, a) {
            None => None,
            Some(b) => match then_ws(s, then_tag(s, ws(s, b), "target"@)) {
                None => None,
                Some(c) => match token(s, c) {
                    None => None,
                    Some(d) => match then_ws(s, then_tag(s, ws(s, d), "sources"@)) {
                        None => None,
                        Some(e) => match token(s, e) {
                            None => None,
                            Some(f) => {
                                let ig = ignore_targets(s, f);
                                let g = match ig {
                                    Some((x, _)) => x,
                                    None => f,
                                };
                                Some(
                                    (
                                        opt_ws(s, g),
                                        GroupInstructionView::GroupFromGn {
                                            gn_root: s.subrange(a, b),
                                            target: s.subrange(c, d),
                                            source_root: s.subrange(e, f),
                                            ignore_targets: match ig {
                                                Some((_, l)) => l,
                                                None => Seq::empty(),
                                            },
                                        },
                                    ),
                                )
                            },
                        },
                    },
                },
            },
        },
    }
}

/// `color COLOR` after whitespace: the color's range.
pub open spec fn manual_color(s: Seq<char>, i: int) -> Option<(int, int)> {
    match then_ows(s, then_tag(s, ws(s, i), "color"@)) {
        None => None,
        Some(a) => match token(s, a) {
            None => None,
            Some(b) => Some((a, b)),
        },
    }
}

/// `manual NAME [color COLOR] { ITEMS }`.
pub open spec fn manual_group(s: Seq<char>, i: int) -> Option<(int, GroupInstructionView)> {
    match then_ows(s, tag(s, opt_ws(s, i), "manual"@)) {
        None => None,
        Some(a) => match token(s, a) {
            None => None,
            Some(b) => {
                let c = manual_color(s, b);
                let d = match c {
                    Some((_, x)) => x,
                    None => b,
                };
                match tag(s, opt_ws(s, d), "{"@) {
                    None => None,
                    Some(e) => {
                        let l = items(s, e);
                        match block_close(s, l.0) {
                            None => None,
                            Some(f) => Some(
                                (
                                    f,
                                    GroupInstructionView::ManualGroup {
                                        name: s.subrange(a, b),
                                        color: match c {
                                            Some((x, y)) => Some(s.subrange(x, y)),
                                            None => None,
                                        },
                                        items: l.1,
                                    },
                                ),
                            ),
                        }
                    },
                }
            },
        },
    }
}

/// One instruction of the `group` block.
pub open spec fn group_instruction(s: Seq<char>, i: int) -> Option<(int, GroupInstructionView)> {
    match tag(s, i, "group_source_header"@) {
        Some(a) => Some((opt_ws(s, a), GroupInstructionView::GroupSourceHeader)),
        None => match gn_target(s, i) {
            Some(r) => Some(r),
            None => manual_group(s, i),
        },
    }
}

/// Group instructions, as many as match.
pub open spec fn group_instructions(s: Seq<char>, i: int) -> (int, Seq<GroupInstructionView>)
    decreases s.len() - i,
{
    match group_instruction(s, i) {
        Some((e, v)) => if i < e <= s.len() {
            let r = group_instructions(s, e);
            (r.0, seq![v] + r.1)
        } else {
            (i, Seq::empty())
        },
        None => (i, Seq::empty()),
    }
}

/// `group { INSTRUCTIONS }`, after optional whitespace.
pub open spec fn group_block(s: Seq<char>, i: int) -> Option<(int, Seq<GroupInstructionView>)> {
    match block_open(s, opt_ws(s, i), "group"@) {
        None => None,
        Some(a) => {
            let l = group_instructions(s, a);
            match block_close(s, l.0) {
                None => None,
                Some(e) => Some((e, l.1)),
            }
        },
    }
}

/// `from` (true) or `to` (false), after optional whitespace.
pub open spec fn direction(s: Seq<char>, i: int) -> Option<(int, bool)> {
    match tag(s, opt_ws(s, i), "from"@) {
        Some(e) => Some((e, true)),
        None => match tag(s, opt_ws(s, i), "to"@) {
            Some(e) => Some((e, false)),
            None => None,
        },
    }
}

/// `from|to GROUP [bold] COLOR`.
pub open spec fn color_instruction(s: Seq<char>, i: int) -> Option<(int, ColorInstructionView)> {
    match direction(s, i) {
        None => None,
        Some((a, from)) => match ws(s, a) {
            None => None,
            Some(b) => match token(s, b) {
                None => None,
                Some(c) => match ws(s, c) {
                    None => None,
                    Some(d) => {
                        let bold = then_ws(s, tag(s, d, "bold"@));
                        let e = match bold {
                            Some(x) => x,
                            None => d,
                        };
                        match token(s, e) {
                            None => None,
                            Some(f) => Some(
                                (
                                    f,
                                    ColorInstructionView {
                                        end: if from {
                                            GroupEdgeEndView::From(s.subrange(b, c))
                                        } else {
                                            GroupEdgeEndView::To(s.subrange(b, c))
                                        },
                                        color: if bold is Some {
                                            EdgeColorView::Bold(s.subrange(e, f))
                                        } else {
                                            EdgeColorView::Regular(s.subrange(e, f))
                                        },
                                    },
                                ),
                            ),
                        }
                    },
                },
            },
        },
    }
}

/// Further color instructions, each after whitespace, as many as match.
pub open spec fn color_rest(s: Seq<char>, i: int) -> (int, Seq<ColorInstructionView>)
    decreases s.len() - i,
{
    match ws(s, i) {
        None => (i, Seq::empty()),
        Some(a) => match color_instruction(s, a) {
            Some((e, v)) => if i < e <= s.len() {
                let r = color_rest(s, e);
                (r.0, seq![v] + r.1)
            } else {
                (i, Seq::empty())
            },
            None => (i, Seq::empty()),
        },
    }
}

/// Color instructions separated by whitespace; possibly none.
pub open spec fn color_list(s: Seq<char>, i: int) -> (int, Seq<ColorInstructionView>) {
    match color_instruction(s, i) {
        None => (i, Seq::empty()),
        Some((e, v)) => {
            let r = color_rest(s, e);
            (r.0, seq![v] + r.1)
        },
    }
}

/// `color edges { INSTRUCTIONS }`, after optional whitespace.
pub open spec fn color_block(s: Seq<char>, i: int) -> Option<(int, Seq<ColorInstructionView>)> {
    match then_ows(
        s,
        then_tag(s, then_ows(s, then_tag(s, then_ws(s, tag(s, opt_ws(s, i), "color"@)), "edges"@)), "{"@),
    ) {
        None => None,
        Some(a) => {
            let l = color_list(s, a);
            match block_close(s, l.0) {
                None => None,
                Some(e) => Some((e, l.1)),
            }
        },
    }
}

/// `[focus:] NAME`, then optional whitespace.
pub open spec fn zoom_item(s: Seq<char>, i: int) -> Option<(int, ZoomItemView)> {
    let focus = then_ws(s, tag(s, i, "focus:"@));
    let a = match focus {
        Some(x) => x,
        None => i,
    };
    match item(s, a) {
        None => None,
        Some(b) => Some((opt_ws(s, b), ZoomItemView { name: s.subrange(a, b), focused: focus is Some })),
    }
}

/// Zoom items, as many as match.
pub open spec fn zoom_items(s: Seq<char>, i: int) -> (int, Seq<ZoomItemView>)
    decreases s.len() - i,
{
    match zoom_item(s, i) {
        Some((e, v)) => if i < e <= s.len() {
            let r = zoom_items(s, e);
            (r.0, seq![v] + r.1)
        } else {
            (i, Seq::empty())
        },
        None => (i, Seq::empty()),
    }
}

/// `zoom { ITEMS }`, after optional whitespace.
pub open spec fn zoom_block(s: Seq<char>, i: int) -> Option<(int, Seq<ZoomItemView>)> {
    match block_open(s, opt_ws(s, i), "zoom"@) {
        None => None,
        Some(a) => {
            let l = zoom_items(s, a);
            match block_close(s, l.0) {
                None => None,
                Some(e) => Some((e, l.1)),
            }
        },
    }
}

/// `graph { MAP GROUP [COLOR] [ZOOM] }`, after optional whitespace.
pub open spec fn graph_block(s: Seq<char>, i: int) -> Option<(int, GraphInstructionsView)> {
    match block_open(s, opt_ws(s, i), "graph"@) {
        None => None,
        Some(a) => match map_block(s, a) {
            None => None,
            Some((b, maps)) => match group_block(s, b) {
                None => None,
                Some((c, groups)) => {
                    let colors = color_block(s, c);
                    let d = match colors {
                        Some((x, _)) => x,
                        None => c,
                    };
                    let zooms = zoom_block(s, d);
                    let e = match zooms {
                        Some((x, _)) => x,
                        None => d,
                    };
                    match block_close(s, e) {
                        None => None,
                        Some(f) => Some(
                            (
                                f,
                                GraphInstructionsView {
                                    map_instructions: maps,
                                    group_instructions: groups,
                                    color_instructions: match colors {
                                        Some((_, l)) => l,
                                        None => Seq::empty(),
                                    },
                                    zoom_items: match zooms {
                                        Some((_, l)) => l,
                                        None => Seq::empty(),
                                    },
                                },
                            ),
                        ),
                    }
                },
            },
        },
    }
}

/// `NAME = VALUE`: the end, and the (name, value) pair.
pub open spec fn assignment(s: Seq<char>, i: int) -> Option<(int, (Seq<char>, Seq<char>))> {
    match run(s, i, CharClass::Name) {
        None => None,
        Some(a) => match then_ows(s, tag(s, opt_ws(s, a), "="@)) {
            None => None,
            Some(b) => match token(s, b) {
                None => None,
                Some(c) => Some((c, (s.subrange(i, a), s.subrange(b, c)))),
            },
        },
    }
}

/// Further assignments, each after whitespace, as many as match.
pub open spec fn assignment_rest(s: Seq<char>, i: int) -> (int, Seq<(Seq<char>, Seq<char>)>)
    decreases s.len() - i,
{
    match ws(s, i) {
        None => (i, Seq::empty()),
        Some(a) => match assignment(s, a) {
            Some((e, v)) => if i < e <= s.len() {
                let r = assignment_rest(s, e);
                (r.0, seq![v] + r.1)
            } else {
                (i, Seq::empty())
            },
            None => (i, Seq::empty()),
        },
    }
}

/// The assignments at the head of a configuration, with the whitespace
/// around them; possibly none.
pub open spec fn assignments(s: Seq<char>, i: int) -> (int, Seq<(Seq<char>, Seq<char>)>) {
    let a = opt_ws(s, i);
    let l = match assignment(s, a) {
        None => (a, Seq::empty()),
        Some((e, v)) => {
            let r = assignment_rest(s, e);
            (r.0, seq![v] + r.1)
        },
    };
    (opt_ws(s, l.0), l.1)
}

/// Where the `input` block starts: after the assignments.
pub open spec fn input_start(s: Seq<char>) -> int {
    assignments(s, 0).0
}

/// Where the `graph` block starts, when the `input` block parses.
pub open spec fn graph_start(s: Seq<char>) -> Option<int> {
    match input_block(s, input_start(s)) {
        Some((e, _)) => Some(e),
        None => None,
    }
}

/// A whole configuration: assignments, the `input` block and the `graph`
/// block. The assignments are resolved in order, and every token of the
/// blocks is expanded against the result.
pub open spec fn configuration(s: Seq<char>) -> Option<(int, ConfigurationView)> {
    let (a, assigns) = assignments(s, 0);
    match input_block(s, a) {
        None => None,
        Some((b, cmds)) => match graph_block(s, b) {
            None => None,
            Some((c, g)) => {
                let vars = resolve(assigns);
                Some(
                    (
                        c,
                        ConfigurationView {
                            variables: vars,
                            input_commands: cmds.map_values(|x| expand_input_command(x, vars)),
                            graph: expand_graph_instructions(g, vars),
                        },
                    ),
                )
            },
        },
    }
}

} // verus!
