//! The parsers of the configuration language. Each computes the spec
//! function of the same name in [`crate::grammar`].
use vstd::prelude::*;
use crate::config::{
    strs, views, ColorInstruction, EdgeColor, GraphInstructions, GroupEdgeEnd, GroupInstruction,
    InputCommand, MapInstruction, ZoomItem,
};
use crate::expand::VariableAssignment;
use crate::grammar::{
    assignment, assignment_rest, assignments, block_close, block_open, color_block, color_instruction,
    color_list, color_rest, comment, compiledb, compiledb_kinds_first, compiledb_path_first,
    direction, graph_block, group_block, group_instruction,
    group_instructions, gn_target, ignore_targets, input_block, input_command, input_commands, item,
    items, keyword_token, load_kind, load_list, load_rest, manual_color, manual_group, map_block,
    map_drop, map_filter, map_instruction, map_instructions, target_list, then_tag, then_ws,
    token, zoom_block, zoom_item, zoom_items,
};
use crate::lexer::{req_ws, run_exec, scan_exec, skip_ws, tag_exec, ws, CharClass};
use crate::text::substring;

verus! {

/// `r` is the exec form of the spec result `e`, ending within `n`.
pub open spec fn agrees<T: View>(r: Option<(usize, T)>, e: Option<(int, T::V)>, n: int) -> bool {
    match r {
        Some((j, v)) => e == Some((j as int, v@)) && j <= n,
        None => e is None,
    }
}

pub(crate) fn p_token(s: &Vec<char>, i: usize) -> (r: Option<usize>)
    requires
        i <= s@.len(),
    ensures
        match r {
            Some(e) => token(s@, i as int) == Some(e as int) && i < e <= s@.len(),
            None => token(s@, i as int) is None,
        },
{
    run_exec(s, i, CharClass::Token)
}

fn p_item(s: &Vec<char>, i: usize) -> (r: Option<usize>)
    requires
        i <= s@.len(),
    ensures
        match r {
            Some(e) => item(s@, i as int) == Some(e as int) && i < e <= s@.len(),
            None => item(s@, i as int) is None,
        },
{
    run_exec(s, i, CharClass::Item)
}

pub(crate) fn p_comment(src: &str, s: &Vec<char>, i: usize) -> (r: Option<(usize, String)>)
    requires
        s@ == src@,
        i <= s@.len(),
    ensures
        agrees(r, comment(s@, i as int), s@.len() as int),
{
    if i < s.len() && s[i] == '#' {
        let e = scan_exec(s, i + 1, CharClass::Line);
        Some((e, substring(src, i + 1, e)))
    } else {
        None
    }
}

fn p_load_kind(s: &Vec<char>, i: usize) -> (r: Option<(usize, bool)>)
    requires
        i <= s@.len(),
    ensures
        match r {
            Some((e, k)) => load_kind(s@, i as int) == Some((e as int, k)) && i < e <= s@.len(),
            None => load_kind(s@, i as int) is None,
        },
{
    match tag_exec(s, i, "includes") {
        Some(e) => {
            proof { reveal_strlit("includes"); }
            Some((e, true))
        },
        None => match tag_exec(s, i, "sources") {
            Some(e) => {
                proof { reveal_strlit("sources"); }
                Some((e, false))
            },
            None => None,
        },
    }
}

fn p_load_list(s: &Vec<char>, i: usize) -> (r: (usize, bool, bool))
    requires
        i <= s@.len(),
    ensures
        load_list(s@, i as int) == (r.0 as int, r.1, r.2),
        i <= r.0 <= s@.len(),
{
    let (mut pos, mut inc, mut src) = match p_load_kind(s, i) {
        None => return (i, false, false),
        Some((e, k)) => (e, k, !k),
    };
    while pos < s.len()
        invariant
            i <= pos <= s@.len(),
            load_list(s@, i as int) == load_rest(s@, pos as int, inc, src),
        ensures
            load_rest(s@, pos as int, inc, src) == (pos as int, inc, src),
            i <= pos <= s@.len(),
        decreases s.len() - pos,
    {
        let a = skip_ws(s, pos);
        let c = match tag_exec(s, a, ",") {
            None => break,
            Some(c) => c,
        };
        let d = skip_ws(s, c);
        match p_load_kind(s, d) {
            None => break,
            Some((e, k)) => {
                if e <= pos {
                    break;
                }
                inc = inc || k;
                src = src || !k;
                pos = e;
            },
        }
    }
    (pos, inc, src)
}

pub(crate) fn p_compiledb(src: &str, s: &Vec<char>, i: usize) -> (r: Option<(usize, InputCommand)>)
    requires
        s@ == src@,
        i <= s@.len(),
    ensures
        agrees(r, compiledb(s@, i as int), s@.len() as int),
{
    match p_compiledb_path_first(src, s, i) {
        Some(r) => Some(r),
        None => p_compiledb_kinds_first(src, s, i),
    }
}

fn p_compiledb_kinds_first(src: &str, s: &Vec<char>, i: usize) -> (r: Option<(usize, InputCommand)>)
    requires
        s@ == src@,
        i <= s@.len(),
    ensures
        agrees(r, compiledb_kinds_first(s@, i as int), s@.len() as int),
{
    let a0 = skip_ws(s, i);
    let a1 = match tag_exec(s, a0, "load") {
        Some(x) => x,
        None => return None,
    };
    let a = match req_ws(s, a1) {
        Some(x) => x,
        None => return None,
    };
    let (l0, inc, srcs) = p_load_list(s, a);
    let b = if l0 > a {
        match req_ws(s, l0) {
            Some(x) => x,
            None => return None,
        }
    } else {
        a
    };
    let b1 = match tag_exec(s, b, "from") {
        Some(x) => x,
        None => return None,
    };
    let b2 = match req_ws(s, b1) {
        Some(x) => x,
        None => return None,
    };
    let b3 = match tag_exec(s, b2, "compiledb") {
        Some(x) => x,
        None => return None,
    };
    let c = match req_ws(s, b3) {
        Some(x) => x,
        None => return None,
    };
    let d = match p_token(s, c) {
        Some(x) => x,
        None => return None,
    };
    let path = substring(src, c, d);
    Some((skip_ws(s, d), InputCommand::LoadCompileDb { path, load_includes: inc, load_sources: srcs }))
}

fn p_compiledb_path_first(src: &str, s: &Vec<char>, i: usize) -> (r: Option<(usize, InputCommand)>)
    requires
        s@ == src@,
        i <= s@.len(),
    ensures
        agrees(r, compiledb_path_first(s@, i as int), s@.len() as int),
{
    let a0 = skip_ws(s, i);
    let a1 = match tag_exec(s, a0, "from") {
        Some(x) => x,
        None => return None,
    };
    let a2 = match req_ws(s, a1) {
        Some(x) => x,
        None => return None,
    };
    let a3 = match tag_exec(s, a2, "compiledb") {
        Some(x) => x,
        None => return None,
    };
    let a = match req_ws(s, a3) {
        Some(x) => x,
        None => return None,
    };
    let b = match p_token(s, a) {
        Some(x) => x,
        None => return None,
    };
    let c1 = match req_ws(s, b) {
        Some(x) => x,
        None => return None,
    };
    let c = match tag_exec(s, c1, "load") {
        Some(x) => x,
        None => return None,
    };
    let d = skip_ws(s, c);
    let (m, inc, srcs) = p_load_list(s, d);
    let e = skip_ws(s, m);
    let path = substring(src, a, b);
    Some((e, InputCommand::LoadCompileDb { path, load_includes: inc, load_sources: srcs }))
}

fn p_keyword_token(s: &Vec<char>, i: usize, t: &str) -> (r: Option<(usize, usize, usize)>)
    requires
        i <= s@.len(),
    ensures
        match r {
            Some((e, a, b)) => keyword_token(s@, i as int, t@) == Some((e as int, a as int, b as int))
                && a <= b <= e <= s@.len(),
            None => keyword_token(s@, i as int, t@) is None,
        },
{
    let k = match tag_exec(s, i, t) {
        Some(x) => x,
        None => return None,
    };
    let a = match req_ws(s, k) {
        Some(x) => x,
        None => return None,
    };
    let b = match p_token(s, a) {
        Some(x) => x,
        None => return None,
    };
    Some((skip_ws(s, b), a, b))
}

pub(crate) fn p_input_command(src: &str, s: &Vec<char>, i: usize) -> (r: Option<(usize, InputCommand)>)
    requires
        s@ == src@,
        i <= s@.len(),
    ensures
        agrees(r, input_command(s@, i as int), s@.len() as int),
{
    match p_compiledb(src, s, i) {
        Some(r) => return Some(r),
        None => {},
    }
    match p_keyword_token(s, i, "glob") {
        Some((e, a, b)) => return Some((e, InputCommand::Glob(substring(src, a, b)))),
        None => {},
    }
    match p_keyword_token(s, i, "include_dir") {
        Some((e, a, b)) => Some((e, InputCommand::IncludeDirectory(substring(src, a, b)))),
        None => None,
    }
}

fn p_input_commands(src: &str, s: &Vec<char>, i: usize) -> (r: (usize, Vec<InputCommand>))
    requires
        s@ == src@,
        i <= s@.len(),
    ensures
        input_commands(s@, i as int) == (r.0 as int, views(r.1@)),
        i <= r.0 <= s@.len(),
{
    let mut pos = i;
    let mut out: Vec<InputCommand> = Vec::new();
    while pos < s.len()
        invariant
            s@ == src@,
            i <= pos <= s@.len(),
            input_commands(s@, i as int).0 == input_commands(s@, pos as int).0,
            input_commands(s@, i as int).1 == views(out@) + input_commands(s@, pos as int).1,
        ensures
            i <= pos <= s@.len(),
            input_commands(s@, i as int).0 == pos,
            input_commands(s@, i as int).1 == views(out@),
        decreases s.len() - pos,
    {
        match p_input_command(src, s, pos) {
            Some((e, v)) => {
                if e <= pos {
                    assert(views(out@) + input_commands(s@, pos as int).1 =~= views(out@));
                    break;
                }
                let ghost before = views(out@);
                let ghost vv = v@;
                out.push(v);
                assert(views(out@) =~= before.push(vv));
                assert(before + input_commands(s@, pos as int).1 =~= views(out@) + input_commands(s@, e as int).1);
                pos = e;
            },
            None => {
                assert(views(out@) + input_commands(s@, pos as int).1 =~= views(out@));
                break;
            },
        }
    }
    proof {
        if pos == s@.len() {
            assert(views(out@) + input_commands(s@, pos as int).1 =~= views(out@));
        }
    }
    (pos, out)
}

fn p_block_open(s: &Vec<char>, i: usize, t: &str) -> (r: Option<usize>)
    requires
        i <= s@.len(),
    ensures
        match r {
            Some(e) => block_open(s@, i as int, t@) == Some(e as int) && i <= e <= s@.len(),
            None => block_open(s@, i as int, t@) is None,
        },
{
    let a = match tag_exec(s, i, t) {
        Some(x) => x,
        None => return None,
    };
    let b = skip_ws(s, a);
    let c = match tag_exec(s, b, "{") {
        Some(x) => x,
        None => return None,
    };
    Some(skip_ws(s, c))
}

fn p_block_close(s: &Vec<char>, i: usize) -> (r: Option<usize>)
    requires
        i <= s@.len(),
    ensures
        match r {
            Some(e) => block_close(s@, i as int) == Some(e as int) && i <= e <= s@.len(),
            None => block_close(s@, i as int) is None,
        },
{
    let a = skip_ws(s, i);
    let b = match tag_exec(s, a, "}") {
        Some(x) => x,
        None => return None,
    };
    Some(skip_ws(s, b))
}

pub(crate) fn p_input_block(src: &str, s: &Vec<char>, i: usize) -> (r: Option<(usize, Vec<InputCommand>)>)
    requires
        s@ == src@,
        i <= s@.len(),
    ensures
        match r {
            Some((e, v)) => input_block(s@, i as int) == Some((e as int, views(v@))) && e <= s@.len(),
            None => input_block(s@, i as int) is None,
        },
{
    let a = match p_block_open(s, i, "input") {
        Some(x) => x,
        None => return None,
    };
    let (b, cmds) = p_input_commands(src, s, a);
    let c = match tag_exec(s, b, "}") {
        Some(x) => x,
        None => return None,
    };
    Some((skip_ws(s, c), cmds))
}

fn p_map_drop(src: &str, s: &Vec<char>, i: usize) -> (r: Option<(usize, MapInstruction)>)
    requires
        s@ == src@,
        i <= s@.len(),
    ensures
        agrees(r, map_drop(s@, i as int), s@.len() as int),
{
    let a0 = skip_ws(s, i);
    let a1 = match tag_exec(s, a0, "drop") {
        Some(x) => x,
        None => return None,
    };
    let a = match req_ws(s, a1) {
        Some(x) => x,
        None => return None,
    };
    match p_token(s, a) {
        Some(b) => Some((b, MapInstruction::Drop(substring(src, a, b)))),
        None => None,
    }
}

fn p_map_filter(src: &str, s: &Vec<char>, i: usize) -> (r: Option<(usize, MapInstruction)>)
    requires
        s@ == src@,
        i <= s@.len(),
    ensures
        agrees(r, map_filter(s@, i as int), s@.len() as int),
{
    let a0 = skip_ws(s, i);
    let a1 = match tag_exec(s, a0, "keep") {
        Some(x) => x,
        None => return p_map_drop(src, s, i),
    };
    let a = match req_ws(s, a1) {
        Some(x) => x,
        None => return p_map_drop(src, s, i),
    };
    match p_token(s, a) {
        Some(b) => Some((b, MapInstruction::Keep(substring(src, a, b)))),
        None => p_map_drop(src, s, i),
    }
}

fn p_map_instruction(src: &str, s: &Vec<char>, i: usize) -> (r: Option<(usize, MapInstruction)>)
    requires
        s@ == src@,
        i <= s@.len(),
    ensures
        agrees(r, map_instruction(s@, i as int), s@.len() as int),
{
    let a = match p_token(s, i) {
        Some(x) => x,
        None => return p_map_filter(src, s, i),
    };
    let b1 = match req_ws(s, a) {
        Some(x) => x,
        None => return p_map_filter(src, s, i),
    };
    let b2 = match tag_exec(s, b1, "=>") {
        Some(x) => x,
        None => return p_map_filter(src, s, i),
    };
    let b = match req_ws(s, b2) {
        Some(x) => x,
        None => return p_map_filter(src, s, i),
    };
    match p_token(s, b) {
        Some(c) => Some(
            (c, MapInstruction::DisplayMap { from: substring(src, i, a), to: substring(src, b, c) }),
        ),
        None => p_map_filter(src, s, i),
    }
}

fn p_map_instructions(src: &str, s: &Vec<char>, i: usize) -> (r: (usize, Vec<MapInstruction>))
    requires
        s@ == src@,
        i <= s@.len(),
    ensures
        map_instructions(s@, i as int) == (r.0 as int, views(r.1@)),
        i <= r.0 <= s@.len(),
{
    let mut pos = i;
    let mut out: Vec<MapInstruction> = Vec::new();
    while pos < s.len()
        invariant
            s@ == src@,
            i <= pos <= s@.len(),
            map_instructions(s@, i as int).0 == map_instructions(s@, pos as int).0,
            map_instructions(s@, i as int).1 == views(out@) + map_instructions(s@, pos as int).1,
        ensures
            i <= pos <= s@.len(),
            map_instructions(s@, i as int).0 == pos,
            map_instructions(s@, i as int).1 == views(out@),
        decreases s.len() - pos,
    {
        let (a, v) = match p_map_instruction(src, s, pos) {
            Some(x) => x,
            None => {
                assert(views(out@) + map_instructions(s@, pos as int).1 =~= views(out@));
                break;
            },
        };
        let e = match req_ws(s, a) {
            Some(x) => x,
            None => {
                assert(views(out@) + map_instructions(s@, pos as int).1 =~= views(out@));
                break;
            },
        };
        if e <= pos {
            assert(views(out@) + map_instructions(s@, pos as int).1 =~= views(out@));
            break;
        }
        let ghost before = views(out@);
        let ghost vv = v@;
        out.push(v);
        assert(views(out@) =~= before.push(vv));
        assert(before + map_instructions(s@, pos as int).1 =~= views(out@) + map_instructions(s@, e as int).1);
        pos = e;
    }
    proof {
        if pos == s@.len() {
            assert(views(out@) + map_instructions(s@, pos as int).1 =~= views(out@));
        }
    }
    (pos, out)
}

fn p_map_block(src: &str, s: &Vec<char>, i: usize) -> (r: Option<(usize, Vec<MapInstruction>)>)
    requires
        s@ == src@,
        i <= s@.len(),
    ensures
        match r {
            Some((e, v)) => map_block(s@, i as int) == Some((e as int, views(v@))) && e <= s@.len(),
            None => map_block(s@, i as int) is None,
        },
{
    let a = match p_block_open(s, i, "map") {
        Some(x) => x,
        None => return None,
    };
    let (b, list) = p_map_instructions(src, s, a);
    match p_block_close(s, b) {
        Some(e) => Some((e, list)),
        None => None,
    }
}

fn p_items(src: &str, s: &Vec<char>, i: usize) -> (r: (usize, Vec<String>))
    requires
        s@ == src@,
        i <= s@.len(),
    ensures
        items(s@, i as int) == (r.0 as int, strs(r.1@)),
        i <= r.0 <= s@.len(),
{
    let mut pos = i;
    let mut out: Vec<String> = Vec::new();
    while pos < s.len()
        invariant
            s@ == src@,
            i <= pos <= s@.len(),
            items(s@, i as int).0 == items(s@, pos as int).0,
            items(s@, i as int).1 == strs(out@) + items(s@, pos as int).1,
        ensures
            i <= pos <= s@.len(),
            items(s@, i as int).0 == pos,
            items(s@, i as int).1 == strs(out@),
        decreases s.len() - pos,
    {
        let a = skip_ws(s, pos);
        let e = match p_item(s, a) {
            Some(x) => x,
            None => {
                assert(strs(out@) + items(s@, pos as int).1 =~= strs(out@));
                break;
            },
        };
        if e <= pos {
            assert(strs(out@) + items(s@, pos as int).1 =~= strs(out@));
            break;
        }
        let ghost before = strs(out@);
        let v = substring(src, a, e);
        let ghost vv = v@;
        out.push(v);
        assert(strs(out@) =~= before.push(vv));
        assert(before + items(s@, pos as int).1 =~= strs(out@) + items(s@, e as int).1);
        pos = e;
    }
    proof {
        if pos == s@.len() {
            assert(strs(out@) + items(s@, pos as int).1 =~= strs(out@));
        }
    }
    (pos, out)
}

pub(crate) fn p_target_list(src: &str, s: &Vec<char>, i: usize) -> (r: (usize, Vec<String>))
    requires
        s@ == src@,
        i <= s@.len(),
    ensures
        target_list(s@, i as int) == (r.0 as int, strs(r.1@)),
        i <= r.0 <= s@.len(),
{
    let (a, l) = p_items(src, s, i);
    (skip_ws(s, a), l)
}

fn p_ignore_targets(src: &str, s: &Vec<char>, i: usize) -> (r: Option<(usize, Vec<String>)>)
    requires
        s@ == src@,
        i <= s@.len(),
    ensures
        match r {
            Some((e, v)) => ignore_targets(s@, i as int) == Some((e as int, strs(v@))) && e <= s@.len(),
            None => ignore_targets(s@, i as int) is None,
        },
{
    let a1 = match req_ws(s, i) {
        Some(x) => x,
        None => return None,
    };
    let a2 = match tag_exec(s, a1, "ignore") {
        Some(x) => x,
        None => return None,
    };
    let a3 = match req_ws(s, a2) {
        Some(x) => x,
        None => return None,
    };
    let a4 = match tag_exec(s, a3, "targets") {
        Some(x) => x,
        None => return None,
    };
    let a5 = skip_ws(s, a4);
    let a = match tag_exec(s, a5, "{") {
        Some(x) => x,
        None => return None,
    };
    let (b, l) = p_target_list(src, s, a);
    match p_block_close(s, b) {
        Some(e) => Some((e, l)),
        None => None,
    }
}

/// Keyword `t` between required whitespace on both sides, after `i`.
fn p_ws_keyword_ws(s: &Vec<char>, i: usize, t: &str) -> (r: Option<usize>)
    requires
        i <= s@.len(),
    ensures
        match r {
            Some(e) => then_ws(s@, then_tag(s@, ws(s@, i as int), t@)) == Some(e as int) && i <= e
                <= s@.len(),
            None => then_ws(s@, then_tag(s@, ws(s@, i as int), t@)) is None,
        },
{
    let a = match req_ws(s, i) {
        Some(x) => x,
        None => return None,
    };
    let b = match tag_exec(s, a, t) {
        Some(x) => x,
        None => return None,
    };
    req_ws(s, b)
}

pub(crate) fn p_gn_target(src: &str, s: &Vec<char>, i: usize) -> (r: Option<(usize, GroupInstruction)>)
    requires
        s@ == src@,
        i <= s@.len(),
    ensures
        agrees(r, gn_target(s@, i as int), s@.len() as int),
{
    let k = match tag_exec(s, i, "gn") {
        Some(x) => x,
        None => return None,
    };
    let a = match p_ws_keyword_ws(s, k, "root") {
        Some(x) => x,
        None => return None,
    };
    let b = match p_token(s, a) {
        Some(x) => x,
        None => return None,
    };
    let c = match p_ws_keyword_ws(s, b, "target") {
        Some(x) => x,
        None => return None,
    };
    let d = match p_token(s, c) {
        Some(x) => x,
        None => return None,
    };
    let e = match p_ws_keyword_ws(s, d, "sources") {
        Some(x) => x,
        None => return None,
    };
    let f = match p_token(s, e) {
        Some(x) => x,
        None => return None,
    };
    let (g, ignore) = match p_ignore_targets(src, s, f) {
        Some((x, l)) => (x, l),
        None => (f, Vec::new()),
    };
    proof {
        if ignore_targets(s@, f as int) is None {
            assert(strs(ignore@) =~= Seq::<Seq<char>>::empty());
        }
    }
    Some(
        (
            skip_ws(s, g),
            GroupInstruction::GroupFromGn {
                gn_root: substring(src, a, b),
                target: substring(src, c, d),
                source_root: substring(src, e, f),
                ignore_targets: ignore,
            },
        ),
    )
}

fn p_manual_color(s: &Vec<char>, i: usize) -> (r: Option<(usize, usize)>)
    requires
        i <= s@.len(),
    ensures
        match r {
            Some((a, b)) => manual_color(s@, i as int) == Some((a as int, b as int)) && a <= b
                <= s@.len(),
            None => manual_color(s@, i as int) is None,
        },
{
    let a1 = match req_ws(s, i) {
        Some(x) => x,
        None => return None,
    };
    let a2 = match tag_exec(s, a1, "color") {
        Some(x) => x,
        None => return None,
    };
    let a = skip_ws(s, a2);
    match p_token(s, a) {
        Some(b) => Some((a, b)),
        None => None,
    }
}

pub(crate) fn p_manual_group(src: &str, s: &Vec<char>, i: usize) -> (r: Option<(usize, GroupInstruction)>)
    requires
        s@ == src@,
        i <= s@.len(),
    ensures
        agrees(r, manual_group(s@, i as int), s@.len() as int),
{
    let a0 = skip_ws(s, i);
    let a1 = match tag_exec(s, a0, "manual") {
        Some(x) => x,
        None => return None,
    };
    let a = skip_ws(s, a1);
    let b = match p_token(s, a) {
        Some(x) => x,
        None => return None,
    };
    let c = p_manual_color(s, b);
    let d = match c {
        Some((_, x)) => x,
        None => b,
    };
    let d1 = skip_ws(s, d);
    let e = match tag_exec(s, d1, "{") {
        Some(x) => x,
        None => return None,
    };
    let (l0, list) = p_items(src, s, e);
    let f = match p_block_close(s, l0) {
        Some(x) => x,
        None => return None,
    };
    let color = match c {
        Some((x, y)) => Some(substring(src, x, y)),
        None => None,
    };
    Some((f, GroupInstruction::ManualGroup { name: substring(src, a, b), color, items: list }))
}

fn p_group_instruction(src: &str, s: &Vec<char>, i: usize) -> (r: Option<(usize, GroupInstruction)>)
    requires
        s@ == src@,
        i <= s@.len(),
    ensures
        agrees(r, group_instruction(s@, i as int), s@.len() as int),
{
    match tag_exec(s, i, "group_source_header") {
        Some(a) => return Some((skip_ws(s, a), GroupInstruction::GroupSourceHeader)),
        None => {},
    }
    match p_gn_target(src, s, i) {
        Some(r) => Some(r),
        None => p_manual_group(src, s, i),
    }
}

fn p_group_instructions(src: &str, s: &Vec<char>, i: usize) -> (r: (usize, Vec<GroupInstruction>))
    requires
        s@ == src@,
        i <= s@.len(),
    ensures
        group_instructions(s@, i as int) == (r.0 as int, views(r.1@)),
        i <= r.0 <= s@.len(),
{
    let mut pos = i;
    let mut out: Vec<GroupInstruction> = Vec::new();
    while pos < s.len()
        invariant
            s@ == src@,
            i <= pos <= s@.len(),
            group_instructions(s@, i as int).0 == group_instructions(s@, pos as int).0,
            group_instructions(s@, i as int).1 == views(out@) + group_instructions(s@, pos as int).1,
        ensures
            i <= pos <= s@.len(),
            group_instructions(s@, i as int).0 == pos,
            group_instructions(s@, i as int).1 == views(out@),
        decreases s.len() - pos,
    {
        match p_group_instruction(src, s, pos) {
            Some((e, v)) => {
                if e <= pos {
                    assert(views(out@) + group_instructions(s@, pos as int).1 =~= views(out@));
                    break;
                }
                let ghost before = views(out@);
                let ghost vv = v@;
                out.push(v);
                assert(views(out@) =~= before.push(vv));
                assert(before + group_instructions(s@, pos as int).1 =~= views(out@) + group_instructions(s@, e as int).1);
                pos = e;
            },
            None => {
                assert(views(out@) + group_instructions(s@, pos as int).1 =~= views(out@));
                break;
            },
        }
    }
    proof {
        if pos == s@.len() {
            assert(views(out@) + group_instructions(s@, pos as int).1 =~= views(out@));
        }
    }
    (pos, out)
}

pub(crate) fn p_group_block(src: &str, s: &Vec<char>, i: usize) -> (r: Option<(usize, Vec<GroupInstruction>)>)
    requires
        s@ == src@,
        i <= s@.len(),
    ensures
        match r {
            Some((e, v)) => group_block(s@, i as int) == Some((e as int, views(v@))) && e <= s@.len(),
            None => group_block(s@, i as int) is None,
        },
{
    let a0 = skip_ws(s, i);
    let a = match p_block_open(s, a0, "group") {
        Some(x) => x,
        None => return None,
    };
    let (b, list) = p_group_instructions(src, s, a);
    match p_block_close(s, b) {
        Some(e) => Some((e, list)),
        None => None,
    }
}

fn p_direction(s: &Vec<char>, i: usize) -> (r: Option<(usize, bool)>)
    requires
        i <= s@.len(),
    ensures
        match r {
            Some((e, f)) => direction(s@, i as int) == Some((e as int, f)) && i <= e <= s@.len(),
            None => direction(s@, i as int) is None,
        },
{
    let a = skip_ws(s, i);
    match tag_exec(s, a, "from") {
        Some(e) => Some((e, true)),
        None => match tag_exec(s, a, "to") {
            Some(e) => Some((e, false)),
            None => None,
        },
    }
}

pub(crate) fn p_color_instruction(src: &str, s: &Vec<char>, i: usize) -> (r: Option<(usize, ColorInstruction)>)
    requires
        s@ == src@,
        i <= s@.len(),
    ensures
        agrees(r, color_instruction(s@, i as int), s@.len() as int),
        match r {
            Some((e, _)) => i < e,
            None => true,
        },
{
    let (a, from) = match p_direction(s, i) {
        Some(x) => x,
        None => return None,
    };
    let b = match req_ws(s, a) {
        Some(x) => x,
        None => return None,
    };
    let c = match p_token(s, b) {
        Some(x) => x,
        None => return None,
    };
    let d = match req_ws(s, c) {
        Some(x) => x,
        None => return None,
    };
    let bold = match tag_exec(s, d, "bold") {
        Some(x) => req_ws(s, x),
        None => None,
    };
    let e = match bold {
        Some(x) => x,
        None => d,
    };
    let f = match p_token(s, e) {
        Some(x) => x,
        None => return None,
    };
    let name = substring(src, b, c);
    let color = substring(src, e, f);
    let end = if from {
        GroupEdgeEnd::From(name)
    } else {
        GroupEdgeEnd::To(name)
    };
    let color = match bold {
        Some(_) => EdgeColor::Bold(color),
        None => EdgeColor::Regular(color),
    };
    Some((f, ColorInstruction { end, color }))
}

fn p_color_list(src: &str, s: &Vec<char>, i: usize) -> (r: (usize, Vec<ColorInstruction>))
    requires
        s@ == src@,
        i <= s@.len(),
    ensures
        color_list(s@, i as int) == (r.0 as int, views(r.1@)),
        i <= r.0 <= s@.len(),
{
    let mut out: Vec<ColorInstruction> = Vec::new();
    let (mut pos, first) = match p_color_instruction(src, s, i) {
        Some(x) => x,
        None => {
            assert(views(out@) =~= Seq::<crate::config::ColorInstructionView>::empty());
            return (i, out);
        },
    };
    out.push(first);
    assert(views(out@) =~= seq![first@]);
    while pos < s.len()
        invariant
            s@ == src@,
            i <= pos <= s@.len(),
            color_list(s@, i as int).0 == color_rest(s@, pos as int).0,
            color_list(s@, i as int).1 == views(out@) + color_rest(s@, pos as int).1,
        ensures
            i <= pos <= s@.len(),
            color_list(s@, i as int).0 == pos,
            color_list(s@, i as int).1 == views(out@),
        decreases s.len() - pos,
    {
        let a = match req_ws(s, pos) {
            Some(x) => x,
            None => {
                assert(views(out@) + color_rest(s@, pos as int).1 =~= views(out@));
                break;
            },
        };
        match p_color_instruction(src, s, a) {
            Some((e, v)) => {
                let ghost before = views(out@);
                let ghost vv = v@;
                out.push(v);
                assert(views(out@) =~= before.push(vv));
                assert(before + color_rest(s@, pos as int).1 =~= views(out@) + color_rest(s@, e as int).1);
                pos = e;
            },
            None => {
                assert(views(out@) + color_rest(s@, pos as int).1 =~= views(out@));
                break;
            },
        }
    }
    proof {
        if pos == s@.len() {
            assert(views(out@) + color_rest(s@, pos as int).1 =~= views(out@));
        }
    }
    (pos, out)
}

pub(crate) fn p_color_block(src: &str, s: &Vec<char>, i: usize) -> (r: Option<(usize, Vec<ColorInstruction>)>)
    requires
        s@ == src@,
        i <= s@.len(),
    ensures
        match r {
            Some((e, v)) => color_block(s@, i as int) == Some((e as int, views(v@))) && e <= s@.len(),
            None => color_block(s@, i as int) is None,
        },
{
    let a0 = skip_ws(s, i);
    let a1 = match tag_exec(s, a0, "color") {
        Some(x) => x,
        None => return None,
    };
    let a2 = match req_ws(s, a1) {
        Some(x) => x,
        None => return None,
    };
    let a3 = match tag_exec(s, a2, "edges") {
        Some(x) => x,
        None => return None,
    };
    let a4 = skip_ws(s, a3);
    let a5 = match tag_exec(s, a4, "{") {
        Some(x) => x,
        None => return None,
    };
    let a = skip_ws(s, a5);
    let (b, list) = p_color_list(src, s, a);
    match p_block_close(s, b) {
        Some(e) => Some((e, list)),
        None => None,
    }
}

fn p_zoom_item(src: &str, s: &Vec<char>, i: usize) -> (r: Option<(usize, ZoomItem)>)
    requires
        s@ == src@,
        i <= s@.len(),
    ensures
        agrees(r, zoom_item(s@, i as int), s@.len() as int),
{
    let focus = match tag_exec(s, i, "focus:") {
        Some(x) => req_ws(s, x),
        None => None,
    };
    let a = match focus {
        Some(x) => x,
        None => i,
    };
    match p_item(s, a) {
        Some(b) => Some((skip_ws(s, b), ZoomItem { name: substring(src, a, b), focused: focus.is_some() })),
        None => None,
    }
}

fn p_zoom_items(src: &str, s: &Vec<char>, i: usize) -> (r: (usize, Vec<ZoomItem>))
    requires
        s@ == src@,
        i <= s@.len(),
    ensures
        zoom_items(s@, i as int) == (r.0 as int, views(r.1@)),
        i <= r.0 <= s@.len(),
{
    let mut pos = i;
    let mut out: Vec<ZoomItem> = Vec::new();
    while pos < s.len()
        invariant
            s@ == src@,
            i <= pos <= s@.len(),
            zoom_items(s@, i as int).0 == zoom_items(s@, pos as int).0,
            zoom_items(s@, i as int).1 == views(out@) + zoom_items(s@, pos as int).1,
        ensures
            i <= pos <= s@.len(),
            zoom_items(s@, i as int).0 == pos,
            zoom_items(s@, i as int).1 == views(out@),
        decreases s.len() - pos,
    {
        match p_zoom_item(src, s, pos) {
            Some((e, v)) => {
                if e <= pos {
                    assert(views(out@) + zoom_items(s@, pos as int).1 =~= views(out@));
                    break;
                }
                let ghost before = views(out@);
                let ghost vv = v@;
                out.push(v);
                assert(views(out@) =~= before.push(vv));
                assert(before + zoom_items(s@, pos as int).1 =~= views(out@) + zoom_items(s@, e as int).1);
                pos = e;
            },
            None => {
                assert(views(out@) + zoom_items(s@, pos as int).1 =~= views(out@));
                break;
            },
        }
    }
    proof {
        if pos == s@.len() {
            assert(views(out@) + zoom_items(s@, pos as int).1 =~= views(out@));
        }
    }
    (pos, out)
}

pub(crate) fn p_zoom_block(src: &str, s: &Vec<char>, i: usize) -> (r: Option<(usize, Vec<ZoomItem>)>)
    requires
        s@ == src@,
        i <= s@.len(),
    ensures
        match r {
            Some((e, v)) => zoom_block(s@, i as int) == Some((e as int, views(v@))) && e <= s@.len(),
            None => zoom_block(s@, i as int) is None,
        },
{
    let a0 = skip_ws(s, i);
    let a = match p_block_open(s, a0, "zoom") {
        Some(x) => x,
        None => return None,
    };
    let (b, list) = p_zoom_items(src, s, a);
    match p_block_close(s, b) {
        Some(e) => Some((e, list)),
        None => None,
    }
}

pub(crate) fn p_graph_block(src: &str, s: &Vec<char>, i: usize) -> (r: Option<(usize, GraphInstructions)>)
    requires
        s@ == src@,
        i <= s@.len(),
    ensures
        agrees(r, graph_block(s@, i as int), s@.len() as int),
{
    let a0 = skip_ws(s, i);
    let a = match p_block_open(s, a0, "graph") {
        Some(x) => x,
        None => return None,
    };
    let (b, maps) = match p_map_block(src, s, a) {
        Some(x) => x,
        None => return None,
    };
    let (c, groups) = match p_group_block(src, s, b) {
        Some(x) => x,
        None => return None,
    };
    let (d, colors) = match p_color_block(src, s, c) {
        Some(x) => x,
        None => (c, Vec::new()),
    };
    let (e, zooms) = match p_zoom_block(src, s, d) {
        Some(x) => x,
        None => (d, Vec::new()),
    };
    let f = match p_block_close(s, e) {
        Some(x) => x,
        None => return None,
    };
    let g = GraphInstructions {
        map_instructions: maps,
        group_instructions: groups,
        color_instructions: colors,
        zoom_items: zooms,
    };
    proof {
        if color_block(s@, c as int) is None {
            assert(views(g.color_instructions@) =~= Seq::<crate::config::ColorInstructionView>::empty());
        }
        if zoom_block(s@, d as int) is None {
            assert(views(g.zoom_items@) =~= Seq::<crate::config::ZoomItemView>::empty());
        }
    }
    Some((f, g))
}

fn p_assignment(src: &str, s: &Vec<char>, i: usize) -> (r: Option<(usize, VariableAssignment)>)
    requires
        s@ == src@,
        i <= s@.len(),
    ensures
        match r {
            Some((e, v)) => assignment(s@, i as int) == Some((e as int, (v.name@, v.value@))) && i < e
                <= s@.len(),
            None => assignment(s@, i as int) is None,
        },
{
    let a = match run_exec(s, i, CharClass::Name) {
        Some(x) => x,
        None => return None,
    };
    let a1 = skip_ws(s, a);
    let a2 = match tag_exec(s, a1, "=") {
        Some(x) => x,
        None => return None,
    };
    let b = skip_ws(s, a2);
    match p_token(s, b) {
        Some(c) => Some(
            (c, VariableAssignment { name: substring(src, i, a), value: substring(src, b, c) }),
        ),
        None => None,
    }
}

spec fn assignment_end(s: Seq<char>, i: int) -> int {
    match assignment(s, i) {
        Some((e, _)) => e,
        None => i,
    }
}

spec fn assignment_pair(s: Seq<char>, i: int) -> (Seq<char>, Seq<char>) {
    match assignment(s, i) {
        Some((_, v)) => v,
        None => (Seq::empty(), Seq::empty()),
    }
}

/// The (name, value) pairs of a list of assignments.
pub open spec fn pairs(v: Seq<VariableAssignment>) -> Seq<(Seq<char>, Seq<char>)> {
    v.map_values(|a: VariableAssignment| (a.name@, a.value@))
}

pub(crate) fn p_assignments(src: &str, s: &Vec<char>, i: usize) -> (r: (usize, Vec<VariableAssignment>))
    requires
        s@ == src@,
        i <= s@.len(),
    ensures
        assignments(s@, i as int) == (r.0 as int, pairs(r.1@)),
        i <= r.0 <= s@.len(),
{
    let mut out: Vec<VariableAssignment> = Vec::new();
    let start = skip_ws(s, i);
    let (mut pos, first) = match p_assignment(src, s, start) {
        Some(x) => x,
        None => {
            assert(pairs(out@) =~= Seq::<(Seq<char>, Seq<char>)>::empty());
            return (skip_ws(s, start), out);
        },
    };
    let ghost fv = (first.name@, first.value@);
    out.push(first);
    assert(pairs(out@) =~= seq![fv]);
    while pos < s.len()
        invariant
            s@ == src@,
            start <= pos <= s@.len(),
            i <= start,
            assignment(s@, start as int) is Some,
            assignment_rest(s@, assignment_end(s@, start as int)).0 == assignment_rest(s@, pos as int).0,
            seq![assignment_pair(s@, start as int)] + assignment_rest(s@, assignment_end(s@, start as int)).1
                == pairs(out@) + assignment_rest(s@, pos as int).1,
        ensures
            start <= pos <= s@.len(),
            assignment_rest(s@, assignment_end(s@, start as int)).0 == pos,
            seq![assignment_pair(s@, start as int)] + assignment_rest(s@, assignment_end(s@, start as int)).1
                == pairs(out@),
        decreases s.len() - pos,
    {
        let a = match req_ws(s, pos) {
            Some(x) => x,
            None => {
                assert(pairs(out@) + assignment_rest(s@, pos as int).1 =~= pairs(out@));
                break;
            },
        };
        match p_assignment(src, s, a) {
            Some((e, v)) => {
                let ghost before = pairs(out@);
                let ghost vv = (v.name@, v.value@);
                out.push(v);
                assert(pairs(out@) =~= before.push(vv));
                assert(before + assignment_rest(s@, pos as int).1 =~= pairs(out@) + assignment_rest(s@, e as int).1);
                pos = e;
            },
            None => {
                assert(pairs(out@) + assignment_rest(s@, pos as int).1 =~= pairs(out@));
                break;
            },
        }
    }
    proof {
        if pos == s@.len() {
            assert(pairs(out@) + assignment_rest(s@, pos as int).1 =~= pairs(out@));
        }
    }
    (skip_ws(s, pos), out)
}

} // verus!
