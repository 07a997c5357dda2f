//! Reading a whole configuration, and the entry points of each part of the
//! grammar.
use vstd::prelude::*;
use crate::config::{
    strs, views, ColorInstruction, ConfigurationFile, GraphInstructions, GroupInstruction,
    InputCommand, ZoomItem,
};
use crate::expand::{resolve, resolve_variables, VariableAssignment, VariableMap};
use crate::grammar::{
    assignments, color_block, color_instruction, comment, compiledb, configuration, graph_block,
    graph_start, gn_target, group_block, input_block, input_command, input_start, manual_group,
    target_list, token, zoom_block,
};
use crate::lexer::ws;
use crate::parser::{
    pairs, p_assignments, p_color_block, p_color_instruction, p_comment, p_compiledb, p_graph_block,
    p_gn_target, p_group_block, p_input_block, p_input_command, p_manual_group, p_target_list,
    p_token, p_zoom_block,
};
use crate::text::{substring, to_chars};

verus! {

/// Why a configuration was refused.
#[derive(Debug, Clone, PartialEq)]
pub enum ConfigError {
    /// The text does not follow the grammar; `remaining` is the text from the
    /// start of the block that failed.
    Syntax { remaining: String },
    /// The configuration parsed, but text follows it.
    TrailingInput { remaining: String },
}

/// A part of the grammar did not match; `remaining` is the text given.
#[derive(Debug, Clone, PartialEq)]
pub struct ParseError {
    pub remaining: String,
}

/// The text of `input` from character `e` on.
fn rest_of(input: &str, e: usize) -> (r: String)
    requires
        e <= input@.len(),
    ensures
        r@ == input@.skip(e as int),
{
    let n = input.unicode_len();
    let r = substring(input, e, n);
    assert(r@ =~= input@.skip(e as int));
    r
}

fn parse_error(input: &str) -> (r: ParseError)
    ensures
        r.remaining@ == input@,
{
    ParseError { remaining: String::from_str(input) }
}

/// Parses a configuration from its start: assignments, then the `input`
/// block, then the `graph` block. Gives the text left after it.
pub fn parse_config(input: &str) -> (r: Result<(String, ConfigurationFile), ConfigError>)
    ensures
        match configuration(input@) {
            Some((e, c)) => r matches Ok((rest, cfg)) && rest@ == input@.skip(e) && cfg@ == c && 0
                <= e <= input@.len(),
            None => r matches Err(ConfigError::Syntax { remaining }) && remaining@ == input@.skip(
                match graph_start(input@) {
                    Some(b) => b,
                    None => input_start(input@),
                },
            ),
        },
{
    let s = to_chars(input);
    let (a, assigns) = p_assignments(input, &s, 0);
    let (b, cmds) = match p_input_block(input, &s, a) {
        Some(x) => x,
        None => return Err(ConfigError::Syntax { remaining: rest_of(input, a) }),
    };
    let (c, graph) = match p_graph_block(input, &s, b) {
        Some(x) => x,
        None => return Err(ConfigError::Syntax { remaining: rest_of(input, b) }),
    };
    let ghost av = assigns@;
    let vars = resolve_variables(assigns);
    assert(pairs(av) =~= av.map_values(|x: VariableAssignment| (x.name@, x.value@)));
    let input_commands = crate::config::expand_input_commands(cmds, &vars);
    let graph = graph.expanded_from(&vars);
    let cfg = ConfigurationFile { variable_map: vars, input_commands, graph };
    Ok((rest_of(input, c), cfg))
}

/// Reads a whole configuration: it must parse, and nothing may follow it.
pub fn load_config(input: &str) -> (r: Result<ConfigurationFile, ConfigError>)
    ensures
        match configuration(input@) {
            Some((e, c)) => if e == input@.len() {
                r matches Ok(cfg) && cfg@ == c
            } else {
                r matches Err(ConfigError::TrailingInput { remaining }) && remaining@ == input@.skip(e)
            },
            None => r matches Err(ConfigError::Syntax { remaining }) && remaining@ == input@.skip(
                match graph_start(input@) {
                    Some(b) => b,
                    None => input_start(input@),
                },
            ),
        },
{
    match parse_config(input) {
        Ok((rest, cfg)) => {
            let n = rest.as_str().unicode_len();
            if n == 0 {
                Ok(cfg)
            } else {
                Err(ConfigError::TrailingInput { remaining: rest })
            }
        },
        Err(e) => Err(e),
    }
}

/// A comment: `#` and the rest of the line. Gives the text left and the
/// comment's text.
pub fn parse_comment(input: &str) -> (r: Result<(String, String), ParseError>)
    ensures
        match comment(input@, 0) {
            Some((e, c)) => r matches Ok((rest, t)) && rest@ == input@.skip(e) && t@ == c,
            None => r matches Err(err) && err.remaining@ == input@,
        },
{
    let s = to_chars(input);
    match p_comment(input, &s, 0) {
        Some((e, c)) => Ok((rest_of(input, e), c)),
        None => Err(parse_error(input)),
    }
}

/// Whitespace: at least one blank or comment. Gives the text left.
pub fn parse_whitespace(input: &str) -> (r: Result<(String, ()), ParseError>)
    ensures
        match ws(input@, 0) {
            Some(e) => r matches Ok((rest, _)) && rest@ == input@.skip(e),
            None => r matches Err(err) && err.remaining@ == input@,
        },
{
    let s = to_chars(input);
    match crate::lexer::req_ws(&s, 0) {
        Some(e) => Ok((rest_of(input, e), ())),
        None => Err(parse_error(input)),
    }
}

/// A token: everything up to the first blank or `#`.
pub fn parse_until_whitespace(input: &str) -> (r: Result<(String, String), ParseError>)
    ensures
        match token(input@, 0) {
            Some(e) => r matches Ok((rest, t)) && rest@ == input@.skip(e) && t@ == input@.take(e),
            None => r matches Err(err) && err.remaining@ == input@,
        },
{
    let s = to_chars(input);
    match p_token(&s, 0) {
        Some(e) => {
            let t = substring(input, 0, e);
            assert(t@ =~= input@.take(e as int));
            Ok((rest_of(input, e), t))
        },
        None => Err(parse_error(input)),
    }
}

/// `from compiledb PATH load KINDS`.
pub fn parse_compiledb(input: &str) -> (r: Result<(String, InputCommand), ParseError>)
    ensures
        match compiledb(input@, 0) {
            Some((e, c)) => r matches Ok((rest, v)) && rest@ == input@.skip(e) && v@ == c,
            None => r matches Err(err) && err.remaining@ == input@,
        },
{
    let s = to_chars(input);
    match p_compiledb(input, &s, 0) {
        Some((e, c)) => Ok((rest_of(input, e), c)),
        None => Err(parse_error(input)),
    }
}

/// One command of the `input` block.
pub fn parse_input_command(input: &str) -> (r: Result<(String, InputCommand), ParseError>)
    ensures
        match input_command(input@, 0) {
            Some((e, c)) => r matches Ok((rest, v)) && rest@ == input@.skip(e) && v@ == c,
            None => r matches Err(err) && err.remaining@ == input@,
        },
{
    let s = to_chars(input);
    match p_input_command(input, &s, 0) {
        Some((e, c)) => Ok((rest_of(input, e), c)),
        None => Err(parse_error(input)),
    }
}

/// The `input` block.
pub fn parse_input(input: &str) -> (r: Result<(String, Vec<InputCommand>), ParseError>)
    ensures
        match input_block(input@, 0) {
            Some((e, c)) => r matches Ok((rest, v)) && rest@ == input@.skip(e) && views(v@) == c,
            None => r matches Err(err) && err.remaining@ == input@,
        },
{
    let s = to_chars(input);
    match p_input_block(input, &s, 0) {
        Some((e, c)) => Ok((rest_of(input, e), c)),
        None => Err(parse_error(input)),
    }
}

/// A group from the build tool's targets.
pub fn parse_gn_target(input: &str) -> (r: Result<(String, GroupInstruction), ParseError>)
    ensures
        match gn_target(input@, 0) {
            Some((e, c)) => r matches Ok((rest, v)) && rest@ == input@.skip(e) && v@ == c,
            None => r matches Err(err) && err.remaining@ == input@,
        },
{
    let s = to_chars(input);
    match p_gn_target(input, &s, 0) {
        Some((e, c)) => Ok((rest_of(input, e), c)),
        None => Err(parse_error(input)),
    }
}

/// A group listed by hand.
pub fn parse_manual_group(input: &str) -> (r: Result<(String, GroupInstruction), ParseError>)
    ensures
        match manual_group(input@, 0) {
            Some((e, c)) => r matches Ok((rest, v)) && rest@ == input@.skip(e) && v@ == c,
            None => r matches Err(err) && err.remaining@ == input@,
        },
{
    let s = to_chars(input);
    match p_manual_group(input, &s, 0) {
        Some((e, c)) => Ok((rest_of(input, e), c)),
        None => Err(parse_error(input)),
    }
}

/// A list of targets; it stops before a `}`.
pub fn parse_target_list(input: &str) -> (r: Result<(String, Vec<String>), ParseError>)
    ensures
        r matches Ok((rest, v)) && rest@ == input@.skip(target_list(input@, 0).0) && strs(v@)
            == target_list(input@, 0).1,
{
    let s = to_chars(input);
    let (e, l) = p_target_list(input, &s, 0);
    Ok((rest_of(input, e), l))
}

/// The `group` block.
pub fn parse_group(input: &str) -> (r: Result<(String, Vec<GroupInstruction>), ParseError>)
    ensures
        match group_block(input@, 0) {
            Some((e, c)) => r matches Ok((rest, v)) && rest@ == input@.skip(e) && views(v@) == c,
            None => r matches Err(err) && err.remaining@ == input@,
        },
{
    let s = to_chars(input);
    match p_group_block(input, &s, 0) {
        Some((e, c)) => Ok((rest_of(input, e), c)),
        None => Err(parse_error(input)),
    }
}

/// One color instruction.
pub fn parse_color_instruction(input: &str) -> (r: Result<(String, ColorInstruction), ParseError>)
    ensures
        match color_instruction(input@, 0) {
            Some((e, c)) => r matches Ok((rest, v)) && rest@ == input@.skip(e) && v@ == c,
            None => r matches Err(err) && err.remaining@ == input@,
        },
{
    let s = to_chars(input);
    match p_color_instruction(input, &s, 0) {
        Some((e, c)) => Ok((rest_of(input, e), c)),
        None => Err(parse_error(input)),
    }
}

/// The `color edges` block.
pub fn parse_color_instructions(input: &str) -> (r: Result<(String, Vec<ColorInstruction>), ParseError>)
    ensures
        match color_block(input@, 0) {
            Some((e, c)) => r matches Ok((rest, v)) && rest@ == input@.skip(e) && views(v@) == c,
            None => r matches Err(err) && err.remaining@ == input@,
        },
{
    let s = to_chars(input);
    match p_color_block(input, &s, 0) {
        Some((e, c)) => Ok((rest_of(input, e), c)),
        None => Err(parse_error(input)),
    }
}

/// The `zoom` block.
pub fn parse_zoom(input: &str) -> (r: Result<(String, Vec<ZoomItem>), ParseError>)
    ensures
        match zoom_block(input@, 0) {
            Some((e, c)) => r matches Ok((rest, v)) && rest@ == input@.skip(e) && views(v@) == c,
            None => r matches Err(err) && err.remaining@ == input@,
        },
{
    let s = to_chars(input);
    match p_zoom_block(input, &s, 0) {
        Some((e, c)) => Ok((rest_of(input, e), c)),
        None => Err(parse_error(input)),
    }
}

/// The `graph` block, not yet expanded.
pub fn parse_graph(input: &str) -> (r: Result<(String, GraphInstructions), ParseError>)
    ensures
        match graph_block(input@, 0) {
            Some((e, c)) => r matches Ok((rest, v)) && rest@ == input@.skip(e) && v@ == c,
            None => r matches Err(err) && err.remaining@ == input@,
        },
{
    let s = to_chars(input);
    match p_graph_block(input, &s, 0) {
        Some((e, c)) => Ok((rest_of(input, e), c)),
        None => Err(parse_error(input)),
    }
}

/// The assignments at the head of a configuration, resolved in order.
pub fn parse_variable_assignments(input: &str) -> (r: Result<(String, VariableMap), ParseError>)
    ensures
        r matches Ok((rest, m)) && rest@ == input@.skip(assignments(input@, 0).0) && m@ == resolve(
            assignments(input@, 0).1,
        ),
{
    let s = to_chars(input);
    let (e, l) = p_assignments(input, &s, 0);
    let ghost lv = l@;
    let vars = resolve_variables(l);
    assert(pairs(lv) =~= lv.map_values(|x: VariableAssignment| (x.name@, x.value@)));
    Ok((rest_of(input, e), vars))
}

} // verus!
