use include_graph::config::{
    ColorInstruction, EdgeColor, GraphInstructions, GroupEdgeEnd, GroupInstruction, InputCommand,
    ZoomItem,
};
use include_graph::configfile::{
    parse_color_instruction, parse_color_instructions, parse_comment, parse_compiledb, parse_gn_target,
    parse_graph, parse_input, parse_input_command, parse_manual_group, parse_target_list,
    parse_variable_assignments, parse_zoom,
};
use include_graph::expand::{expand_variable, VariableMap};

fn s(v: &str) -> String {
    v.to_string()
}

#[test]
fn test_comment_parsing() {
    assert_eq!(parse_comment("#abc\r\nhello"), Ok((s("\r\nhello"), s("abc"))));
    assert!(parse_comment("not a comment").is_err());
    assert!(parse_comment("comment later # like here").is_err());
}

#[test]
fn test_gn_target() {
    assert_eq!(
        parse_gn_target("gn root test1 target //my/target/* sources srcs1"),
        Ok((
            s(""),
            GroupInstruction::GroupFromGn {
                gn_root: "test1".into(),
                target: "//my/target/*".into(),
                source_root: "srcs1".into(),
                ignore_targets: Vec::new(),
            },
        ))
    );

    assert_eq!(
        parse_gn_target("gn root test1 target //my/target/* sources srcs1 ignore targets {}"),
        Ok((
            s(""),
            GroupInstruction::GroupFromGn {
                gn_root: "test1".into(),
                target: "//my/target/*".into(),
                source_root: "srcs1".into(),
                ignore_targets: Vec::new(),
            },
        ))
    );

    assert_eq!(
        parse_gn_target(
            "gn root test1 target //my/target/* sources srcs1 ignore targets{
            }"
        ),
        Ok((
            s(""),
            GroupInstruction::GroupFromGn {
                gn_root: "test1".into(),
                target: "//my/target/*".into(),
                source_root: "srcs1".into(),
                ignore_targets: Vec::new(),
            },
        ))
    );

    assert_eq!(
        parse_gn_target(
            "gn root test1 target //my/target/* sources srcs1 ignore targets{
                a b
                c
                d
            }"
        ),
        Ok((
            s(""),
            GroupInstruction::GroupFromGn {
                gn_root: "test1".into(),
                target: "//my/target/*".into(),
                source_root: "srcs1".into(),
                ignore_targets: vec!["a", "b", "c", "d"].into_iter().map(String::from).collect(),
            },
        ))
    );
}

#[test]
fn test_manual_group() {
    assert_eq!(
        parse_manual_group(
            "
            manual some/name::special {
                file1
                file2
                another/file::test
            }
            "
        ),
        Ok((
            s(""),
            GroupInstruction::ManualGroup {
                name: "some/name::special".into(),
                color: None,
                items: vec!["file1".into(), "file2".into(), "another/file::test".into(),]
            }
        ))
    );

    assert_eq!(
        parse_manual_group(
            "
            manual some/name::special color red {
                file1
                file2
                another/file::test
            }
            "
        ),
        Ok((
            s(""),
            GroupInstruction::ManualGroup {
                name: "some/name::special".into(),
                color: Some("red".into()),
                items: vec!["file1".into(), "file2".into(), "another/file::test".into(),]
            }
        ))
    );
}

#[test]
fn test_gn_instruction() {
    let mut variable_map = VariableMap::new();
    variable_map.insert("Foo".into(), "Bar".into());

    assert_eq!(
        parse_graph(
            "
        graph {
              map {
              }
   
              group {
                gn root test1 target //my/target/* sources srcs1
                gn root test/${Foo}/blah target //* sources ${Foo} ignore targets {
                    //ignore1
                    //ignore:other
                }
              }
        }
        ",
        )
        .map(|(r, g)| (r, g.expanded_from(&variable_map))),
        Ok((
            s(""),
            GraphInstructions {
                map_instructions: Vec::new(),
                group_instructions: vec![
                    GroupInstruction::GroupFromGn {
                        gn_root: "test1".into(),
                        target: "//my/target/*".into(),
                        source_root: "srcs1".into(),
                        ignore_targets: Vec::new(),
                    },
                    GroupInstruction::GroupFromGn {
                        gn_root: "test/Bar/blah".into(),
                        target: "//*".into(),
                        source_root: "Bar".into(),
                        ignore_targets: vec![s("//ignore1"), s("//ignore:other")],
                    },
                ],
                color_instructions: Vec::new(),
                zoom_items: Vec::new(),
            }
        ))
    );
}

#[test]
fn test_color_instruction_parsing() {
    assert_eq!(
        parse_color_instruction("from source color"),
        Ok((
            s(""),
            ColorInstruction {
                end: GroupEdgeEnd::From("source".into()),
                color: EdgeColor::Regular("color".into())
            }
        ))
    );

    assert_eq!(
        parse_color_instruction("to destination color"),
        Ok((
            s(""),
            ColorInstruction {
                end: GroupEdgeEnd::To("destination".into()),
                color: EdgeColor::Regular("color".into())
            }
        ))
    );

    assert_eq!(
        parse_color_instruction("From x y"),
        Ok((
            s(""),
            ColorInstruction {
                end: GroupEdgeEnd::From("x".into()),
                color: EdgeColor::Regular("y".into())
            }
        ))
    );

    assert_eq!(
        parse_color_instruction("#comment\n  TO a bold b"),
        Ok((
            s(""),
            ColorInstruction {
                end: GroupEdgeEnd::To("a".into()),
                color: EdgeColor::Bold("b".into())
            }
        ))
    );
}

#[test]
fn test_color_instructions_parsing() {
    assert_eq!(parse_color_instructions("color edges {}"), Ok((s(""), Vec::new())));
    assert_eq!(
        parse_color_instructions(" #comment\ncolor edges {  \n  }\n#more comments\n   \n"),
        Ok((s(""), Vec::new()))
    );

    assert_eq!(
        parse_color_instructions(
            "
         #comment
         color edges {
            from x y
            to q r
            from a bold b
         }"
        ),
        Ok((
            s(""),
            vec![
                ColorInstruction {
                    end: GroupEdgeEnd::From("x".into()),
                    color: EdgeColor::Regular("y".into()),
                },
                ColorInstruction {
                    end: GroupEdgeEnd::To("q".into()),
                    color: EdgeColor::Regular("r".into()),
                },
                ColorInstruction {
                    end: GroupEdgeEnd::From("a".into()),
                    color: EdgeColor::Bold("b".into()),
                },
            ]
        ))
    );

    assert_eq!(
        parse_zoom(
            "
         #comment
         zoom{
            normal
            focus: thisone
            not this
         }"
        ),
        Ok((
            s(""),
            vec![
                ZoomItem { name: "normal".to_string(), focused: false },
                ZoomItem { name: "thisone".to_string(), focused: true },
                ZoomItem { name: "not".to_string(), focused: false },
                ZoomItem { name: "this".to_string(), focused: false },
            ]
        ))
    );

    assert!(parse_zoom("blah").is_err());
}

#[test]
fn test_zoom_parsing() {
    assert_eq!(parse_zoom("zoom{}"), Ok((s(""), Vec::new())));
    assert_eq!(
        parse_zoom(" #comment\nzoom {  \n  }\n#more comments\n   \n"),
        Ok((s(""), Vec::new()))
    );

    assert_eq!(
        parse_zoom(
            "
         #comment
         zoom{
            this
            is some #notice that whitespace matters and NOT newlines
            test
         }"
        ),
        Ok((
            s(""),
            vec![
                ZoomItem { name: "this".to_string(), focused: false },
                ZoomItem { name: "is".to_string(), focused: false },
                ZoomItem { name: "some".to_string(), focused: false },
                ZoomItem { name: "test".to_string(), focused: false },
            ]
        ))
    );

    assert_eq!(
        parse_zoom(
            "
         #comment
         zoom{
            normal
            focus: thisone
            not this
         }"
        ),
        Ok((
            s(""),
            vec![
                ZoomItem { name: "normal".to_string(), focused: false },
                ZoomItem { name: "thisone".to_string(), focused: true },
                ZoomItem { name: "not".to_string(), focused: false },
                ZoomItem { name: "this".to_string(), focused: false },
            ]
        ))
    );

    assert!(parse_zoom("blah").is_err());
}

#[test]
fn test_parse_target_list() {
    let none: Vec<String> = Vec::new();
    assert_eq!(parse_target_list(""), Ok((s(""), none.clone())));
    assert_eq!(parse_target_list("    "), Ok((s(""), none.clone())));
    assert_eq!(parse_target_list("a b c"), Ok((s(""), vec![s("a"), s("b"), s("c")])));
    assert_eq!(
        parse_target_list("  a  \n\n   b\n   c\n\n"),
        Ok((s(""), vec![s("a"), s("b"), s("c")]))
    );
    // should not consume the ending brace
    assert_eq!(parse_target_list("}"), Ok((s("}"), none.clone())));
    assert_eq!(parse_target_list("a b c }"), Ok((s("}"), vec![s("a"), s("b"), s("c")])));
}

#[test]
fn test_parse_glob() {
    assert_eq!(
        parse_input_command("glob a/b/**/*"),
        Ok((s(""), InputCommand::Glob("a/b/**/*".into())))
    );

    assert_eq!(
        parse_input_command("glob a/x/**/*.h # should consume whitespace\n\n  \n\t\n  "),
        Ok((s(""), InputCommand::Glob("a/x/**/*.h".into())))
    );
}

#[test]
fn test_parse_include_dir() {
    assert_eq!(
        parse_input_command("include_dir a/b/**/*"),
        Ok((s(""), InputCommand::IncludeDirectory("a/b/**/*".into())))
    );

    assert_eq!(
        parse_input_command("include_dir a/x/**/*.h # should consume whitespace\n\n  \n\t\n  "),
        Ok((s(""), InputCommand::IncludeDirectory("a/x/**/*.h".into())))
    );
}

#[test]
fn test_parse_compiledb() {
    assert_eq!(
        parse_compiledb("from compiledb foo load includes"),
        Ok((
            s(""),
            InputCommand::LoadCompileDb { path: "foo".into(), load_includes: true, load_sources: false }
        ))
    );

    assert_eq!(
        parse_compiledb("from compiledb bar load sources"),
        Ok((
            s(""),
            InputCommand::LoadCompileDb { path: "bar".into(), load_includes: false, load_sources: true }
        ))
    );

    assert_eq!(
        parse_compiledb("from compiledb bar load sources, includes, sources"),
        Ok((
            s(""),
            InputCommand::LoadCompileDb { path: "bar".into(), load_includes: true, load_sources: true }
        ))
    );

    assert_eq!(
        parse_compiledb(
            "
                # This is a comment (and whitespace) prefix
                from compiledb x/y/z load sources, sources\n# space/comment suffix\n"
        ),
        Ok((
            s(""),
            InputCommand::LoadCompileDb { path: "x/y/z".into(), load_includes: false, load_sources: true }
        ))
    );

    assert_eq!(
        parse_compiledb(
            "
                from compiledb x/y/z load sources, sources\nremaining"
        ),
        Ok((
            s("remaining"),
            InputCommand::LoadCompileDb { path: "x/y/z".into(), load_includes: false, load_sources: true }
        ))
    );
}

#[test]
fn test_parse_input() {
    assert_eq!(
        parse_input(
            "input {
           from compiledb some_compile_db.json load includes
           include_dir foo
           from compiledb some_compile_db.json load sources

           glob xyz/**/*

           include_dir bar
           from compiledb another.json load sources, includes

           glob final/**/*
           glob blah/**/*
        }"
        ),
        Ok((
            s(""),
            vec![
                InputCommand::LoadCompileDb {
                    path: "some_compile_db.json".into(),
                    load_includes: true,
                    load_sources: false
                },
                InputCommand::IncludeDirectory("foo".into()),
                InputCommand::LoadCompileDb {
                    path: "some_compile_db.json".into(),
                    load_includes: false,
                    load_sources: true
                },
                InputCommand::Glob("xyz/**/*".into()),
                InputCommand::IncludeDirectory("bar".into()),
                InputCommand::LoadCompileDb {
                    path: "another.json".into(),
                    load_includes: true,
                    load_sources: true
                },
                InputCommand::Glob("final/**/*".into()),
                InputCommand::Glob("blah/**/*".into()),
            ]
        ))
    );
}

#[test]
fn test_variable_assignments() {
    let (rest, vars) = parse_variable_assignments(
        "
             a = b
             x=y
             z=${a}${x}
             ab=test
             other=${a${a}}ing
           ",
    )
    .unwrap();
    assert_eq!(rest, "");
    let expected = [("a", "b"), ("x", "y"), ("z", "by"), ("ab", "test"), ("other", "testing")];
    assert_eq!(vars.entries().len(), expected.len());
    for (name, value) in expected.iter() {
        assert_eq!(vars.get(name), Some(value.to_string()));
    }
}

#[test]
fn test_expand_var() {
    let mut vars = VariableMap::new();
    vars.insert("foo".into(), "bar".into());
    vars.insert("another".into(), "one".into());
    vars.insert("test".into(), "1234".into());
    vars.insert("theone".into(), "final".into());

    assert_eq!(expand_variable("xyz", &vars), "xyz");
    assert_eq!(expand_variable("${foo}", &vars), "bar");
    assert_eq!(expand_variable("${another}", &vars), "one");
    assert_eq!(expand_variable("${foo}/${another}/${foo}", &vars), "bar/one/bar");
    assert_eq!(expand_variable("${the${another}}", &vars), "final");
}
