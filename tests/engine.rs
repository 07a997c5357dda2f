use include_graph::config::{EdgeColor, GraphInstructions, MapInstruction};
use include_graph::configfile::{load_config, parse_compiledb, parse_config, ConfigError};
use include_graph::dependency_graph::{DependencyGraph, DependencyGroups, FileGroupType, Node};
use include_graph::discovery::{parent_dir_exec, search_candidates, DirectiveKind, DirectiveMatcher, FileType};
use include_graph::expand::{expand_variable, resolve_variables, VariableAssignment, VariableMap};
use include_graph::graph::{GnTarget, Graph, GraphBuilder, LinkNode};
use include_graph::path_mapper::{PathMapper, PathMapping};
use include_graph::pipeline::build_graph_from;
use include_graph::sources::{
    entry_arguments, gn_source_path, is_compiled_file_exec, search_dir_args, CompileCommandsEntry,
    DependencyData, FullFileList, SourceWithIncludes,
};

fn s(v: &str) -> String {
    v.to_string()
}

fn mapping(from: &str, to: &str) -> PathMapping {
    PathMapping { from: s(from), to: s(to) }
}

fn group_named<'a>(g: &'a Graph, name: &str) -> &'a include_graph::graph::Group {
    g.groups().iter().find(|x| x.name == name).expect("group present")
}

#[test]
fn expansion_is_idempotent_once_settled() {
    let mut vars = VariableMap::new();
    vars.insert(s("root"), s("/src"));
    vars.insert(s("inc"), s("${root}/include"));
    let once = expand_variable("${inc}/x.h and ${unknown}", &vars);
    assert_eq!(once, "/src/include/x.h and ${unknown}");
    assert_eq!(expand_variable(&once, &vars), once);
}

#[test]
fn nested_expansion_concatenates() {
    let vars = resolve_variables(vec![
        VariableAssignment { name: s("a"), value: s("b") },
        VariableAssignment { name: s("x"), value: s("y") },
        VariableAssignment { name: s("another"), value: s("one") },
        VariableAssignment { name: s("theone"), value: s("final") },
    ]);
    assert_eq!(expand_variable("${a}${x}", &vars), "by");
    assert_eq!(expand_variable("${the${another}}", &vars), "final");
}

#[test]
fn assignments_see_only_earlier_names() {
    let vars = resolve_variables(vec![
        VariableAssignment { name: s("first"), value: s("${second}") },
        VariableAssignment { name: s("second"), value: s("2") },
        VariableAssignment { name: s("first"), value: s("again") },
    ]);
    assert_eq!(vars.get("first"), Some(s("again")));
    assert_eq!(vars.get("second"), Some(s("2")));
    assert_eq!(vars.entries().len(), 2);
}

#[test]
fn minimal_config_parses_to_nothing() {
    let (rest, cfg) = parse_config("input{} graph{ map{} group{} }").unwrap();
    assert_eq!(rest, "");
    assert!(cfg.input_commands.is_empty());
    assert_eq!(
        cfg.graph,
        GraphInstructions {
            map_instructions: Vec::new(),
            group_instructions: Vec::new(),
            color_instructions: Vec::new(),
            zoom_items: Vec::new(),
        }
    );
    assert!(cfg.variable_map.entries().is_empty());
}

#[test]
fn config_errors() {
    assert_eq!(
        load_config("input {} graph {").err(),
        Some(ConfigError::Syntax { remaining: s("graph {") })
    );
    assert_eq!(
        load_config("nothing here").err(),
        Some(ConfigError::Syntax { remaining: s("nothing here") })
    );
    assert_eq!(
        load_config("input{} graph{ map{} group{} } extra").err(),
        Some(ConfigError::TrailingInput { remaining: s("extra") })
    );
}

#[test]
fn config_tokens_are_expanded() {
    let cfg = load_config(
        "root = /work/src
         input { glob ${root}/**/*.cpp }
         graph {
           map { ${root} => src:: keep src:: }
           group { manual core color ${color} { src::a.h } }
         }",
    )
    .unwrap();
    assert_eq!(
        cfg.input_commands,
        vec![include_graph::config::InputCommand::Glob(s("/work/src/**/*.cpp"))]
    );
    assert_eq!(
        cfg.graph.map_instructions,
        vec![
            MapInstruction::DisplayMap { from: s("/work/src"), to: s("src::") },
            MapInstruction::Keep(s("src::")),
        ]
    );
}

#[test]
fn map_then_invert_round_trip() {
    let mut m = PathMapper::new();
    m.add_mapping(mapping("/src", "mod::"));
    m.add_mapping(mapping("/usr/include", "sys::"));
    let d = m.try_map("/src/lib/a.cpp").unwrap();
    assert_eq!(d, "mod::lib/a.cpp");
    assert_eq!(m.try_invert(&d), Some(s("/src/lib/a.cpp")));
    assert_eq!(m.try_map("/srcx/a.cpp"), None);
    assert_eq!(m.try_invert("other::x"), None);
}

#[test]
fn first_mapping_rule_wins() {
    let mut m = PathMapper::new();
    m.add_mapping(mapping("/src", "a::"));
    m.add_mapping(mapping("/src/sub", "b::"));
    assert_eq!(m.try_map("/src/sub/x.h"), Some(s("a::sub/x.h")));
}

fn builder(paths: &[(&str, &str)]) -> GraphBuilder {
    GraphBuilder::new(paths.iter().map(|(p, d)| mapping(p, d)).collect())
}

#[test]
fn a_path_is_placed_once() {
    let mut b = builder(&[("/a.h", "a.h"), ("/b.h", "b.h")]);
    assert!(b.define_group("first", "red", &vec![s("/a.h"), s("/a.h")]));
    assert!(b.define_group("second", "blue", &vec![s("/a.h"), s("/b.h")]));
    assert!(!b.define_group("third", "blue", &vec![s("/a.h"), s("/b.h")]));
    assert!(!b.define_group("first", "blue", &vec![s("/b.h")]));
    let g = b.build();
    assert_eq!(group_named(&g, "first").nodes.len(), 1);
    let second = group_named(&g, "second");
    assert_eq!(second.nodes.len(), 1);
    assert_eq!(second.nodes[0].path, "/b.h");
    assert_eq!(g.groups().len(), 2);
}

#[test]
fn unknown_manual_entries_are_skipped() {
    let mut b = builder(&[("/a.h", "a.h")]);
    assert!(!b.define_group("ghost", "red", &vec![s("/missing.h")]));
    assert!(b.define_group("partial", "red", &vec![s("/missing.h"), s("/a.h")]));
    let g = b.build();
    assert_eq!(g.groups().len(), 1);
    assert_eq!(group_named(&g, "partial").nodes.len(), 1);
}

#[test]
fn catch_all_group_takes_the_rest() {
    let mut b = builder(&[("/a.h", "a.h"), ("/b.h", "b.h"), ("/c.h", "c.h")]);
    b.define_group("ab", "red", &vec![s("/a.h")]);
    let g = b.build();
    let rest = group_named(&g, "NO DEPENDENCIES OR GROUPS");
    assert_eq!(rest.color, "gray85");
    let paths: Vec<&str> = rest.nodes.iter().map(|n| n.path.as_str()).collect();
    assert_eq!(paths, vec!["/b.h", "/c.h"]);
}

#[test]
fn no_link_starts_where_it_ends() {
    let mut b = builder(&[("/a.cpp", "a.cpp"), ("/a.h", "a.h"), ("/b.h", "b.h")]);
    b.define_group("a", "red", &vec![s("/a.cpp"), s("/a.h")]);
    b.add_link("/a.cpp", "/a.h");
    b.add_link("/a.cpp", "/a.cpp");
    b.add_link("/a.cpp", "/b.h");
    let g = b.build();
    assert_eq!(g.links().len(), 1);
    for l in g.links() {
        assert_ne!(l.from, l.to);
    }
}

#[test]
fn zoom_copies_a_group() {
    let mut b = builder(&[("/a.cpp", "a.cpp"), ("/a.h", "a.h"), ("/b.h", "b.h")]);
    b.define_group("a", "red", &vec![s("/a.cpp"), s("/a.h")]);
    b.add_link("/a.cpp", "/a.h");
    b.add_link("/a.cpp", "/b.h");
    b.zoom_in("a", false);
    b.zoom_in("missing", true);
    let g = b.build();
    let zoomed_group = group_named(&g, "a");
    let copy = group_named(&g, "a (ZOOM)");
    assert!(copy.zoomed);
    assert!(!zoomed_group.zoomed);
    assert_eq!(copy.nodes.len(), 2);
    assert_eq!(zoomed_group.nodes.len(), 2);
    assert_ne!(copy.id, zoomed_group.id);
    assert_eq!(copy.color, "powderblue");
    assert_eq!(g.zoomed(), &vec![copy.id]);
    // the edge inside the zoomed group is kept between the copy's nodes
    assert!(g.links().iter().any(|l| l.from.group_id == copy.id
        && l.to.group_id == copy.id
        && l.from.node_id.is_some()));
    // the edge leaving the zoomed group starts at a node of the copy
    let b_group = group_named(&g, "b.h").id;
    assert!(g.links().iter().any(|l| l.from.group_id == copy.id
        && l.to == LinkNode { group_id: b_group, node_id: None }));
}

#[test]
fn focus_colors_edges_by_direction() {
    let mut b = builder(&[("/a.h", "a.h"), ("/b.h", "b.h"), ("/c.h", "c.h")]);
    b.define_group("a", "red", &vec![s("/a.h")]);
    b.define_group("b", "red", &vec![s("/b.h")]);
    b.define_group("c", "red", &vec![s("/c.h")]);
    b.add_link("/a.h", "/b.h");
    b.add_link("/b.h", "/c.h");
    b.zoom_in("a", false);
    b.zoom_in("b", true);
    let g = b.build();
    let za = group_named(&g, "a (ZOOM)").id;
    let zb = group_named(&g, "b (ZOOM)").id;
    let into = g.links().iter().find(|l| l.from.group_id == za && l.to.group_id == zb).unwrap();
    assert_eq!(into.color, Some(s("maroon")));
    let out = g.links().iter().find(|l| l.from.group_id == zb).unwrap();
    assert_eq!(out.color, Some(s("darkblue")));
}

#[test]
fn earlier_color_wins() {
    let mut b = builder(&[("/x.h", "x.h"), ("/y.h", "y.h")]);
    b.define_group("X", "red", &vec![s("/x.h")]);
    b.define_group("Y", "red", &vec![s("/y.h")]);
    b.add_link("/x.h", "/y.h");
    b.color_from("X", "blue", true);
    b.color_from("X", "red", false);
    b.color_to("Y", "green", false);
    let g = b.build();
    assert_eq!(g.links().len(), 1);
    assert_eq!(g.links()[0].color, Some(s("blue")));
    assert!(g.links()[0].is_bold);
}

#[test]
fn source_and_header_pair_up() {
    let mut b = builder(&[("/s/a.cpp", "m::a.cpp"), ("/s/a.h", "m::a.h"), ("/s/b.h", "m::b.h")]);
    b.group_extensions(&vec![s("h"), s("cpp")]);
    let g = b.build();
    let a = group_named(&g, "m::a");
    assert_eq!(a.color, "aqua");
    assert_eq!(a.nodes.len(), 2);
    assert_eq!(group_named(&g, "NO DEPENDENCIES OR GROUPS").nodes.len(), 1);
}

#[test]
fn targets_become_groups() {
    let mut b = builder(&[("/s/a.cpp", "a.cpp"), ("/s/b.cpp", "b.cpp")]);
    b.add_groups_from_gn(
        vec![
            GnTarget { name: s("//lib"), sources: vec![s("/s/a.cpp"), s("/s/none.cpp")] },
            GnTarget { name: s("//skip"), sources: vec![s("/s/b.cpp")] },
            GnTarget { name: s("//empty"), sources: vec![s("/s/none.cpp")] },
        ],
        &vec![s("//skip")],
    );
    let g = b.build();
    assert_eq!(group_named(&g, "//lib").color, "lightgreen");
    assert!(g.groups().iter().all(|x| x.name != "//skip" && x.name != "//empty"));
}

#[test]
fn two_files_end_to_end() {
    let cfg = load_config(
        "input {}
         graph {
           map { /src => mod:: }
           group { group_source_header }
         }",
    )
    .unwrap();
    let mut data = DependencyData::new();
    data.add_file(SourceWithIncludes { path: s("/src/a.cpp"), includes: vec![s("/src/b.h")] });
    data.add_file(SourceWithIncludes { path: s("/src/b.h"), includes: vec![] });
    let g = build_graph_from(&cfg.graph, &data, &vec![None]).unwrap();
    assert_eq!(g.groups().len(), 2);
    let a = group_named(&g, "mod::a.cpp").id;
    let b = group_named(&g, "mod::b.h").id;
    assert_eq!(g.links().len(), 1);
    assert_eq!(g.links()[0].from, LinkNode { group_id: a, node_id: None });
    assert_eq!(g.links()[0].to, LinkNode { group_id: b, node_id: None });
}

#[test]
fn keep_and_drop_filter_files() {
    let cfg = load_config(
        "input {}
         graph {
           map { /src => mod:: /usr => sys:: keep mod:: drop mod::gen/ }
           group { manual mine { mod::a.h mod::gone.h } }
         }",
    )
    .unwrap();
    let mut data = DependencyData::new();
    data.add_file(SourceWithIncludes {
        path: s("/src/a.h"),
        includes: vec![s("/usr/x.h"), s("/src/gen/y.h")],
    });
    let g = build_graph_from(&cfg.graph, &data, &vec![]).unwrap();
    assert_eq!(g.groups().len(), 1);
    assert_eq!(group_named(&g, "mine").color, "orange");
    assert!(g.links().is_empty());
}

#[test]
fn file_types() {
    assert_eq!(FileType::of("/x/a.h"), FileType::Header);
    assert_eq!(FileType::of("/x/a.HPP"), FileType::Header);
    assert_eq!(FileType::of("a.cc"), FileType::Source);
    assert_eq!(FileType::of("a.Cxx"), FileType::Source);
    assert_eq!(FileType::of("/x.d/readme"), FileType::Unknown);
    assert_eq!(FileType::of("/x/.h"), FileType::Unknown);
    assert_eq!(FileType::of("a.txt"), FileType::Unknown);
}

#[test]
fn directive_lines() {
    let m = DirectiveMatcher::new();
    assert_eq!(m.parse_line("  #\x69nclude \"b.h\""), Some((DirectiveKind::Quoted, s("b.h"))));
    assert_eq!(m.parse_line("#\x69nclude<vector> // c"), Some((DirectiveKind::Angled, s("vector"))));
    assert_eq!(m.parse_line("// #\x69nclude \"b.h\""), None);
    assert_eq!(m.parse_line("int x;"), None);
    assert_eq!(m.parse_line("\u{3000}\t#\x69nclude\u{a0}<a b\"c"), Some((DirectiveKind::Angled, s("a b"))));
    assert_eq!(m.parse_line("#\x69nclude \"open"), None);
    assert_eq!(m.parse_line("#\x69nclude x.h"), None);
}

#[test]
fn search_order_for_directives() {
    let dirs = vec![s("/inc"), s("/usr/inc/")];
    assert_eq!(
        search_candidates("/src/a.cpp", DirectiveKind::Quoted, &s("b.h"), &dirs),
        vec![s("/src/b.h"), s("/inc/b.h"), s("/usr/inc/b.h")]
    );
    assert_eq!(
        search_candidates("/src/a.cpp", DirectiveKind::Angled, &s("sys/x.h"), &dirs),
        vec![s("/inc/sys/x.h"), s("/usr/inc/sys/x.h")]
    );
    assert_eq!(parent_dir_exec("/a.cpp"), "/");
    assert_eq!(parent_dir_exec("a.cpp"), "");
}

#[test]
fn compile_database_arguments() {
    let e = CompileCommandsEntry {
        directory: s("/build"),
        file: s("x.cpp"),
        command: Some(s("cc -Iinc -I 'a b' -I/abs 'c d.cpp'")),
        arguments: None,
        output: None,
    };
    let args = entry_arguments(&e).unwrap();
    assert_eq!(args, vec![s("cc"), s("-Iinc"), s("-I"), s("a b"), s("-I/abs"), s("c d.cpp")]);
    assert_eq!(search_dir_args(&args), vec![s("inc"), s(""), s("/abs")]);
    let bad = CompileCommandsEntry { command: Some(s("cc 'open")), ..e.clone() };
    assert_eq!(entry_arguments(&bad), None);
    let given = CompileCommandsEntry { arguments: Some(vec![s("-Ione")]), ..e };
    assert_eq!(entry_arguments(&given), Some(vec![s("-Ione")]));
    assert!(is_compiled_file_exec("a.cxx"));
    assert!(!is_compiled_file_exec("a.rs"));
    assert_eq!(include_graph::sources::entry_path(&s("/build"), &s("x.cpp")), "/build/x.cpp");
    assert_eq!(include_graph::sources::entry_path(&s("/build"), &s("/x.cpp")), "/x.cpp");
}

#[test]
fn build_tool_paths() {
    assert_eq!(gn_source_path(&s("/root"), "//a/b.cc"), "/root/a/b.cc");
    assert_eq!(gn_source_path(&s("/root"), "/abs/b.cc"), "/abs/b.cc");
}

#[test]
fn search_directories_are_kept_once() {
    let mut d = DependencyData::new();
    d.add_include_dir(s("/a"));
    d.add_include_dir(s("/b"));
    d.add_include_dir(s("/a"));
    assert_eq!(d.include_dirs(), &vec![s("/a"), s("/b")]);
    d.add_file(SourceWithIncludes { path: s("/a/x.h"), includes: vec![] });
    assert_eq!(FullFileList::new(&d).text(), "Processed files:\n  \"/a/x.h\"\n");
}

#[test]
fn dependency_groups_record_once() {
    let mut g = DependencyGroups::new();
    g.add_node(Node::Single { name: s("a") });
    g.add_node(Node::Single { name: s("a") });
    g.add_node(Node::Group { title: s("t"), files: vec![s("x")], group_type: FileGroupType::Manual });
    g.add_dependency(s("a"), s("b"));
    g.add_dependency(s("a"), s("b"));
    g.add_dependency(s("a"), s("c"));
    let text = format!("{:?}", g);
    assert_eq!(text.matches("Single").count(), 1);
    assert_eq!(text.matches("\"b\"").count(), 1);
    assert!(text.contains("\"c\""));
}

#[test]
fn edge_color_accessors() {
    let c = EdgeColor::Bold(s("red"));
    assert_eq!(c.color_name(), "red");
    assert!(c.is_bold());
    assert!(!EdgeColor::Regular(s("red")).is_bold());
}

#[test]
fn link_node_remaps() {
    let n = LinkNode { group_id: 1, node_id: Some(3) };
    assert_eq!(n.without_node(), LinkNode { group_id: 1, node_id: None });
    let m = vec![None, Some(7)];
    assert_eq!(n.try_remap(&m), Some(LinkNode { group_id: 7, node_id: Some(3) }));
    assert_eq!(LinkNode { group_id: 0, node_id: None }.try_remap(&m), None);
}

#[test]
fn compile_database_kinds_may_come_first() {
    assert_eq!(
        parse_compiledb("load includes, sources from compiledb db.json\nrest"),
        Ok((
            s("rest"),
            include_graph::config::InputCommand::LoadCompileDb {
                path: s("db.json"),
                load_includes: true,
                load_sources: true
            }
        ))
    );
    assert_eq!(
        parse_compiledb("LOAD from compiledb x"),
        Ok((
            s(""),
            include_graph::config::InputCommand::LoadCompileDb {
                path: s("x"),
                load_includes: false,
                load_sources: false
            }
        ))
    );
    assert!(parse_compiledb("load includes from x").is_err());
}

#[test]
fn keywords_ignore_case_and_comments_are_blank() {
    let cfg = load_config(
        "# leading comment
         INPUT { Include_Dir /inc # trailing comment
         }
         Graph { Map { } Group { } Zoom { focus: x } }",
    )
    .unwrap();
    assert_eq!(cfg.input_commands, vec![include_graph::config::InputCommand::IncludeDirectory(s("/inc"))]);
    assert_eq!(cfg.graph.zoom_items.len(), 1);
    assert!(cfg.graph.zoom_items[0].focused);
}

#[test]
fn self_referencing_values_stop_expanding() {
    let vars = resolve_variables(vec![
        VariableAssignment { name: s("a"), value: s("${b}") },
        VariableAssignment { name: s("b"), value: s("${a}") },
    ]);
    assert_eq!(vars.get("b"), Some(s("${b}")));
    assert_eq!(expand_variable("${b}", &vars), "${b}");
}

#[test]
fn last_entry_names_a_file() {
    let mut b = GraphBuilder::new(vec![mapping("/p.h", "first"), mapping("/p.h", "second")]);
    assert!(b.known_path("/p.h"));
    assert!(!b.known_path("/q.h"));
    b.define_group("g", "red", &vec![s("/p.h")]);
    let g = b.build();
    assert_eq!(group_named(&g, "g").nodes[0].display_name, "second");
}

#[test]
fn catch_all_even_when_its_name_is_taken() {
    let mut b = builder(&[("/a.h", "a.h"), ("/b.h", "b.h")]);
    assert!(b.define_group("NO DEPENDENCIES OR GROUPS", "red", &vec![s("/a.h")]));
    let g = b.build();
    assert_eq!(g.groups().len(), 2);
    let rest = &g.groups()[1];
    assert_eq!(rest.name, "NO DEPENDENCIES OR GROUPS");
    assert_eq!(rest.color, "gray85");
    assert_eq!(rest.nodes[0].path, "/b.h");
}

#[test]
fn absolute_remainder_inverts_to_itself() {
    let mut m = PathMapper::new();
    m.add_mapping(mapping("/src", "mod::"));
    assert_eq!(m.try_invert("mod::/etc/x"), Some(s("/etc/x")));
    assert_eq!(m.try_invert("mod::"), Some(s("/src")));
}

#[test]
fn deep_nesting_reaches_a_fixed_point() {
    let mut vars = VariableMap::new();
    vars.insert(s("x"), s(""));
    let mut text = s("${x}");
    for _ in 0..20 {
        text = format!("${{x{}}}", text);
    }
    vars.insert(s("x"), s(""));
    // every level becomes `${x}` once its inner reference is gone
    assert_eq!(expand_variable(&text, &vars), "");
}
