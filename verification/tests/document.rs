use eashy::document::{read_document, Entry, Node};
use eashy::parser::{ArgPrefix, Argument, Children, CmdPrefix, Command, DefaultValue};

fn argument(text: &str) -> Entry {
    Entry {
        name: None,
        ty: None,
        value: DefaultValue::Literal(text.to_string()),
        text: text.to_string(),
    }
}

fn property(name: &str, value: DefaultValue, text: &str) -> Entry {
    Entry { name: Some(name.to_string()), ty: None, value, text: text.to_string() }
}

fn node(name: &str, entries: Vec<Entry>, children: Option<Vec<Node>>) -> Node {
    Node { name: name.to_string(), ty: None, entries, children }
}

fn only(text: &str) -> Node {
    let mut nodes = read_document(text).expect("a KDL document");
    assert_eq!(nodes.len(), 1);
    nodes.pop().unwrap()
}

#[test]
fn read_document_gives_the_top_level_nodes_in_order() {
    let nodes = read_document("first\nsecond a b\nthird {\n  inner\n}\n").unwrap();
    let names: Vec<&str> = nodes.iter().map(|n| n.name.as_str()).collect();
    assert_eq!(names, vec!["first", "second", "third"]);
    assert!(nodes[0].children.is_none());
    assert!(nodes[0].entries.is_empty());
    assert_eq!(nodes[1].entries.len(), 2);
    assert_eq!(nodes[2].children.as_ref().unwrap().len(), 1);
    assert_eq!(nodes[2].children.as_ref().unwrap()[0].name, "inner");
}

#[test]
fn read_document_of_an_empty_text_has_no_nodes() {
    assert!(read_document("").unwrap().is_empty());
}

#[test]
fn read_document_fails_on_what_is_no_document() {
    assert_eq!(read_document("node {").unwrap_err(), "Failed to parse KDL document");
    assert_eq!(read_document("node \"open").unwrap_err(), "Failed to parse KDL document");
    assert_eq!(read_document("a b=").unwrap_err(), "Failed to parse KDL document");
}

#[test]
fn read_document_tells_an_empty_children_block_from_none() {
    let with = only("a {\n}\n");
    let without = only("a\n");
    assert_eq!(with.children.map(|c| c.len()), Some(0));
    assert!(without.children.is_none());
}

#[test]
fn read_document_reads_names_without_quotes() {
    let n = only("\"two words\" \"a value\"");
    assert_eq!(n.name, "two words");
    assert_eq!(n.entries[0].text, "\"a value\"");
}

#[test]
fn read_document_reads_a_node_annotation_without_quotes() {
    assert_eq!(only("(\"Does things\")run").ty.as_deref(), Some("Does things"));
    assert_eq!(only("(short)run").ty.as_deref(), Some("short"));
    assert_eq!(only("run").ty, None);
}

#[test]
fn read_document_reads_arguments_and_properties() {
    let n = only("cmd name *rest f=#false level=info n=#null count=3 \"two words\"");
    let e = &n.entries;
    assert_eq!(e.len(), 7);
    assert_eq!((e[0].name.as_deref(), e[0].text.as_str()), (None, "name"));
    assert_eq!((e[1].name.as_deref(), e[1].text.as_str()), (None, "*rest"));
    assert_eq!((e[2].name.as_deref(), e[2].text.as_str()), (Some("f"), "#false"));
    assert_eq!((e[3].name.as_deref(), e[3].text.as_str()), (Some("level"), "info"));
    assert_eq!((e[4].name.as_deref(), e[4].text.as_str()), (Some("n"), "#null"));
    assert_eq!((e[5].name.as_deref(), e[5].text.as_str()), (Some("count"), "3"));
    assert_eq!((e[6].name.as_deref(), e[6].text.as_str()), (None, "\"two words\""));
    assert!(matches!(e[0].value, DefaultValue::Literal(ref t) if t == "name"));
    assert!(matches!(e[2].value, DefaultValue::Bool(false)));
    assert!(matches!(e[3].value, DefaultValue::Literal(ref t) if t == "info"));
    assert!(matches!(e[4].value, DefaultValue::Null));
    assert!(matches!(e[5].value, DefaultValue::Literal(ref t) if t == "3"));
    assert!(matches!(e[6].value, DefaultValue::Literal(ref t) if t == "\"two words\""));
}

#[test]
fn read_document_reads_true_as_a_truth_value() {
    let n = only("cmd on=#true");
    assert!(matches!(n.entries[0].value, DefaultValue::Bool(true)));
    assert_eq!(n.entries[0].text, "#true");
}

#[test]
fn read_document_reads_an_entry_annotation_as_written() {
    let n = only("cmd (\"The name\")name f=(plain)#false other");
    assert_eq!(n.entries[0].ty.as_deref(), Some("\"The name\""));
    assert_eq!(n.entries[1].ty.as_deref(), Some("plain"));
    assert_eq!(n.entries[2].ty, None);
}

#[test]
fn argument_parse_of_a_positional_argument() {
    let a = Argument::parse(&argument("name"));
    assert_eq!(a.name, "name");
    assert_eq!(a.help, "NAME");
    assert_eq!(a.prefix, ArgPrefix::ExactlyOne);
    assert!(a.option.is_none());
}

#[test]
fn argument_parse_reads_the_arity_mark() {
    for (text, prefix) in [
        ("*files", ArgPrefix::ZeroMore),
        ("+files", ArgPrefix::OneMore),
        ("?files", ArgPrefix::ZeroOne),
    ] {
        let a = Argument::parse(&argument(text));
        assert_eq!(a.name, "files");
        assert_eq!(a.help, "FILES");
        assert_eq!(a.prefix, prefix);
        assert!(a.option.is_none());
    }
}

#[test]
fn argument_parse_of_a_flag_keeps_the_default() {
    let a = Argument::parse(&property("f", DefaultValue::Bool(false), "#false"));
    assert_eq!(a.name, "f");
    assert_eq!(a.help, "F");
    assert_eq!(a.prefix, ArgPrefix::ZeroOne);
    assert!(matches!(a.option, Some(DefaultValue::Bool(false))));
    let b = Argument::parse(&property("level", DefaultValue::Literal("info".into()), "info"));
    assert_eq!(b.name, "level");
    assert_eq!(b.help, "LEVEL");
    assert!(matches!(b.option, Some(DefaultValue::Literal(ref t)) if t == "info"));
    let c = Argument::parse(&property("n", DefaultValue::Null, "#null"));
    assert!(matches!(c.option, Some(DefaultValue::Null)));
}

#[test]
fn argument_parse_of_a_flag_takes_at_most_one_value_unless_marked_zero_or_more() {
    let plain = Argument::parse(&property("level", DefaultValue::Null, "#null"));
    assert_eq!(plain.prefix, ArgPrefix::ZeroOne);
    let one_more = Argument::parse(&property("+level", DefaultValue::Null, "#null"));
    assert_eq!((one_more.name.as_str(), one_more.prefix), ("level", ArgPrefix::ZeroOne));
    let zero_one = Argument::parse(&property("?level", DefaultValue::Null, "#null"));
    assert_eq!((zero_one.name.as_str(), zero_one.prefix), ("level", ArgPrefix::ZeroOne));
    let zero_more = Argument::parse(&property("*level", DefaultValue::Null, "#null"));
    assert_eq!((zero_more.name.as_str(), zero_more.prefix), ("level", ArgPrefix::ZeroMore));
}

#[test]
fn argument_parse_takes_the_annotation_as_help_without_quotes() {
    let mut e = argument("name");
    e.ty = Some("\"Who to greet\"".to_string());
    assert_eq!(Argument::parse(&e).help, "Who to greet");
    e.ty = Some("person".to_string());
    assert_eq!(Argument::parse(&e).help, "person");
}

#[test]
fn argument_parse_upper_cases_beyond_ascii() {
    assert_eq!(Argument::parse(&argument("größe")).help, "GRÖSSE");
    assert_eq!(Argument::parse(&argument("*été")).help, "ÉTÉ");
}

#[test]
fn command_parse_of_a_node_without_children_is_a_leaf_without_body() {
    let c = Command::parse(&node("hello", vec![], None), None);
    assert_eq!(c.name, "hello");
    assert_eq!(c.prefix, CmdPrefix::RunAll);
    assert_eq!(c.description, None);
    assert!(c.arguments.is_empty());
    assert_eq!(c.path, vec!["hello".to_string()]);
    assert!(matches!(c.children, Children::Body(ref lines) if lines.is_empty()));
}

#[test]
fn command_parse_reads_the_chaining_mark_and_the_description() {
    let mut n = node("&build", vec![], None);
    n.ty = Some("Builds it".to_string());
    let c = Command::parse(&n, None);
    assert_eq!(c.name, "build");
    assert_eq!(c.prefix, CmdPrefix::UntilError);
    assert_eq!(c.description.as_deref(), Some("Builds it"));
    assert_eq!(c.path, vec!["build".to_string()]);
    let d = Command::parse(&node("|try", vec![], None), None);
    assert_eq!((d.name.as_str(), d.prefix), ("try", CmdPrefix::UntilSuccess));
}

#[test]
fn command_parse_puts_the_name_at_the_end_of_the_path() {
    let c = Command::parse(
        &node("&add", vec![], None),
        Some(vec!["git".to_string(), "remote".to_string()]),
    );
    assert_eq!(c.path, vec!["git".to_string(), "remote".to_string(), "add".to_string()]);
    assert_eq!(c.get_mangled_function_name(), "_git_remote_add_");
}

#[test]
fn command_parse_reads_arguments_in_order() {
    let n = node(
        "run",
        vec![argument("name"), property("f", DefaultValue::Bool(true), "#true"), argument("*rest")],
        None,
    );
    let c = Command::parse(&n, None);
    let seen: Vec<(&str, ArgPrefix, bool)> =
        c.arguments.iter().map(|a| (a.name.as_str(), a.prefix.clone(), a.option.is_some())).collect();
    assert_eq!(
        seen,
        vec![
            ("name", ArgPrefix::ExactlyOne, false),
            ("f", ArgPrefix::ZeroOne, true),
            ("rest", ArgPrefix::ZeroMore, false),
        ]
    );
}

#[test]
fn command_parse_takes_children_without_children_as_body_lines() {
    let n = node(
        "greet",
        vec![],
        Some(vec![
            node("echo", vec![argument("hello"), argument("\"big world\"")], None),
            node("ls", vec![property("color", DefaultValue::Literal("auto".into()), "auto")], None),
            node("true", vec![], None),
        ]),
    );
    let c = Command::parse(&n, None);
    match c.children {
        Children::Body(lines) => {
            assert_eq!(lines, vec!["echo hello \"big world\"", "ls auto", "true"])
        },
        Children::Subcmds(_) => panic!("a leaf was expected"),
    }
}

#[test]
fn command_parse_of_an_empty_children_block_is_a_leaf_without_body() {
    let c = Command::parse(&node("x", vec![], Some(vec![])), None);
    assert!(matches!(c.children, Children::Body(ref lines) if lines.is_empty()));
}

#[test]
fn command_parse_is_a_dispatcher_as_soon_as_one_child_has_children() {
    let n = node(
        "root",
        vec![],
        Some(vec![
            node("plain", vec![], None),
            node("|deep", vec![], Some(vec![node("echo", vec![argument("x")], None)])),
        ]),
    );
    let c = Command::parse(&n, None);
    match c.children {
        Children::Subcmds(subs) => {
            assert_eq!(subs.len(), 2);
            assert_eq!(subs[0].name, "plain");
            assert_eq!(subs[0].path, vec!["root".to_string(), "plain".to_string()]);
            assert!(matches!(subs[0].children, Children::Body(ref l) if l.is_empty()));
            assert_eq!(subs[1].name, "deep");
            assert_eq!(subs[1].prefix, CmdPrefix::UntilSuccess);
            assert_eq!(subs[1].path, vec!["root".to_string(), "deep".to_string()]);
            assert!(matches!(subs[1].children, Children::Body(ref l) if l == &vec!["echo x"]));
        },
        Children::Body(_) => panic!("a dispatcher was expected"),
    }
}

#[test]
fn command_parse_carries_the_path_down_every_level() {
    let n = node(
        "a",
        vec![],
        Some(vec![node(
            "b",
            vec![],
            Some(vec![node("c", vec![], Some(vec![node("echo", vec![], None)]))]),
        )]),
    );
    let a = Command::parse(&n, None);
    let Children::Subcmds(bs) = &a.children else { panic!("a dispatcher was expected") };
    let Children::Subcmds(cs) = &bs[0].children else { panic!("a dispatcher was expected") };
    assert_eq!(a.path, vec!["a"]);
    assert_eq!(bs[0].path, vec!["a", "b"]);
    assert_eq!(cs[0].path, vec!["a", "b", "c"]);
    assert!(matches!(cs[0].children, Children::Body(ref l) if l == &vec!["echo"]));
}

#[test]
fn parse_command_body_joins_name_and_values_with_blanks() {
    let nodes = vec![
        node("git", vec![argument("commit"), argument("-m"), argument("$msg")], None),
        node("echo", vec![], None),
    ];
    assert_eq!(Command::parse_command_body(&nodes), vec!["git commit -m $msg", "echo"]);
    assert!(Command::parse_command_body(&Vec::new()).is_empty());
}

#[test]
fn default_value_copy_is_the_same_value() {
    assert!(matches!(DefaultValue::Bool(true).copy(), DefaultValue::Bool(true)));
    assert!(matches!(DefaultValue::Null.copy(), DefaultValue::Null));
    assert!(matches!(DefaultValue::Literal("x".into()).copy(), DefaultValue::Literal(ref t) if t == "x"));
}

#[test]
fn a_cloned_node_declares_the_same_command() {
    let n = only("(\"Things\")root a f=#true {\n  sub x {\n    echo $x\n  }\n}\n");
    let copy = n.clone();
    assert_eq!(format!("{:?}", Command::parse(&copy, None)), format!("{:?}", Command::parse(&n, None)));
    assert_eq!(format!("{:?}", copy), format!("{:?}", n));
}
