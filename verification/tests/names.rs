use eashy::command::Prefix;
use eashy::parser::{ArgPrefix, Children, CmdPrefix, Command};

fn command_at(path: &[&str]) -> Command {
    Command {
        name: path.last().map(|n| n.to_string()).unwrap_or_default(),
        prefix: CmdPrefix::RunAll,
        description: None,
        arguments: Vec::new(),
        children: Children::Body(Vec::new()),
        path: path.iter().map(|p| p.to_string()).collect(),
    }
}

#[test]
fn arg_prefix_extract_reads_the_mark() {
    assert_eq!(ArgPrefix::extract("*files"), (ArgPrefix::ZeroMore, "files".to_string()));
    assert_eq!(ArgPrefix::extract("+files"), (ArgPrefix::OneMore, "files".to_string()));
    assert_eq!(ArgPrefix::extract("?file"), (ArgPrefix::ZeroOne, "file".to_string()));
    assert_eq!(ArgPrefix::extract("file"), (ArgPrefix::ExactlyOne, "file".to_string()));
}

#[test]
fn arg_prefix_extract_on_short_and_odd_names() {
    assert_eq!(ArgPrefix::extract(""), (ArgPrefix::ExactlyOne, String::new()));
    assert_eq!(ArgPrefix::extract("*"), (ArgPrefix::ZeroMore, String::new()));
    assert_eq!(ArgPrefix::extract("**x"), (ArgPrefix::ZeroMore, "*x".to_string()));
    assert_eq!(ArgPrefix::extract("&x"), (ArgPrefix::ExactlyOne, "&x".to_string()));
    assert_eq!(ArgPrefix::extract("x*"), (ArgPrefix::ExactlyOne, "x*".to_string()));
    assert_eq!(ArgPrefix::extract("?é"), (ArgPrefix::ZeroOne, "é".to_string()));
    assert_eq!(ArgPrefix::extract("éa"), (ArgPrefix::ExactlyOne, "éa".to_string()));
}

#[test]
fn cmd_prefix_extract_reads_the_mark() {
    assert_eq!(CmdPrefix::extract("&build"), (CmdPrefix::UntilError, "build".to_string()));
    assert_eq!(CmdPrefix::extract("|try"), (CmdPrefix::UntilSuccess, "try".to_string()));
    assert_eq!(CmdPrefix::extract("run"), (CmdPrefix::RunAll, "run".to_string()));
    assert_eq!(CmdPrefix::extract(""), (CmdPrefix::RunAll, String::new()));
    assert_eq!(CmdPrefix::extract("*run"), (CmdPrefix::RunAll, "*run".to_string()));
    assert_eq!(CmdPrefix::extract("&"), (CmdPrefix::UntilError, String::new()));
}

#[test]
fn prefix_extract_reads_every_mark() {
    assert_eq!(Prefix::extract("&a"), (Prefix::UntilError, "a".to_string()));
    assert_eq!(Prefix::extract("|a"), (Prefix::UntilSuccess, "a".to_string()));
    assert_eq!(Prefix::extract("*a"), (Prefix::ZeroMore, "a".to_string()));
    assert_eq!(Prefix::extract("+a"), (Prefix::OneMore, "a".to_string()));
    assert_eq!(Prefix::extract("?a"), (Prefix::ZeroOne, "a".to_string()));
    assert_eq!(Prefix::extract("a"), (Prefix::Plain, "a".to_string()));
    assert_eq!(Prefix::extract(""), (Prefix::Plain, String::new()));
}

#[test]
fn top_level_function_has_the_bare_name() {
    assert_eq!(command_at(&["deploy"]).get_mangled_function_name(), "deploy");
}

#[test]
fn nested_function_is_the_path_between_underscores() {
    assert_eq!(command_at(&["git", "remote"]).get_mangled_function_name(), "_git_remote_");
    assert_eq!(command_at(&["a", "b", "c"]).get_mangled_function_name(), "_a_b_c_");
}

#[test]
fn function_names_differ_for_different_paths() {
    let paths: [&[&str]; 7] =
        [&["a"], &["b"], &["a", "b"], &["b", "a"], &["a", "b", "c"], &["ab"], &["a", "bc"]];
    for (i, p) in paths.iter().enumerate() {
        for (j, q) in paths.iter().enumerate() {
            let same = command_at(p).get_mangled_function_name()
                == command_at(q).get_mangled_function_name();
            assert_eq!(same, i == j, "{:?} and {:?}", p, q);
        }
    }
}

#[test]
fn function_names_may_collide_where_names_hold_underscores() {
    assert_eq!(
        command_at(&["a", "b_c"]).get_mangled_function_name(),
        command_at(&["a_b", "c"]).get_mangled_function_name()
    );
}

#[test]
fn function_name_of_an_empty_path() {
    assert_eq!(command_at(&[]).get_mangled_function_name(), "__");
}

#[test]
fn command_path_string_joins_with_blanks() {
    assert_eq!(command_at(&["git"]).get_command_path_string(), "git");
    assert_eq!(command_at(&["git", "remote", "add"]).get_command_path_string(), "git remote add");
    assert_eq!(command_at(&[]).get_command_path_string(), "");
}
