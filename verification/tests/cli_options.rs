use eashy::cli::{detect_shell, expand_tilde, resolve, Cli, Location, Shell, FOLDER_DIR};

fn cli(file: Option<&str>, output: Option<&str>) -> Cli {
    Cli { file: file.map(|s| s.to_string()), output: output.map(|s| s.to_string()), quiet: false }
}

#[test]
fn folder_is_hidden_in_the_home_directory() {
    assert_eq!(FOLDER_DIR, ".eashy");
}

#[test]
fn stdout_output_is_a_single_dash() {
    assert!(cli(None, Some("-")).is_stdout_output());
    assert!(!cli(None, Some("--")).is_stdout_output());
    assert!(!cli(None, Some("")).is_stdout_output());
    assert!(!cli(None, Some("out.sh")).is_stdout_output());
    assert!(!cli(None, Some("./-")).is_stdout_output());
    assert!(!cli(Some("-"), None).is_stdout_output());
}

#[test]
fn expand_tilde_reads_a_leading_tilde_as_home() {
    assert!(matches!(expand_tilde("~/x/y.kdl", true), Location::UnderHome(ref p) if p == "x/y.kdl"));
    assert!(matches!(expand_tilde("~/", true), Location::UnderHome(ref p) if p.is_empty()));
}

#[test]
fn expand_tilde_leaves_other_paths_alone() {
    for path in ["/etc/x", "x/~/y", "~", "~x/y", "", "./~/"] {
        assert!(matches!(expand_tilde(path, true), Location::At(ref p) if p == path));
    }
}

#[test]
fn expand_tilde_without_a_home_leaves_the_path_alone() {
    assert!(matches!(expand_tilde("~/x", false), Location::At(ref p) if p == "~/x"));
}

#[test]
fn input_location_is_the_given_one_or_the_default() {
    assert!(matches!(cli(Some("a.kdl"), None).input_location(true), Location::At(ref p) if p == "a.kdl"));
    assert!(matches!(
        cli(Some("~/.eashy/default.kdl"), None).input_location(true),
        Location::UnderHome(ref p) if p == ".eashy/default.kdl"
    ));
    assert!(matches!(cli(None, None).input_location(true), Location::InFolder(ref p) if p == "default.kdl"));
    assert!(matches!(cli(None, None).input_location(false), Location::InFolder(ref p) if p == "default.kdl"));
}

#[test]
fn output_location_is_none_for_stdout() {
    assert!(cli(None, Some("-")).output_location(true).is_none());
}

#[test]
fn output_location_is_the_given_one_or_the_default() {
    assert!(matches!(
        cli(None, Some("out.sh")).output_location(true),
        Some(Location::At(ref p)) if p == "out.sh"
    ));
    assert!(matches!(
        cli(None, Some("~/.eashy/eashy.sh")).output_location(true),
        Some(Location::UnderHome(ref p)) if p == ".eashy/eashy.sh"
    ));
    assert!(matches!(
        cli(None, Some("~/.eashy/eashy.sh")).output_location(false),
        Some(Location::At(ref p)) if p == "~/.eashy/eashy.sh"
    ));
    assert!(matches!(
        cli(None, None).output_location(true),
        Some(Location::InFolder(ref p)) if p == "eashy.sh"
    ));
}

#[test]
fn shell_is_the_first_known_name_in_the_path() {
    assert_eq!(detect_shell("/bin/zsh"), Shell::Zsh);
    assert_eq!(detect_shell("/usr/bin/bash"), Shell::Bash);
    assert_eq!(detect_shell("/usr/local/bin/fish"), Shell::Fish);
    assert_eq!(detect_shell("/bin/sh"), Shell::Other);
    assert_eq!(detect_shell(""), Shell::Other);
    assert_eq!(detect_shell("/opt/bash/bin/zsh"), Shell::Zsh);
    assert_eq!(detect_shell("/opt/fish/bin/bash"), Shell::Bash);
    assert_eq!(detect_shell("zs"), Shell::Other);
}

#[test]
fn rc_file_of_each_shell() {
    assert_eq!(Cli::rc_file("/bin/zsh").as_deref(), Some(".zshrc"));
    assert_eq!(Cli::rc_file("/bin/bash").as_deref(), Some(".bashrc"));
    assert_eq!(Cli::rc_file("/bin/fish").as_deref(), Some(".config/fish/config.fish"));
    assert_eq!(Cli::rc_file("/bin/sh"), None);
}

#[test]
fn already_sourced_looks_for_the_source_line() {
    assert!(Cli::already_sourced("# rc\nsource /home/u/.eashy/eashy.sh\n", "/home/u/.eashy/eashy.sh"));
    assert!(Cli::already_sourced("source x", "x"));
    assert!(!Cli::already_sourced("# rc\nsource /other.sh\n", "/home/u/.eashy/eashy.sh"));
    assert!(!Cli::already_sourced("/home/u/.eashy/eashy.sh", "/home/u/.eashy/eashy.sh"));
    assert!(!Cli::already_sourced("", "x"));
    assert!(Cli::already_sourced("source ", ""));
}

#[test]
fn success_line_names_the_file() {
    assert_eq!(
        Cli::success_line("/tmp/out.sh"),
        "✅ Shell script generated successfully at: /tmp/out.sh"
    );
}

#[test]
fn sourcing_instructions_for_each_shell() {
    for (shell, rc) in [
        ("/bin/zsh", "~/.zshrc"),
        ("/bin/bash", "~/.bashrc"),
        ("/usr/bin/fish", "~/.config/fish/config.fish"),
        ("/bin/dash", "your shell's configuration file"),
    ] {
        assert_eq!(
            Cli::sourcing_instructions("/tmp/out.sh", shell),
            vec![
                "".to_string(),
                "📋 To use the generated commands, you need to source this file:".to_string(),
                "   source /tmp/out.sh".to_string(),
                "".to_string(),
                "🔧 To make it permanent, add this line to your shell's RC file, or run:".to_string(),
                format!("   echo 'source /tmp/out.sh' >> {}", rc),
                "".to_string(),
            ]
        );
    }
}

#[test]
fn resolve_keeps_a_plain_path() {
    let home = Some("/home/u".to_string());
    assert_eq!(resolve(&Location::At("x/y.kdl".to_string()), &home), "x/y.kdl");
    assert_eq!(resolve(&Location::At("x/y.kdl".to_string()), &None), "x/y.kdl");
    assert_eq!(resolve(&Location::At(String::new()), &None), "");
}

#[test]
fn resolve_puts_a_path_under_home() {
    let home = Some("/home/u".to_string());
    let found = resolve(&Location::UnderHome("x/y.kdl".to_string()), &home);
    assert_eq!(std::path::Path::new(&found), std::path::Path::new("/home/u").join("x/y.kdl"));
    assert_eq!(resolve(&Location::UnderHome("x/y.kdl".to_string()), &None), "~/x/y.kdl");
}

#[test]
fn resolve_finds_the_folder_in_home_or_in_the_current_directory() {
    let home = Some("/home/u".to_string());
    let found = resolve(&Location::InFolder("eashy.sh".to_string()), &home);
    assert_eq!(
        std::path::Path::new(&found),
        std::path::Path::new("/home/u").join(".eashy").join("eashy.sh")
    );
    let local = resolve(&Location::InFolder("eashy.sh".to_string()), &None);
    assert_eq!(std::path::Path::new(&local), std::path::Path::new(".").join(".eashy").join("eashy.sh"));
}

#[test]
fn input_file_without_a_tilde_is_the_given_path() {
    assert_eq!(cli(Some("a.kdl"), None).get_input_file(), "a.kdl");
    assert_eq!(cli(Some("/etc/x.kdl"), None).get_input_file(), "/etc/x.kdl");
    assert_eq!(cli(Some("~x"), None).get_input_file(), "~x");
}

#[test]
fn input_file_by_default_is_in_the_folder() {
    let found = cli(None, None).get_input_file();
    assert!(std::path::Path::new(&found).ends_with(".eashy/default.kdl"));
}

#[test]
fn input_file_with_a_tilde_keeps_what_follows_it() {
    let found = cli(Some("~/conf/tool.kdl"), None).get_input_file();
    assert!(std::path::Path::new(&found).ends_with("conf/tool.kdl"));
}

#[test]
fn output_file_is_none_for_stdout_only() {
    assert_eq!(cli(None, Some("-")).get_output_file(), None);
    assert_eq!(cli(None, Some("out.sh")).get_output_file().as_deref(), Some("out.sh"));
    assert_eq!(cli(None, Some("--")).get_output_file().as_deref(), Some("--"));
    let found = cli(None, None).get_output_file().unwrap();
    assert!(std::path::Path::new(&found).ends_with(".eashy/eashy.sh"));
}

fn quiet() -> Cli {
    Cli { file: None, output: None, quiet: true }
}

#[test]
fn success_message_is_the_success_line_unless_quiet() {
    assert_eq!(
        cli(None, None).success_message("/tmp/out.sh").as_deref(),
        Some("✅ Shell script generated successfully at: /tmp/out.sh")
    );
    assert_eq!(quiet().success_message("/tmp/out.sh"), None);
}

#[test]
fn sourcing_message_is_empty_under_quiet() {
    assert!(quiet().sourcing_message("/tmp/out.sh", "/bin/zsh", &None).is_empty());
    assert!(quiet().sourcing_message("/tmp/out.sh", "/bin/zsh", &Some(String::new())).is_empty());
}

#[test]
fn sourcing_message_is_empty_where_the_start_up_file_loads_the_script() {
    let rc = Some("export A=1\nsource /tmp/out.sh\n".to_string());
    assert!(cli(None, None).sourcing_message("/tmp/out.sh", "/bin/zsh", &rc).is_empty());
}

#[test]
fn sourcing_message_gives_the_instructions_otherwise() {
    let expected = Cli::sourcing_instructions("/tmp/out.sh", "/bin/bash");
    assert_eq!(expected.len(), 7);
    assert_eq!(cli(None, None).sourcing_message("/tmp/out.sh", "/bin/bash", &None), expected);
    let other = Some("source /tmp/other.sh\n".to_string());
    assert_eq!(cli(None, None).sourcing_message("/tmp/out.sh", "/bin/bash", &other), expected);
    assert_eq!(expected[5], "   echo 'source /tmp/out.sh' >> ~/.bashrc");
}
