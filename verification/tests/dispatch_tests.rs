use shell_core::builtins::cd_error_message;
use shell_core::builtins::expand_tilde;
use shell_core::builtins::is_builtin;
use shell_core::builtins::not_found_message;
use shell_core::builtins::type_message;
use shell_core::dispatch::classify;
use shell_core::dispatch::dispatch_line;
use shell_core::dispatch::Command;
use shell_core::text::trim_line;
use shell_core::tokenizer::parse_args;

#[test]
fn registry_membership() {
    assert!(is_builtin("echo"));
    assert!(is_builtin("exit"));
    assert!(is_builtin("type"));
    assert!(is_builtin("pwd"));
    assert!(is_builtin("cd"));
    assert!(!is_builtin("ls"));
    assert!(!is_builtin(""));
    assert!(!is_builtin("echo "));
}

#[test]
fn type_reports_builtins_first() {
    assert_eq!(type_message("echo", None), "echo is a shell builtin");
    // A builtin wins even when an executable of the same name was
    // resolved on the search path.
    let resolved = String::from("/usr/bin/echo");
    assert_eq!(type_message("echo", Some(&resolved)), "echo is a shell builtin");
}

#[test]
fn type_reports_resolved_path_or_not_found() {
    let resolved = String::from("/usr/bin/ls");
    assert_eq!(type_message("ls", Some(&resolved)), "ls is /usr/bin/ls");
    assert_eq!(type_message("nonexistentcmd123", None), "nonexistentcmd123: not found");
}

#[test]
fn builtin_name_always_dispatches_to_builtin() {
    let tokens = parse_args("echo hello");
    assert!(matches!(classify(&tokens), Command::Echo { .. }));
    let tokens = parse_args("pwd");
    assert!(matches!(classify(&tokens), Command::Pwd));
    let tokens = parse_args("cd /tmp");
    assert!(matches!(classify(&tokens), Command::Cd { .. }));
    let tokens = parse_args("type ls");
    assert!(matches!(classify(&tokens), Command::TypeQuery { .. }));
}

#[test]
fn exit_classifies_to_exit() {
    let tokens = parse_args("exit");
    assert!(matches!(classify(&tokens), Command::Exit));
}

#[test]
fn empty_line_classifies_to_empty() {
    let tokens = parse_args("   ");
    assert!(matches!(classify(&tokens), Command::Empty));
}

#[test]
fn unknown_name_classifies_to_external() {
    let tokens = parse_args("ls -l");
    assert!(matches!(classify(&tokens), Command::External));
}

#[test]
fn echo_joins_arguments_with_single_spaces() {
    let (c, _) = dispatch_line("echo  a   b");
    match c {
        Command::Echo { line } => assert_eq!(line, "a b"),
        _ => panic!("expected an echo command"),
    }
}

#[test]
fn echo_preserves_quoted_spacing() {
    let (c, _) = dispatch_line("echo 'a  b'");
    match c {
        Command::Echo { line } => assert_eq!(line, "a  b"),
        _ => panic!("expected an echo command"),
    }
}

#[test]
fn echo_output_retokenizes_to_the_same_arguments() {
    let (c, tokens) = dispatch_line("echo alpha beta gamma");
    match c {
        Command::Echo { line } => {
            let again = parse_args(&line);
            assert_eq!(again, &tokens[1..]);
        },
        _ => panic!("expected an echo command"),
    }
}

#[test]
fn type_takes_its_first_argument() {
    let (c, _) = dispatch_line("type echo extra");
    match c {
        Command::TypeQuery { name } => assert_eq!(name, "echo"),
        _ => panic!("expected a type query"),
    }
    let (c, _) = dispatch_line("type");
    match c {
        Command::TypeQuery { name } => assert_eq!(name, ""),
        _ => panic!("expected a type query"),
    }
}

#[test]
fn not_found_echoes_whole_line() {
    assert_eq!(
        not_found_message("nosuch arg1 arg2"),
        "nosuch arg1 arg2: command not found",
    );
}

#[test]
fn cd_error_names_the_target() {
    assert_eq!(
        cd_error_message("/nonexistent"),
        "cd: /nonexistent: No such file or directory",
    );
}

#[test]
fn tilde_expansion() {
    assert_eq!(expand_tilde("~", Some("/home/u")), "/home/u");
    assert_eq!(expand_tilde("~/x/y", Some("/home/u")), "/home/u/x/y");
    assert_eq!(expand_tilde("~", None), "/");
    assert_eq!(expand_tilde("~/x", None), "//x");
    assert_eq!(expand_tilde("~x", Some("/home/u")), "~x");
    assert_eq!(expand_tilde("/abs", Some("/home/u")), "/abs");
}

#[test]
fn trimming_a_raw_line() {
    assert_eq!(trim_line("  echo hi \n"), "echo hi");
    assert_eq!(trim_line("\t\r\n"), "");
    assert_eq!(trim_line("x"), "x");
}
