use cbtr::probe::resolve_binaries;
use cbtr::runner::{default_indent, Command};
use cbtr::tokenize::tokenize;

#[test]
fn tokenize_splits_on_single_spaces() {
    assert_eq!(tokenize("make build"), vec!["make".to_string(), "build".to_string()]);
}

#[test]
fn tokenize_collapses_repeated_separators() {
    assert_eq!(
        tokenize("  cargo   test \t --all\n"),
        vec!["cargo".to_string(), "test".to_string(), "--all".to_string()]
    );
}

#[test]
fn tokenize_of_an_empty_string_is_empty() {
    assert_eq!(tokenize(""), Vec::<String>::new());
}

#[test]
fn tokenize_of_only_separators_is_empty() {
    assert_eq!(tokenize(" \t \n "), Vec::<String>::new());
}

#[test]
fn tokenize_of_one_word() {
    assert_eq!(tokenize("ls"), vec!["ls".to_string()]);
}

#[test]
fn command_program_and_args() {
    let cmd = Command::new(tokenize("cc -o out main.c"), default_indent());
    assert_eq!(cmd.program(), Some(&"cc".to_string()));
    assert_eq!(cmd.args(), vec!["-o".to_string(), "out".to_string(), "main.c".to_string()]);
}

#[test]
fn command_with_no_tokens_has_no_program() {
    let cmd = Command::new(Vec::new(), default_indent());
    assert_eq!(cmd.program(), None);
    assert_eq!(cmd.args(), Vec::<String>::new());
}

#[test]
fn child_output_lines_carry_the_indent() {
    let cmd = Command::new(tokenize("make"), default_indent());
    assert_eq!(cmd.prefix_line("warning: dust"), "   warning: dust".to_string());
    assert_eq!(cmd.prefix_line(""), "   ".to_string());
}

#[test]
fn default_indent_is_three_spaces() {
    assert_eq!(default_indent(), "   ".to_string());
}

#[test]
fn an_unresolvable_name_is_not_recorded() {
    let names = vec!["no-such-binary-on-any-search-path-0192".to_string()];
    let bins = resolve_binaries(&names);
    assert!(!bins.is_resolvable(&names[0]));
}

#[test]
fn resolving_an_empty_name_list_records_nothing() {
    let bins = resolve_binaries(&Vec::new());
    assert!(!bins.is_resolvable(&"anything".to_string()));
}
