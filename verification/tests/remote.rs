use cargo_device::remote::{remote_path_token, shell_escape};

#[test]
fn shell_escape_plain_paths_unchanged() {
    assert_eq!(shell_escape("/opt/myapp"), "/opt/myapp");
    assert_eq!(shell_escape("myapp-v2.0"), "myapp-v2.0");
}

#[test]
fn shell_escape_spaces_are_quoted() {
    assert_eq!(shell_escape("my app"), "'my app'");
}

#[test]
fn shell_escape_single_quotes_escaped() {
    assert_eq!(shell_escape("it's"), "'it'\\''s'");
}

#[test]
fn shell_escape_tilde_is_quoted_not_expanded() {
    assert_eq!(shell_escape("~/myapp"), "'~/myapp'");
}

#[test]
fn remote_path_token_expands_leading_tilde_on_the_device() {
    assert_eq!(remote_path_token("~/myapp"), "\"$HOME\"/myapp");
}

#[test]
fn remote_path_token_bare_tilde_is_home() {
    assert_eq!(remote_path_token("~"), "\"$HOME\"");
}

#[test]
fn remote_path_token_absolute_path_unchanged() {
    assert_eq!(remote_path_token("/home/radxa/app"), "/home/radxa/app");
}

#[test]
fn remote_path_token_escapes_spaces_after_tilde() {
    assert_eq!(remote_path_token("~/my app"), "\"$HOME\"/'my app'");
}

// ── further cases ────────────────────────────────────────────────────────

#[test]
fn shell_escape_of_empty_string_is_one_empty_word() {
    // A shell would drop an empty word; `''` is read as one empty argument.
    assert_eq!(shell_escape(""), "''");
    assert_eq!(remote_path_token(""), "''");
}

#[test]
fn shell_escape_quotes_non_ascii_and_shell_metacharacters() {
    assert_eq!(shell_escape("a$b"), "'a$b'");
    assert_eq!(shell_escape("é"), "'é'");
    assert_eq!(shell_escape("''"), "''\\'''\\'''");
}

#[test]
fn remote_path_token_quotes_a_tilde_that_is_not_leading() {
    assert_eq!(remote_path_token("/a/~b"), "'/a/~b'");
    assert_eq!(remote_path_token("~user/x"), "'~user/x'");
}
