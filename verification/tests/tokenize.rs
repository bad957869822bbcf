use auto_xkbmap::command::tokenize;

#[test]
fn splits_on_single_spaces() {
    let tokens = tokenize("setxkbmap fr oss -option ctrl:nocaps");
    assert_eq!(tokens, vec!["setxkbmap", "fr", "oss", "-option", "ctrl:nocaps"]);
}

#[test]
fn empty_command_gives_one_empty_token() {
    assert_eq!(tokenize(""), vec![""]);
}

#[test]
fn double_space_gives_empty_token() {
    assert_eq!(tokenize("a  b"), vec!["a", "", "b"]);
}

#[test]
fn no_quoting_or_escaping() {
    assert_eq!(tokenize("echo \"a b\""), vec!["echo", "\"a", "b\""]);
}
