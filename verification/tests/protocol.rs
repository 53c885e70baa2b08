use git_remote_opendal::protocol::{parse_command, read_command, Command};

#[test]
fn parse_capabilities() {
    assert_eq!(parse_command("capabilities"), Command::Capabilities);
}

#[test]
fn parse_list() {
    assert_eq!(parse_command("list"), Command::List);
}

#[test]
fn parse_list_for_push() {
    assert_eq!(parse_command("list for-push"), Command::ListForPush);
}

#[test]
fn parse_import() {
    assert_eq!(
        parse_command("import refs/heads/main"),
        Command::Import(vec!["refs/heads/main".to_string()])
    );
}

#[test]
fn parse_option() {
    assert_eq!(
        parse_command("option verbosity 1"),
        Command::Option("verbosity".to_string(), "1".to_string())
    );
}

#[test]
fn parse_blank() {
    assert_eq!(parse_command(""), Command::Blank);
}

#[test]
fn parse_push_forms() {
    assert_eq!(
        parse_command("push +refs/heads/a:refs/heads/b"),
        Command::Push { src: "+refs/heads/a".to_string(), dst: "refs/heads/b".to_string() }
    );
    assert_eq!(
        parse_command("push :refs/heads/gone"),
        Command::Push { src: String::new(), dst: "refs/heads/gone".to_string() }
    );
    assert_eq!(
        parse_command("push refs/heads/x"),
        Command::Push { src: "refs/heads/x".to_string(), dst: String::new() }
    );
}

#[test]
fn parse_trims_rest_and_keeps_unknown_verb() {
    assert_eq!(
        parse_command("import   refs/tags/v1 \t"),
        Command::Import(vec!["refs/tags/v1".to_string()])
    );
    assert_eq!(parse_command("list  for-push "), Command::ListForPush);
    assert_eq!(parse_command("list something"), Command::List);
    assert_eq!(parse_command("fetch abc def"), Command::Unknown("fetch".to_string()));
    assert_eq!(
        parse_command("option progress"),
        Command::Option("progress".to_string(), String::new())
    );
}

#[test]
fn read_command_handles_terminators_and_eof() {
    assert_eq!(read_command(""), None);
    assert_eq!(read_command("\n"), Some(Command::Blank));
    assert_eq!(read_command("capabilities\r\n"), Some(Command::Capabilities));
    assert_eq!(read_command("list for-push\n"), Some(Command::ListForPush));
    assert_eq!(read_command("list"), Some(Command::List));
}
