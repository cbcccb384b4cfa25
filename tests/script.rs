use scripted_demo::actions::{parse_actions, Action, ParseError};
use scripted_demo::display::join_words;
use scripted_demo::orchestrate::{cd_base, inherits_io, is_key_press, typed_echo, waits_after, CdBase};
use scripted_demo::tokenize::parse_command;

fn words(v: &[&str]) -> Vec<String> {
    v.iter().map(|s| s.to_string()).collect()
}

#[test]
fn tokenizer_groups_quoted_text() {
    assert_eq!(parse_command("cd \"my dir\""), words(&["cd", "my dir"]));
}

#[test]
fn tokenizer_escaped_space_joins_words() {
    assert_eq!(parse_command("a\\ b c"), words(&["a b", "c"]));
}

#[test]
fn tokenizer_restores_quote_of_unterminated_token() {
    assert_eq!(parse_command("say \"hi"), words(&["say", "\"hi"]));
}

#[test]
fn tokenizer_keeps_trailing_backslash() {
    assert_eq!(parse_command("ls dir\\"), words(&["ls", "dir\\"]));
}

#[test]
fn tokenizer_escape_inside_quotes() {
    assert_eq!(parse_command("echo \"a\\\"b\""), words(&["echo", "a\"b"]));
}

#[test]
fn tokenizer_empty_quotes_give_empty_token() {
    assert_eq!(parse_command("echo \"\""), words(&["echo", ""]));
}

#[test]
fn tokenizer_collapses_repeated_spaces() {
    assert_eq!(parse_command("  ls   -la  "), words(&["ls", "-la"]));
    assert_eq!(parse_command(""), Vec::<String>::new());
    assert_eq!(parse_command("   "), Vec::<String>::new());
}

#[test]
fn script_end_to_end() {
    let script = "cd /tmp\n- echo hi\n# echo silent\necho visible".to_string();
    let actions = parse_actions(script).unwrap();
    assert_eq!(
        actions,
        vec![
            Action::ChangeDir("/tmp".to_string()),
            Action::RunCommandOnlyOutput(words(&["echo", "hi"])),
            Action::RunCommandQuiet(words(&["echo", "silent"])),
            Action::RunCommand(words(&["echo", "visible"])),
        ]
    );
    let waits: Vec<bool> = actions.iter().map(waits_after).collect();
    assert_eq!(waits, vec![true, false, false, true]);
}

#[test]
fn script_one_action_per_nonblank_line() {
    let script = "\nls\n\n   \n#\n-cd a\n#cd b\n+cd c\r\nmake all\n".to_string();
    let actions = parse_actions(script).unwrap();
    assert_eq!(
        actions,
        vec![
            Action::RunCommand(words(&["ls"])),
            Action::ChangeDirQuiet("a".to_string()),
            Action::ChangeDirQuiet("b".to_string()),
            Action::RunEditor("cd".to_string(), "c".to_string()),
            Action::RunCommand(words(&["make", "all"])),
        ]
    );
}

#[test]
fn script_empty_gives_no_actions() {
    assert_eq!(parse_actions(String::new()).unwrap(), vec![]);
    assert_eq!(parse_actions("\n\n".to_string()).unwrap(), vec![]);
}

#[test]
fn script_cd_with_extra_words_is_a_command() {
    let actions = parse_actions("cd a b".to_string()).unwrap();
    assert_eq!(actions, vec![Action::RunCommand(words(&["cd", "a", "b"]))]);
}

#[test]
fn script_editor_line_with_two_tokens() {
    let actions = parse_actions("+ out.txt in.txt".to_string()).unwrap();
    assert_eq!(actions, vec![Action::RunEditor("out.txt".to_string(), "in.txt".to_string())]);
}

#[test]
fn script_editor_line_with_one_token_fails() {
    let r = parse_actions("echo a\n+ out.txt".to_string());
    assert_eq!(r, Err(ParseError::EditorArgCount { line: 1, found: 1 }));
}

#[test]
fn script_editor_line_with_three_tokens_fails() {
    let r = parse_actions("+ out.txt in.txt extra\n+ x".to_string());
    assert_eq!(r, Err(ParseError::EditorArgCount { line: 0, found: 3 }));
}

#[test]
fn echo_of_each_action() {
    assert_eq!(typed_echo(&Action::ChangeDir("/tmp".to_string())), Some(words(&["cd", "/tmp"])));
    assert_eq!(typed_echo(&Action::RunCommand(words(&["ls", "-l"]))), Some(words(&["ls", "-l"])));
    assert_eq!(
        typed_echo(&Action::RunEditor("a.rs".to_string(), "b.rs".to_string())),
        Some(words(&["edit", "a.rs"]))
    );
    assert_eq!(typed_echo(&Action::ChangeDirQuiet("x".to_string())), None);
    assert_eq!(typed_echo(&Action::RunCommandQuiet(words(&["ls"]))), None);
    assert_eq!(typed_echo(&Action::RunCommandOnlyOutput(words(&["ls"]))), None);
}

#[test]
fn only_shown_steps_wait_after() {
    assert!(!waits_after(&Action::ChangeDirQuiet("x".to_string())));
    assert!(!waits_after(&Action::RunEditor("a".to_string(), "b".to_string())));
    assert!(inherits_io(&Action::RunCommand(words(&["ls"]))));
    assert!(inherits_io(&Action::RunCommandOnlyOutput(words(&["ls"]))));
    assert!(!inherits_io(&Action::RunCommandQuiet(words(&["ls"]))));
}

#[test]
fn cd_bases() {
    assert_eq!(cd_base("/usr"), CdBase::Root);
    assert_eq!(cd_base("~/src"), CdBase::Home);
    assert_eq!(cd_base("src"), CdBase::Current);
    assert_eq!(cd_base(""), CdBase::Current);
}

#[test]
fn key_press_needs_a_nonzero_byte() {
    assert!(!is_key_press(&[0, 0, 0, 0]));
    assert!(!is_key_press(&[]));
    assert!(is_key_press(&[0, 13]));
}

#[test]
fn action_written_back() {
    assert_eq!(Action::ChangeDir("/tmp".to_string()).to_string(), "cd \"/tmp\"");
    assert_eq!(Action::ChangeDirQuiet("a b".to_string()).to_string(), "#cd \"a b\"");
    assert_eq!(
        Action::RunEditor("out.rs".to_string(), "in.rs".to_string()).to_string(),
        "+ \"out.rs\" \"in.rs\""
    );
    assert_eq!(Action::RunCommand(words(&["echo", "hi there"])).to_string(), "\"echo\" \"hi there\"");
    assert_eq!(Action::RunCommandQuiet(words(&["ls"])).to_string(), "#\"ls\"");
    assert_eq!(Action::RunCommandOnlyOutput(words(&["say", "a\"b"])).to_string(), "-\"say\" \"a\\\"b\"");
}

#[test]
fn join_words_with_spaces() {
    assert_eq!(join_words(&words(&["a", "bc", "d"])), "a bc d");
    assert_eq!(join_words(&words(&[])), "");
    assert_eq!(join_words(&words(&["x"])), "x");
}

#[test]
fn script_lone_sigils_are_blank() {
    assert_eq!(parse_actions("-\n#\n-   ".to_string()).unwrap(), vec![]);
}

#[test]
fn script_lone_editor_sigil_fails() {
    let r = parse_actions("ls\n+".to_string());
    assert_eq!(r, Err(ParseError::EditorArgCount { line: 1, found: 0 }));
    let r = parse_actions("+   \nls".to_string());
    assert_eq!(r, Err(ParseError::EditorArgCount { line: 0, found: 0 }));
}

#[test]
fn script_keeps_quoted_editor_paths() {
    let actions = parse_actions("+ \"my out.rs\" in.rs".to_string()).unwrap();
    assert_eq!(actions, vec![Action::RunEditor("my out.rs".to_string(), "in.rs".to_string())]);
}
