use myos::shell::{handle_key, parse_command, Command, Key, KeyEffect, LineBuffer, ShellState};

fn type_str(shell: &mut ShellState, text: &str) -> Vec<KeyEffect> {
    text.chars().map(|c| handle_key(shell, Key::Unicode(c))).collect()
}

fn take_text(shell: &mut ShellState) -> Option<String> {
    shell.take_line().map(|line| line.as_str().to_string())
}

#[test]
fn parse_help_command() {
    assert!(matches!(parse_command("help"), Command::Help));
}

#[test]
fn parse_echo_command() {
    assert!(matches!(parse_command("echo hello"), Command::Echo("hello")));
}

#[test]
fn parse_unknown_command() {
    assert!(matches!(parse_command("status"), Command::Unknown("status")));
}

#[test]
fn trivial_assertion() {
    assert_eq!(1, 1);
}

#[test]
fn parse_clear_command() {
    assert!(matches!(parse_command("clear"), Command::Clear));
}

#[test]
fn parse_blank_lines_are_empty() {
    assert!(matches!(parse_command(""), Command::Empty));
    assert!(matches!(parse_command("   \t  "), Command::Empty));
    assert!(matches!(parse_command("\u{3000}\u{a0}"), Command::Empty));
}

#[test]
fn parse_echo_without_arguments() {
    assert!(matches!(parse_command("echo"), Command::Echo("")));
    assert!(matches!(parse_command("  echo   "), Command::Echo("")));
}

#[test]
fn parse_echo_keeps_inner_spacing() {
    assert!(matches!(parse_command("  echo   a  b  "), Command::Echo("a  b")));
    assert!(matches!(parse_command("echo\thello world"), Command::Echo("hello world")));
}

#[test]
fn parse_unknown_carries_trimmed_line() {
    assert!(matches!(parse_command("  foo bar  "), Command::Unknown("foo bar")));
    assert!(matches!(parse_command("helpme"), Command::Unknown("helpme")));
    assert!(matches!(parse_command("Help"), Command::Unknown("Help")));
}

#[test]
fn parse_unicode_whitespace_separates() {
    assert!(matches!(parse_command("\u{2003}help\u{2028}"), Command::Help));
    assert!(matches!(parse_command("echo\u{a0}hi"), Command::Echo("hi")));
}

#[test]
fn parse_ignores_surrounding_whitespace() {
    for line in ["help", "echo  x y", "clear", "what is this", ""] {
        let padded = format!(" \t{}\n ", line);
        let a = parse_command(line);
        let b = parse_command(&padded);
        match (a, b) {
            (Command::Empty, Command::Empty) | (Command::Help, Command::Help) | (Command::Clear, Command::Clear) => {}
            (Command::Echo(x), Command::Echo(y)) => assert_eq!(x, y),
            (Command::Unknown(x), Command::Unknown(y)) => assert_eq!(x, y),
            _ => panic!("different commands for {:?}", line),
        }
    }
}

#[test]
fn typed_line_reads_back() {
    let mut shell = ShellState::new();
    let effects = type_str(&mut shell, "echo hi");
    assert_eq!(effects, "echo hi".chars().map(KeyEffect::Echo).collect::<Vec<_>>());
    assert!(shell.take_line().is_none());
    assert_eq!(handle_key(&mut shell, Key::Unicode('\n')), KeyEffect::Newline);
    assert_eq!(take_text(&mut shell), Some("echo hi".to_string()));
    assert_eq!(take_text(&mut shell), None);
}

#[test]
fn carriage_return_submits() {
    let mut shell = ShellState::new();
    type_str(&mut shell, "ab");
    assert_eq!(handle_key(&mut shell, Key::Unicode('\r')), KeyEffect::Newline);
    assert_eq!(take_text(&mut shell), Some("ab".to_string()));
}

#[test]
fn erase_undoes_append() {
    let mut shell = ShellState::new();
    type_str(&mut shell, "abc");
    assert_eq!(handle_key(&mut shell, Key::Unicode('\u{8}')), KeyEffect::Backspace);
    assert_eq!(handle_key(&mut shell, Key::Unicode('\u{7f}')), KeyEffect::Backspace);
    type_str(&mut shell, "z");
    handle_key(&mut shell, Key::Unicode('\n'));
    assert_eq!(take_text(&mut shell), Some("az".to_string()));
}

#[test]
fn erase_on_empty_line_still_backspaces() {
    let mut shell = ShellState::new();
    assert_eq!(handle_key(&mut shell, Key::Unicode('\u{8}')), KeyEffect::Backspace);
    handle_key(&mut shell, Key::Unicode('\n'));
    assert_eq!(take_text(&mut shell), Some(String::new()));
}

#[test]
fn submitted_line_ignores_keys() {
    let mut shell = ShellState::new();
    type_str(&mut shell, "ls");
    handle_key(&mut shell, Key::Unicode('\n'));
    assert_eq!(handle_key(&mut shell, Key::Unicode('x')), KeyEffect::Nothing);
    assert_eq!(handle_key(&mut shell, Key::Unicode('\u{8}')), KeyEffect::Nothing);
    assert_eq!(handle_key(&mut shell, Key::Unicode('\n')), KeyEffect::Nothing);
    assert_eq!(take_text(&mut shell), Some("ls".to_string()));
    assert_eq!(handle_key(&mut shell, Key::Unicode('x')), KeyEffect::Echo('x'));
}

#[test]
fn other_keys_are_ignored() {
    let mut shell = ShellState::new();
    assert_eq!(handle_key(&mut shell, Key::RawKey), KeyEffect::Nothing);
    assert_eq!(handle_key(&mut shell, Key::Unicode('\t')), KeyEffect::Nothing);
    assert_eq!(handle_key(&mut shell, Key::Unicode('é')), KeyEffect::Nothing);
    assert_eq!(handle_key(&mut shell, Key::Unicode('\u{1b}')), KeyEffect::Nothing);
    handle_key(&mut shell, Key::Unicode('\n'));
    assert_eq!(take_text(&mut shell), Some(String::new()));
}

#[test]
fn full_line_keeps_first_bytes_but_echoes() {
    let mut shell = ShellState::new();
    let long: String = std::iter::repeat('a').take(64).chain("bc".chars()).collect();
    let effects = type_str(&mut shell, &long);
    assert_eq!(effects.len(), 66);
    assert_eq!(effects[65], KeyEffect::Echo('c'));
    handle_key(&mut shell, Key::Unicode('\n'));
    assert_eq!(take_text(&mut shell), Some("a".repeat(64)));
}

#[test]
fn push_and_pop_bytes() {
    let mut shell = ShellState::new();
    shell.pop_byte();
    shell.push_byte(b'x');
    shell.push_byte(b'y');
    shell.pop_byte();
    assert!(shell.take_line().is_none());
    assert!(shell.submit_line());
    assert!(!shell.submit_line());
    assert_eq!(take_text(&mut shell), Some("x".to_string()));
}

#[test]
fn append_erase_submit_report_effects() {
    let mut shell = ShellState::new();
    assert!(shell.append_character('q'));
    assert!(shell.erase_character());
    assert!(shell.submit_line());
    assert!(!shell.append_character('q'));
    assert!(!shell.erase_character());
    assert_eq!(take_text(&mut shell), Some(String::new()));
}

#[test]
fn invalid_utf8_line_reads_as_empty() {
    let mut shell = ShellState::new();
    shell.push_byte(b'o');
    shell.push_byte(0xff);
    shell.submit_line();
    let line = shell.take_line().unwrap();
    assert_eq!(line.as_str(), "");
}

#[test]
fn multibyte_utf8_line_reads_back() {
    let mut shell = ShellState::new();
    for b in "hé".as_bytes() {
        shell.push_byte(*b);
    }
    shell.submit_line();
    let line = shell.take_line().unwrap();
    assert_eq!(line.as_str(), "hé");
}

#[test]
fn new_line_buffer_is_empty() {
    assert_eq!(LineBuffer::new().as_str(), "");
}
