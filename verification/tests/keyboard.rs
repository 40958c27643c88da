use myos::keyboard::{feed_scancode, KeyDecoder};
use myos::shell::{Key, KeyEffect, ShellState};

fn feed_all(shell: &mut ShellState, decoder: &mut KeyDecoder, codes: &[u8]) -> Vec<KeyEffect> {
    codes.iter().map(|c| feed_scancode(shell, decoder, *c).1).collect()
}

fn take_text(shell: &mut ShellState) -> Option<String> {
    shell.take_line().map(|line| line.as_str().to_string())
}

#[test]
fn scancodes_type_a_line() {
    let mut shell = ShellState::new();
    let mut decoder = KeyDecoder::new();
    // a down, a up, b down, b up, Enter down, Enter up
    let effects = feed_all(&mut shell, &mut decoder, &[0x1e, 0x9e, 0x30, 0xb0, 0x1c, 0x9c]);
    assert_eq!(
        effects,
        vec![
            KeyEffect::Echo('a'),
            KeyEffect::Nothing,
            KeyEffect::Echo('b'),
            KeyEffect::Nothing,
            KeyEffect::Newline,
            KeyEffect::Nothing,
        ]
    );
    assert_eq!(take_text(&mut shell), Some("ab".to_string()));
}

#[test]
fn key_release_decodes_to_no_key() {
    let mut shell = ShellState::new();
    let mut decoder = KeyDecoder::new();
    assert!(matches!(feed_scancode(&mut shell, &mut decoder, 0x1e), (Some(Key::Unicode('a')), KeyEffect::Echo('a'))));
    assert!(matches!(feed_scancode(&mut shell, &mut decoder, 0x9e), (None, KeyEffect::Nothing)));
}

#[test]
fn shift_gives_capitals() {
    let mut shell = ShellState::new();
    let mut decoder = KeyDecoder::new();
    // left shift down is a key without a character
    assert!(matches!(feed_scancode(&mut shell, &mut decoder, 0x2a), (Some(Key::RawKey), KeyEffect::Nothing)));
    assert_eq!(feed_all(&mut shell, &mut decoder, &[0x1e, 0x9e, 0xaa]), vec![KeyEffect::Echo('A'), KeyEffect::Nothing, KeyEffect::Nothing]);
    assert_eq!(feed_all(&mut shell, &mut decoder, &[0x1e]), vec![KeyEffect::Echo('a')]);
}

#[test]
fn backspace_scancode_erases() {
    let mut shell = ShellState::new();
    let mut decoder = KeyDecoder::new();
    let effects = feed_all(&mut shell, &mut decoder, &[0x1e, 0x9e, 0x0e, 0x8e, 0x30, 0xb0, 0x1c]);
    assert_eq!(effects[2], KeyEffect::Backspace);
    assert_eq!(take_text(&mut shell), Some("b".to_string()));
}

#[test]
fn extended_prefix_waits_for_next_byte() {
    let mut shell = ShellState::new();
    let mut decoder = KeyDecoder::new();
    assert!(matches!(feed_scancode(&mut shell, &mut decoder, 0xe0), (None, KeyEffect::Nothing)));
}
