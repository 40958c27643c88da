use vstd::prelude::*;
use pc_keyboard::layouts::Us104Key;
use pc_keyboard::{DecodedKey, HandleControl, KeyEvent, Keyboard, ScancodeSet1};
use crate::shell::{handle_key, key_step, Key, KeyEffect, ShellState};

verus! {

/// The scancode set 1 decoder of `pc_keyboard`, opaque here.
#[verifier::external_type_specification]
#[verifier::external_body]
pub struct ExScancodeSet1(ScancodeSet1);

/// A key going up or down, as `pc_keyboard` reports it; opaque here.
#[verifier::external_type_specification]
#[verifier::external_body]
pub struct ExKeyEvent(KeyEvent);

/// Calls `ScancodeSet1::new`: a scancode set 1 decoder at the start of a code.
#[verifier::external_body]
fn scancode_set1_new() -> (set: ScancodeSet1) {
    ScancodeSet1::new()
}

/// Decodes the bytes a PS/2 keyboard sends (scancode set 1, US 104-key
/// layout) into key presses. It holds a `pc_keyboard::Keyboard`, whose type
/// Verus cannot declare (its bounds are traits of `pc_keyboard`), so the
/// struct is opaque and only the functions below touch its field.
#[verifier::external_body]
pub struct KeyDecoder {
    keyboard: Keyboard<Us104Key, ScancodeSet1>,
}

/// Calls `Keyboard::new` with the US 104-key layout, control keys left as
/// they are (`HandleControl::Ignore`), and the scancode decoder `set`.
#[verifier::external_body]
fn keyboard_new(set: ScancodeSet1) -> (decoder: KeyDecoder) {
    KeyDecoder { keyboard: Keyboard::new(set, Us104Key, HandleControl::Ignore) }
}

/// The key event that `Keyboard::add_byte` reports for `byte` fed to the
/// decoder `d` (none when the scancode is not complete yet or the byte is invalid).
pub uninterp spec fn event_after_byte(d: KeyDecoder, byte: u8) -> Option<KeyEvent>;

/// The decoder after `Keyboard::add_byte` fed it `byte`.
pub uninterp spec fn decoder_after_byte(d: KeyDecoder, byte: u8) -> KeyDecoder;

/// The key that `Keyboard::process_keyevent` gives for the event `ev` in the
/// decoder `d`, as a character or a key without one.
pub uninterp spec fn key_after_event(d: KeyDecoder, ev: KeyEvent) -> Option<Key>;

/// The decoder after `Keyboard::process_keyevent` handled the event `ev`.
pub uninterp spec fn decoder_after_event(d: KeyDecoder, ev: KeyEvent) -> KeyDecoder;

/// Calls `Keyboard::add_byte`, which advances the scancode decoder by one byte
/// and reports a key event once a whole scancode has arrived; an invalid byte
/// (an error) reports none. The decoder is deterministic: the event and the new
/// decoder depend on the old decoder and the byte alone, which the two names
/// state; what they are is left to `pc_keyboard`.
#[verifier::external_body]
fn keyboard_add_byte(decoder: &mut KeyDecoder, byte: u8) -> (event: Option<KeyEvent>)
    ensures
        event == event_after_byte(*old(decoder), byte),
        *final(decoder) == decoder_after_byte(*old(decoder), byte),
{
    match decoder.keyboard.add_byte(byte) {
        Ok(event) => event,
        Err(_) => None,
    }
}

/// Calls `Keyboard::process_keyevent`, which updates the modifier keys and
/// maps a key event to a character, or to a key that has none. The key and the
/// new decoder depend on the old decoder and the event alone, which the two
/// names state; what they are is left to `pc_keyboard`.
#[verifier::external_body]
fn keyboard_process_keyevent(decoder: &mut KeyDecoder, event: KeyEvent) -> (key: Option<Key>)
    ensures
        key == key_after_event(*old(decoder), event),
        *final(decoder) == decoder_after_event(*old(decoder), event),
{
    match decoder.keyboard.process_keyevent(event) {
        Some(DecodedKey::Unicode(c)) => Some(Key::Unicode(c)),
        Some(DecodedKey::RawKey(_)) => Some(Key::RawKey),
        None => None,
    }
}

/// The key that the decoder `d` yields for `byte`: the byte's key event, if
/// any, turned into a key.
pub open spec fn key_after(d: KeyDecoder, byte: u8) -> Option<Key> {
    match event_after_byte(d, byte) {
        Some(ev) => key_after_event(decoder_after_byte(d, byte), ev),
        None => None,
    }
}

/// The decoder after it was fed `byte`.
pub open spec fn decoder_after(d: KeyDecoder, byte: u8) -> KeyDecoder {
    match event_after_byte(d, byte) {
        Some(ev) => decoder_after_event(decoder_after_byte(d, byte), ev),
        None => decoder_after_byte(d, byte),
    }
}

impl KeyDecoder {
    /// A decoder at the start of a scancode, with no modifier key held.
    pub fn new() -> (decoder: Self) {
        keyboard_new(scancode_set1_new())
    }
}

/// Feeds one scancode byte to the decoder and, when it completes a key press,
/// that key to the line editor. Returns the key decoded, if any, and what the
/// screen shows; without a key the line editor stays as it was.
pub fn feed_scancode(shell: &mut ShellState, decoder: &mut KeyDecoder, scancode: u8) -> (r: (Option<Key>, KeyEffect))
    requires
        old(shell).wf(),
    ensures
        final(shell).wf(),
        r.0 == key_after(*old(decoder), scancode),
        *final(decoder) == decoder_after(*old(decoder), scancode),
        match r.0 {
            Some(key) => (final(shell)@, r.1) == key_step(old(shell)@, key),
            None => final(shell)@ == old(shell)@ && r.1 == KeyEffect::Nothing,
        },
{
    match keyboard_add_byte(decoder, scancode) {
        Some(event) => match keyboard_process_keyevent(decoder, event) {
            Some(key) => {
                let effect = handle_key(shell, key);
                (Some(key), effect)
            },
            None => (None, KeyEffect::Nothing),
        },
        None => (None, KeyEffect::Nothing),
    }
}

} // verus!
