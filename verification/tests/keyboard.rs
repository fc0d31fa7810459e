use kernel::keyboard::resolve_key_press;
use kernel::keyboard::DecodeError;
use kernel::keyboard::KeyOutput;
use kernel::keyboard::KeyPress;
use kernel::keyboard::KeyboardDecoder;
use kernel::keyboard::ScancodeOutcome;

/// Press A, release A: exactly one printable event, and nothing spurious
/// on the release byte.
#[test]
fn press_and_release_yield_exactly_one_character() {
    let mut decoder = KeyboardDecoder::new();
    let down = decoder.process_scancode(0x1E);
    assert_eq!(down, ScancodeOutcome::Key(KeyOutput::Character('a')));
    let up = decoder.process_scancode(0x9E);
    assert_eq!(up, ScancodeOutcome::NoEvent);
}

/// A malformed lead byte is a recoverable error; the next valid sequence
/// decodes correctly.
#[test]
fn decoder_resynchronizes_after_a_malformed_byte() {
    let mut decoder = KeyboardDecoder::new();
    let bad = decoder.process_scancode(0x55);
    assert_eq!(bad, ScancodeOutcome::DecodeFailed(DecodeError::UnknownKeyCode));
    let down = decoder.process_scancode(0x1E);
    assert_eq!(down, ScancodeOutcome::Key(KeyOutput::Character('a')));
    let up = decoder.process_scancode(0x9E);
    assert_eq!(up, ScancodeOutcome::NoEvent);
}

/// An extended-key prefix consumes its full sequence before anything is
/// emitted.
#[test]
fn extended_sequences_emit_nothing_until_complete() {
    let mut decoder = KeyboardDecoder::new();
    let prefix = decoder.process_scancode(0xE0);
    assert_eq!(prefix, ScancodeOutcome::NoEvent);
    // 0xE0 0x48: up arrow, a key without a character
    let arrow = decoder.process_scancode(0x48);
    match arrow {
        ScancodeOutcome::Key(KeyOutput::RawKey(name)) => {
            assert_eq!(name, "ArrowUp");
        },
        other => panic!("expected a raw key, got {:?}", other),
    }
}

#[test]
fn shift_changes_the_resolved_character() {
    let mut decoder = KeyboardDecoder::new();
    // left shift down
    let shift = decoder.process_scancode(0x2A);
    match shift {
        ScancodeOutcome::Key(KeyOutput::RawKey(_)) => {},
        other => panic!("expected the modifier itself as a raw key, got {:?}", other),
    }
    let upper = decoder.process_scancode(0x1E);
    assert_eq!(upper, ScancodeOutcome::Key(KeyOutput::Character('A')));
}

/// Control characters resolve to their names, never to literal
/// characters, so the output surface cannot confuse the two.
#[test]
fn named_control_keys_are_kept_apart_from_characters() {
    assert_eq!(resolve_key_press(KeyPress::Unicode('\x1b')), KeyOutput::Escape);
    assert_eq!(resolve_key_press(KeyPress::Unicode('\x08')), KeyOutput::Backspace);
    assert_eq!(resolve_key_press(KeyPress::Unicode('\x7f')), KeyOutput::Delete);
    assert_eq!(resolve_key_press(KeyPress::Unicode('\t')), KeyOutput::Tab);
    assert_eq!(resolve_key_press(KeyPress::Unicode('x')), KeyOutput::Character('x'));
    assert_eq!(
        resolve_key_press(KeyPress::Raw(String::from("F1"))),
        KeyOutput::RawKey(String::from("F1"))
    );
}

#[test]
fn escape_key_press_resolves_to_the_escape_name() {
    let mut decoder = KeyboardDecoder::new();
    let esc = decoder.process_scancode(0x01);
    assert_eq!(esc, ScancodeOutcome::Key(KeyOutput::Escape));
}

#[test]
fn backspace_and_tab_resolve_to_their_names() {
    let mut decoder = KeyboardDecoder::new();
    assert_eq!(decoder.process_scancode(0x0E), ScancodeOutcome::Key(KeyOutput::Backspace));
    assert_eq!(decoder.process_scancode(0x8E), ScancodeOutcome::NoEvent);
    assert_eq!(decoder.process_scancode(0x0F), ScancodeOutcome::Key(KeyOutput::Tab));
}
