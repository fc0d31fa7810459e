//! Keyboard scancode decoder.
//!
//! Scancode bytes arrive one per keyboard interrupt. The stateful PS/2
//! decoder of the pc-keyboard crate assembles them into key events and
//! resolves each completed event against the US-104 layout; the verified
//! logic here classifies every resolved key into an unambiguous output so
//! that literal characters are never confused with control keys.

use vstd::prelude::*;

verus! {

#[verifier::external_type_specification]
#[verifier::external_body]
pub struct ExKeyEvent(pc_keyboard::KeyEvent);

/// A recoverable scancode decode failure; the decoder resynchronizes on
/// the bytes that follow.
#[derive(Debug, Clone, Copy, PartialEq, Eq, Structural)]
pub enum DecodeError {
    /// A PS/2 word arrived with a bad start bit.
    BadStartBit,
    /// A PS/2 word arrived with a bad stop bit.
    BadStopBit,
    /// A PS/2 word failed its parity check.
    ParityError,
    /// The byte does not encode any key this decoder knows.
    UnknownKeyCode,
    /// A failure this kernel has no specific name for.
    Other,
}

/// A completed key press resolved by the layout: either a character or a
/// key that has none.
#[derive(Debug, Clone, PartialEq, Eq)]
pub enum KeyPress {
    /// The key resolves to a character.
    Unicode(char),
    /// The key has no character; the name describes it.
    Raw(String),
}

/// What the kernel sends to its output surface for one key, with literal
/// characters kept apart from named control keys.
#[derive(Debug, Clone, PartialEq, Eq)]
pub enum KeyOutput {
    Escape,
    Backspace,
    Delete,
    Tab,
    /// A literal printable character.
    Character(char),
    /// A key without a character, by name.
    RawKey(String),
}

/// The result of feeding one scancode byte to the decoder.
#[derive(Debug, Clone, PartialEq, Eq)]
pub enum ScancodeOutcome {
    /// The byte was consumed; the sequence is not complete yet, or the
    /// completed event produces no output (a key release, a bare modifier).
    NoEvent,
    /// A completed key, resolved and classified.
    Key(KeyOutput),
    /// The byte fits no sequence; later bytes will resynchronize.
    DecodeFailed(DecodeError),
}

/// Classifies a resolved key press: the control characters that have names
/// become those names, every other character stays literal, and keys
/// without characters keep their layout name.
pub open spec fn spec_resolve(key: KeyPress) -> KeyOutput {
    match key {
        KeyPress::Unicode(c) => if c == '\x1b' {
            KeyOutput::Escape
        } else if c == '\x08' {
            KeyOutput::Backspace
        } else if c == '\x7f' {
            KeyOutput::Delete
        } else if c == '\t' {
            KeyOutput::Tab
        } else {
            KeyOutput::Character(c)
        },
        KeyPress::Raw(name) => KeyOutput::RawKey(name),
    }
}

/// Classifies a resolved key press into the kernel's output alphabet.
pub fn resolve_key_press(key: KeyPress) -> (out: KeyOutput)
    ensures
        out == spec_resolve(key),
{
    match key {
        KeyPress::Unicode(c) => {
            if c == '\x1b' {
                KeyOutput::Escape
            } else if c == '\x08' {
                KeyOutput::Backspace
            } else if c == '\x7f' {
                KeyOutput::Delete
            } else if c == '\t' {
                KeyOutput::Tab
            } else {
                KeyOutput::Character(c)
            }
        },
        KeyPress::Raw(name) => KeyOutput::RawKey(name),
    }
}

/// Incremental PS/2 scancode decoder: consumes exactly the bytes of one
/// logical key event before emitting it, and recovers from malformed
/// bytes on the next byte. The decoder state lives in the pc-keyboard
/// crate and is opaque here; what the kernel does with each outcome is
/// what this module verifies.
#[verifier::external_body]
pub struct KeyboardDecoder {
    inner: pc_keyboard::PS2Keyboard<pc_keyboard::layouts::Us104Key, pc_keyboard::ScancodeSet1>,
}

impl KeyboardDecoder {
    /// Relies on pc_keyboard::PS2Keyboard::new: a fresh decoder over
    /// scancode set 1 and the US-104 layout, with control characters
    /// passed through unmapped.
    #[verifier::external_body]
    pub fn new() -> KeyboardDecoder {
        KeyboardDecoder {
            inner: pc_keyboard::PS2Keyboard::new(
                pc_keyboard::ScancodeSet1::new(),
                pc_keyboard::layouts::Us104Key,
                pc_keyboard::HandleControl::Ignore,
            ),
        }
    }

    /// Relies on pc_keyboard::PS2Keyboard::add_byte: consumes one scancode
    /// byte and either completes a key event, needs more bytes, or reports
    /// a recoverable error; the decoder stays usable afterwards.
    #[verifier::external_body]
    fn add_byte(&mut self, scancode: u8) -> Result<Option<pc_keyboard::KeyEvent>, DecodeError> {
        match self.inner.add_byte(scancode) {
            Ok(event) => Ok(event),
            Err(pc_keyboard::Error::BadStartBit) => Err(DecodeError::BadStartBit),
            Err(pc_keyboard::Error::BadStopBit) => Err(DecodeError::BadStopBit),
            Err(pc_keyboard::Error::ParityError) => Err(DecodeError::ParityError),
            Err(pc_keyboard::Error::UnknownKeyCode) => Err(DecodeError::UnknownKeyCode),
            Err(_) => Err(DecodeError::Other),
        }
    }

    /// Relies on pc_keyboard::PS2Keyboard::process_keyevent: resolves a
    /// completed key event against the layout and the held modifiers; key
    /// releases and bare modifier changes yield nothing.
    #[verifier::external_body]
    fn process_keyevent(&mut self, event: pc_keyboard::KeyEvent) -> Option<KeyPress> {
        match self.inner.process_keyevent(event) {
            Some(pc_keyboard::DecodedKey::Unicode(c)) => Some(KeyPress::Unicode(c)),
            Some(pc_keyboard::DecodedKey::RawKey(k)) => Some(KeyPress::Raw(format!("{:?}", k))),
            None => None,
        }
    }

    /// Feeds one scancode byte through the decoder. Bytes accumulate until
    /// a key event is structurally complete; only then is a key reported,
    /// classified so that a literal character can never be mistaken for a
    /// control key. A malformed byte is reported as a recoverable error.
    pub fn process_scancode(&mut self, scancode: u8) -> (r: ScancodeOutcome)
        ensures
            r matches ScancodeOutcome::Key(out) ==> exists|k: KeyPress| out == spec_resolve(k),
    {
        match self.add_byte(scancode) {
            Err(e) => ScancodeOutcome::DecodeFailed(e),
            Ok(None) => ScancodeOutcome::NoEvent,
            Ok(Some(event)) => {
                match self.process_keyevent(event) {
                    None => ScancodeOutcome::NoEvent,
                    Some(key) => {
                        let ghost k = key;
                        let out = resolve_key_press(key);
                        assert(out == spec_resolve(k));
                        ScancodeOutcome::Key(out)
                    },
                }
            },
        }
    }
}

} // verus!
