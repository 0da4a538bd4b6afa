//! Serial console input: turns received bytes into key events.
//!
//! Escape sequences `ESC [ A`..`ESC [ D` become the arrow-key scancodes; the
//! bytes of a sequence emit nothing until its last one.
use vstd::prelude::*;
use crate::event::{KeyEvent, K_BKSP, K_DOWN, K_LEFT, K_RIGHT, K_UP};

verus! {

pub const ESC: u8 = 0x1B;

#[derive(Clone, Copy, Debug, PartialEq, Eq, Structural)]
pub struct Serial {
    pub port: u16,
    pub irq: u8,
    pub escape: bool,
    pub cursor_control: bool,
}

/// The scancode of the arrow key that ends a cursor-control sequence, or 0.
pub open spec fn arrow_scancode(byte: u8) -> u8 {
    if byte == 65 {
        K_UP
    } else if byte == 66 {
        K_DOWN
    } else if byte == 67 {
        K_RIGHT
    } else if byte == 68 {
        K_LEFT
    } else {
        0
    }
}

/// The event for a key with this character and scancode, if it is one.
pub open spec fn key(c: char, sc: u8) -> Option<KeyEvent> {
    if c != '\0' || sc != 0 {
        Some(KeyEvent { character: c, scancode: sc, pressed: true })
    } else {
        None
    }
}

/// What one received byte does: the next `(escape, cursor_control)` state and
/// the key event it emits.
pub open spec fn serial_step(escape: bool, cursor_control: bool, byte: u8) -> (bool, bool, Option<KeyEvent>) {
    if escape {
        (false, byte == 91, None)
    } else if cursor_control {
        (false, false, key('\0', arrow_scancode(byte)))
    } else if byte == 27 {
        (true, false, None)
    } else if byte == 13 {
        (false, false, key('\n', 0))
    } else if byte == 127 {
        (false, false, key('\0', K_BKSP))
    } else {
        (false, false, key(byte as char, 0))
    }
}

impl Serial {
    pub fn new(port: u16, irq: u8) -> (r: Serial)
        ensures
            r == (Serial { port, irq, escape: false, cursor_control: false }),
    {
        Serial { port, irq, escape: false, cursor_control: false }
    }

    /// Port of the line-status register; bit 0 says a byte is waiting.
    pub fn status_port(&self) -> (r: u16)
        requires
            self.port <= u16::MAX - 5,
        ensures
            r == self.port + 5,
    {
        self.port + 5
    }

    /// Whether an interrupt on line `irq` is this port's.
    pub fn handles(&self, irq: u8) -> (r: bool)
        ensures
            r == (irq == self.irq),
    {
        irq == self.irq
    }

    /// Takes in one received byte and returns the key event it completes.
    pub fn on_byte(&mut self, byte: u8) -> (r: Option<KeyEvent>)
        ensures
            (final(self).escape, final(self).cursor_control, r) == serial_step(
                old(self).escape,
                old(self).cursor_control,
                byte,
            ),
            final(self).port == old(self).port,
            final(self).irq == old(self).irq,
    {
        let mut c: char = byte as char;
        let mut sc: u8 = 0;
        if self.escape {
            self.escape = false;
            self.cursor_control = byte == 91;
            c = '\0';
        } else if self.cursor_control {
            self.cursor_control = false;
            if byte == 65 {
                sc = K_UP;
            } else if byte == 66 {
                sc = K_DOWN;
            } else if byte == 67 {
                sc = K_RIGHT;
            } else if byte == 68 {
                sc = K_LEFT;
            }
            c = '\0';
        } else if byte == ESC {
            self.escape = true;
            c = '\0';
        } else if byte == 13 {
            c = '\n';
        } else if byte == 127 {
            sc = K_BKSP;
            c = '\0';
        }
        if c != '\0' || sc != 0 {
            Some(KeyEvent { character: c, scancode: sc, pressed: true })
        } else {
            None
        }
    }
}

/// The sequence `ESC [ A` from an idle port emits one event, the up-arrow
/// scancode with no character, and its first two bytes emit nothing.
pub proof fn lemma_arrow_sequence()
    ensures
        serial_step(false, false, 27) == (true, false, Option::<KeyEvent>::None),
        serial_step(true, false, 91) == (false, true, Option::<KeyEvent>::None),
        serial_step(false, true, 65) == (false, false, Some(KeyEvent { character: '\0', scancode: K_UP, pressed: true })),
{
}

/// After an escape, any byte but `[` returns the port to idle.
pub proof fn lemma_escape_then_other_is_idle(cursor_control: bool, byte: u8)
    requires
        byte != 91,
    ensures
        serial_step(true, cursor_control, byte) == (false, false, Option::<KeyEvent>::None),
{
}

/// The bytes that open an escape sequence never emit an event.
pub proof fn lemma_escape_is_silent(escape: bool, cursor_control: bool, byte: u8)
    requires
        !cursor_control || escape,
        byte == 27 || escape,
    ensures
        serial_step(escape, cursor_control, byte).2 is None,
{
}

} // verus!
