//! Input and window events, and their encoding as a generic `Event` record.
use vstd::prelude::*;

verus! {

/// Keyboard scancodes.
pub const K_ESC: u8 = 0x01;
pub const K_BKSP: u8 = 0x0E;
pub const K_TAP: u8 = 0x0F;
pub const K_CTRL: u8 = 0x1D;
pub const K_ALT: u8 = 0x38;
pub const K_F1: u8 = 0x3B;
pub const K_F2: u8 = 0x3C;
pub const K_F3: u8 = 0x3D;
pub const K_F4: u8 = 0x3E;
pub const K_F5: u8 = 0x3F;
pub const K_F6: u8 = 0x40;
pub const K_F7: u8 = 0x41;
pub const K_F8: u8 = 0x42;
pub const K_F9: u8 = 0x43;
pub const K_F10: u8 = 0x44;
pub const K_HOME: u8 = 0x47;
pub const K_UP: u8 = 0x48;
pub const K_PGUP: u8 = 0x49;
pub const K_LEFT: u8 = 0x4B;
pub const K_RIGHT: u8 = 0x4D;
pub const K_END: u8 = 0x4F;
pub const K_DOWN: u8 = 0x50;
pub const K_PGDN: u8 = 0x51;
pub const K_DEL: u8 = 0x53;
pub const K_F11: u8 = 0x57;
pub const K_F12: u8 = 0x58;

/// What a redraw event asks for.
pub const REDRAW_NONE: usize = 0;
pub const REDRAW_CURSOR: usize = 1;
pub const REDRAW_ALL: usize = 2;

/// The generic event record: a kind code and five integer fields.
#[derive(Clone, Copy, Debug, PartialEq, Eq, Structural)]
pub struct Event {
    pub code: char,
    pub a: isize,
    pub b: isize,
    pub c: isize,
    pub d: isize,
    pub e: isize,
}

/// An event decoded by its kind code.
#[derive(Clone, Debug)]
pub enum EventOption {
    Mouse(MouseEvent),
    Key(KeyEvent),
    Redraw(RedrawEvent),
    Open(OpenEvent),
    Unknown(Event),
    Empty,
}

#[derive(Clone, Copy, Debug, PartialEq, Eq, Structural)]
pub struct MouseEvent {
    pub x: isize,
    pub y: isize,
    pub left_button: bool,
    pub right_button: bool,
    pub middle_button: bool,
    pub valid: bool,
}

#[derive(Clone, Copy, Debug, PartialEq, Eq, Structural)]
pub struct KeyEvent {
    pub character: char,
    pub scancode: u8,
    pub pressed: bool,
}

#[derive(Clone, Copy, Debug, PartialEq, Eq, Structural)]
pub struct RedrawEvent {
    pub redraw: usize,
}

/// A request to open a URL. The record carries the address of the URL's
/// text; the platform stores and fetches the text itself.
#[derive(Clone, Debug)]
pub struct OpenEvent {
    pub url_string: String,
}

pub open spec fn flag(b: bool) -> isize {
    if b {
        1
    } else {
        0
    }
}

fn flag_of(b: bool) -> (r: isize)
    ensures
        r == flag(b),
{
    if b {
        1
    } else {
        0
    }
}

/// Whether `u` is a Unicode scalar value.
pub open spec fn is_scalar(u: u32) -> bool {
    u < 0xD800 || (0xE000 <= u && u <= 0x10FFFF)
}

/// Relies on `char::from_u32`: a character exactly for the scalar values,
/// with that code point.
#[verifier::external_body]
fn char_from_code(u: u32) -> (r: Option<char>)
    ensures
        r.is_some() == is_scalar(u),
        r matches Some(c) ==> c as u32 == u,
{
    char::from_u32(u)
}

/// `k` is the key event that `e` encodes: a field `a` that is no
/// character decodes as NUL.
pub open spec fn decodes_key(e: Event, k: KeyEvent) -> bool {
    &&& k.scancode == e.b as u8
    &&& k.pressed == (e.c > 0)
    &&& is_scalar(e.a as u32) ==> k.character as u32 == e.a as u32
    &&& !is_scalar(e.a as u32) ==> k.character == '\0'
}

impl Event {
    /// Decodes the event by its kind code: `m`, `k`, `r`, `o`; NUL is no event.
    /// An open request comes with empty text: its text is at the address in
    /// `a`, which only the platform can read (`OpenEvent::from_event`).
    pub fn to_option(self) -> (r: EventOption)
        ensures
            self.code == 'm' ==> r == EventOption::Mouse(MouseEvent::spec_from_event(self)),
            self.code == 'k' ==> (r matches EventOption::Key(k) && decodes_key(self, k)),
            self.code == 'r' ==> r == EventOption::Redraw(RedrawEvent { redraw: self.a as usize }),
            self.code == 'o' ==> (r matches EventOption::Open(_)),
            self.code == '\0' ==> r == EventOption::Empty,
            !(self.code == 'm' || self.code == 'k' || self.code == 'r' || self.code == 'o'
                || self.code == '\0') ==> r == EventOption::Unknown(self),
    {
        if self.code == 'm' {
            EventOption::Mouse(MouseEvent::from_event(self))
        } else if self.code == 'k' {
            EventOption::Key(KeyEvent::from_event(self))
        } else if self.code == 'r' {
            EventOption::Redraw(RedrawEvent::from_event(self))
        } else if self.code == 'o' {
            EventOption::Open(OpenEvent { url_string: String::new() })
        } else if self.code == '\0' {
            EventOption::Empty
        } else {
            EventOption::Unknown(self)
        }
    }
}

impl MouseEvent {
    pub open spec fn spec_from_event(event: Event) -> MouseEvent {
        MouseEvent {
            x: event.a,
            y: event.b,
            left_button: event.c > 0,
            middle_button: event.d > 0,
            right_button: event.e > 0,
            valid: true,
        }
    }

    pub fn to_event(&self) -> (r: Event)
        ensures
            r == (Event {
                code: 'm',
                a: self.x,
                b: self.y,
                c: flag(self.left_button),
                d: flag(self.middle_button),
                e: flag(self.right_button),
            }),
    {
        Event {
            code: 'm',
            a: self.x,
            b: self.y,
            c: flag_of(self.left_button),
            d: flag_of(self.middle_button),
            e: flag_of(self.right_button),
        }
    }

    pub fn from_event(event: Event) -> (r: MouseEvent)
        ensures
            r == MouseEvent::spec_from_event(event),
    {
        MouseEvent {
            x: event.a,
            y: event.b,
            left_button: event.c > 0,
            middle_button: event.d > 0,
            right_button: event.e > 0,
            valid: true,
        }
    }
}

impl KeyEvent {
    pub fn to_event(&self) -> (r: Event)
        ensures
            r == (Event {
                code: 'k',
                a: self.character as u32 as isize,
                b: self.scancode as isize,
                c: flag(self.pressed),
                d: 0,
                e: 0,
            }),
    {
        Event {
            code: 'k',
            a: self.character as u32 as isize,
            b: self.scancode as isize,
            c: flag_of(self.pressed),
            d: 0,
            e: 0,
        }
    }

    /// Decodes a key event; a field `a` that is no character gives NUL.
    pub fn from_event(event: Event) -> (r: KeyEvent)
        ensures
            decodes_key(event, r),
    {
        let character = match char_from_code(event.a as u32) {
            Some(c) => c,
            None => '\0',
        };
        KeyEvent { character, scancode: event.b as u8, pressed: event.c > 0 }
    }
}

impl OpenEvent {
    /// The record of this request once its text is stored at `address`.
    pub fn to_event(&self, address: usize) -> (r: Event)
        ensures
            r == (Event { code: 'o', a: address as isize, b: 0, c: 0, d: 0, e: 0 }),
    {
        Event { code: 'o', a: address as isize, b: 0, c: 0, d: 0, e: 0 }
    }

    /// The request of a record, given the text fetched from the address in `a`.
    pub fn from_event(event: Event, url_string: String) -> (r: OpenEvent)
        ensures
            r.url_string@ == url_string@,
    {
        OpenEvent { url_string }
    }
}

impl RedrawEvent {
    pub fn to_event(&self) -> (r: Event)
        ensures
            r == (Event { code: 'r', a: self.redraw as isize, b: 0, c: 0, d: 0, e: 0 }),
    {
        Event { code: 'r', a: self.redraw as isize, b: 0, c: 0, d: 0, e: 0 }
    }

    pub fn from_event(event: Event) -> (r: RedrawEvent)
        ensures
            r == (RedrawEvent { redraw: event.a as usize }),
    {
        RedrawEvent { redraw: event.a as usize }
    }
}

/// Encoding a mouse event and decoding it again gives the same event back,
/// for a valid event.
pub proof fn lemma_mouse_round_trip(m: MouseEvent)
    requires
        m.valid,
    ensures
        MouseEvent::spec_from_event(
            Event {
                code: 'm',
                a: m.x,
                b: m.y,
                c: flag(m.left_button),
                d: flag(m.middle_button),
                e: flag(m.right_button),
            },
        ) == m,
{
}

} // verus!
