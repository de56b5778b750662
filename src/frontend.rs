//! What the machine needs from its host: the state of the sixteen keys, and a
//! front end that shows the display, polls input and waits for a key press.

use vstd::prelude::*;
use crate::memory::DisplayBuffer;

verus! {

/// Number of keys on the keypad.
pub const KEY_COUNT: usize = 16;

/// One key: down (`true`) or up.
#[derive(Clone, Copy)]
pub struct Key(pub bool);

/// The state of the sixteen keys, indexed by key number.
pub struct Keys([Key; 16]);

impl View for Keys {
    type V = Seq<bool>;

    closed spec fn view(&self) -> Seq<bool> {
        Seq::new(KEY_COUNT as nat, |k: int| self.0@[k].0)
    }
}

impl Keys {
    /// Whether key `k` is down.
    pub fn is_down(&self, k: usize) -> (r: bool)
        requires
            k < KEY_COUNT,
        ensures
            r == self@[k as int],
    {
        self.0[k].0
    }

    /// Marks key `k` as down or up.
    pub fn set(&mut self, k: usize, down: bool)
        requires
            k < KEY_COUNT,
        ensures
            final(self)@ == old(self)@.update(k as int, down),
    {
        self.0[k] = Key(down);
        assert(self@ =~= old(self)@.update(k as int, down));
    }
}

impl Default for Keys {
    fn default() -> (r: Keys)
        ensures
            r@ == Seq::new(KEY_COUNT as nat, |k: int| false),
    {
        let r = Keys([Key(false); 16]);
        assert(r@ =~= Seq::new(KEY_COUNT as nat, |k: int| false));
        r
    }
}

/// The host side of the machine: renders the display, polls input, reports a
/// quit request and waits for a key press.
pub trait FrontEnd {
    /// Shows the display.
    fn draw(&mut self, data: &DisplayBuffer);

    /// Polls input and returns the state of the keys.
    fn get_keys(&mut self) -> &Keys;

    /// Whether a quit was requested.
    fn should_quit(&self) -> bool;

    /// Polls input, noting a quit request.
    fn update(&mut self);

    /// Blocks until a key goes down and returns its number; `None` where a
    /// quit was requested during the wait.
    fn wait_for_keypress(&mut self) -> Option<u8>;
}

/// A front end with no window and no input: every key stays up, no quit is
/// ever requested, and a wait for a key returns key 0 at once.
pub struct MockFrontEnd {
    pub keys: Keys,
}

impl Default for MockFrontEnd {
    fn default() -> (r: MockFrontEnd)
        ensures
            r.keys@ == Seq::new(KEY_COUNT as nat, |k: int| false),
    {
        MockFrontEnd { keys: Keys::default() }
    }
}

impl FrontEnd for MockFrontEnd {
    fn draw(&mut self, _data: &DisplayBuffer) {
    }

    fn get_keys(&mut self) -> &Keys {
        &self.keys
    }

    fn should_quit(&self) -> bool {
        false
    }

    fn update(&mut self) {
    }

    fn wait_for_keypress(&mut self) -> Option<u8> {
        Some(0)
    }
}

/// The key number of a keyboard character on the usual layout, which puts
/// the 4x4 keypad `1 2 3 C / 4 5 6 D / 7 8 9 E / A 0 B F` on the keys
/// `1 2 3 4 / Q W E R / A S D F / Z X C V` (letters in either case); `None`
/// for any other character.
pub open spec fn keypad_key(c: char) -> Option<usize> {
    if c == '1' {
        Some(0x1)
    } else if c == '2' {
        Some(0x2)
    } else if c == '3' {
        Some(0x3)
    } else if c == '4' {
        Some(0xC)
    } else if c == 'q' || c == 'Q' {
        Some(0x4)
    } else if c == 'w' || c == 'W' {
        Some(0x5)
    } else if c == 'e' || c == 'E' {
        Some(0x6)
    } else if c == 'r' || c == 'R' {
        Some(0xD)
    } else if c == 'a' || c == 'A' {
        Some(0x7)
    } else if c == 's' || c == 'S' {
        Some(0x8)
    } else if c == 'd' || c == 'D' {
        Some(0x9)
    } else if c == 'f' || c == 'F' {
        Some(0xE)
    } else if c == 'z' || c == 'Z' {
        Some(0xA)
    } else if c == 'x' || c == 'X' {
        Some(0x0)
    } else if c == 'c' || c == 'C' {
        Some(0xB)
    } else if c == 'v' || c == 'V' {
        Some(0xF)
    } else {
        None
    }
}

/// The key number that keyboard character `key` stands for.
pub fn get_key_index(key: char) -> (r: Option<usize>)
    ensures
        r == keypad_key(key),
        r matches Some(k) ==> k < KEY_COUNT,
{
    match key {
        '1' => Some(0x1),
        '2' => Some(0x2),
        '3' => Some(0x3),
        '4' => Some(0xC),
        'q' | 'Q' => Some(0x4),
        'w' | 'W' => Some(0x5),
        'e' | 'E' => Some(0x6),
        'r' | 'R' => Some(0xD),
        'a' | 'A' => Some(0x7),
        's' | 'S' => Some(0x8),
        'd' | 'D' => Some(0x9),
        'f' | 'F' => Some(0xE),
        'z' | 'Z' => Some(0xA),
        'x' | 'X' => Some(0x0),
        'c' | 'C' => Some(0xB),
        'v' | 'V' => Some(0xF),
        _ => None,
    }
}

} // verus!
