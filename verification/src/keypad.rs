//! Debounced keypad state.
//!
//! Each of the sixteen logical keys keeps two counters: how many ticks ago it
//! was last pressed and how many ticks ago it was last released, both clamped
//! at [`AGE_CAP`]. A key counts as pressed (or released) while the matching
//! counter is still within the debounce window of [`DEBOUNCE_WINDOW`] ticks.

use vstd::prelude::*;

verus! {

/// Upper clamp for both debounce counters.
pub const AGE_CAP: u8 = 60;

/// A key event is observable for this many ticks after it happened.
pub const DEBOUNCE_WINDOW: u8 = 3;

/// Debounce state of one logical key.
#[derive(Clone, Copy, PartialEq, Eq, Structural, Debug)]
pub struct KeyState {
    /// Ticks since the key was last pressed, clamped at `AGE_CAP`.
    pub pressed_frames_ago: u8,
    /// Ticks since the key was last released, clamped at `AGE_CAP`.
    pub released_frames_ago: u8,
}

/// A counter aged by one tick, clamped at `AGE_CAP`.
pub open spec fn aged(a: u8) -> u8 {
    if a >= 60 {
        60
    } else {
        (a + 1) as u8
    }
}

/// A counter aged by `j` ticks, clamped at `AGE_CAP`.
pub open spec fn aged_by(a: u8, j: nat) -> u8
    decreases j,
{
    if j == 0 {
        a
    } else {
        aged(aged_by(a, (j - 1) as nat))
    }
}

impl KeyState {
    /// Both counters are within their clamp.
    pub open spec fn wf(self) -> bool {
        self.pressed_frames_ago <= 60 && self.released_frames_ago <= 60
    }

    /// The state after one tick of aging.
    pub open spec fn aged_key(self) -> KeyState {
        KeyState {
            pressed_frames_ago: aged(self.pressed_frames_ago),
            released_frames_ago: aged(self.released_frames_ago),
        }
    }

    /// A fresh key: both events lie beyond the debounce window.
    pub fn new() -> (r: KeyState)
        ensures
            r == (KeyState { pressed_frames_ago: 60, released_frames_ago: 60 }),
            r.wf(),
    {
        KeyState { pressed_frames_ago: 60, released_frames_ago: 60 }
    }

    /// Record a press event: the press counter restarts at zero.
    pub fn press(&mut self)
        ensures
            *final(self) == (KeyState { pressed_frames_ago: 0, ..*old(self) }),
    {
        self.pressed_frames_ago = 0;
    }

    /// Record a release event: the release counter restarts at zero.
    pub fn release(&mut self)
        ensures
            *final(self) == (KeyState { released_frames_ago: 0, ..*old(self) }),
    {
        self.released_frames_ago = 0;
    }

    /// Age the press counter by one tick, clamped.
    pub fn update_pressed(&mut self)
        requires
            old(self).wf(),
        ensures
            final(self).wf(),
            *final(self) == (KeyState {
                pressed_frames_ago: aged(old(self).pressed_frames_ago),
                ..*old(self)
            }),
    {
        if self.pressed_frames_ago >= 60 {
            self.pressed_frames_ago = 60;
        } else {
            self.pressed_frames_ago = self.pressed_frames_ago + 1;
        }
    }

    /// Age the release counter by one tick, clamped.
    pub fn update_released(&mut self)
        requires
            old(self).wf(),
        ensures
            final(self).wf(),
            *final(self) == (KeyState {
                released_frames_ago: aged(old(self).released_frames_ago),
                ..*old(self)
            }),
    {
        if self.released_frames_ago >= 60 {
            self.released_frames_ago = 60;
        } else {
            self.released_frames_ago = self.released_frames_ago + 1;
        }
    }

    /// Whether the key counts as pressed: the last press is at most
    /// `DEBOUNCE_WINDOW` ticks old.
    pub fn is_pressed(&self) -> (r: bool)
        ensures
            r == (self.pressed_frames_ago <= 3),
    {
        self.pressed_frames_ago <= 3
    }

    /// Whether the key counts as released: the last release is at most
    /// `DEBOUNCE_WINDOW` ticks old.
    pub fn is_released(&self) -> (r: bool)
        ensures
            r == (self.released_frames_ago <= 3),
    {
        self.released_frames_ago <= 3
    }
}

/// A counter that starts at zero reads `j` after `j` ticks of aging, up to the
/// clamp.
pub proof fn lemma_aged_from_zero(j: nat)
    ensures
        aged_by(0, j) == if j <= 60 {
            j as u8
        } else {
            60u8
        },
    decreases j,
{
    if j > 0 {
        lemma_aged_from_zero((j - 1) as nat);
    }
}

/// Debounce window: a key pressed at some tick still reads as pressed for the
/// next `DEBOUNCE_WINDOW` ticks, and no longer afterwards. In terms of the
/// counters: a press counter that restarted at zero is within the window
/// after `j` further ticks of aging exactly when `j <= DEBOUNCE_WINDOW`.
pub proof fn lemma_debounce_window(j: nat)
    ensures
        (aged_by(0, j) <= 3) <==> j <= 3,
{
    lemma_aged_from_zero(j);
}

/// The logical key, if any, that a single-character key label maps to.
///
/// The left four-by-four block of a QWERTY keyboard stands for the sixteen
/// CHIP-8 keys, `1` through `v` mapping onto `0x0`..`0xF` in the historical
/// layout.
pub open spec fn key_code_of(s: Seq<char>) -> Option<u8> {
    if s.len() != 1 {
        None
    } else {
        char_key_code(s[0])
    }
}

/// The logical key a single character stands for.
pub open spec fn char_key_code(c: char) -> Option<u8> {
    match c {
        '1' => Some(0x1u8),
        '2' => Some(0x2u8),
        '3' => Some(0x3u8),
        '4' => Some(0xCu8),
        'q' => Some(0x4u8),
        'w' => Some(0x5u8),
        'e' => Some(0x6u8),
        'r' => Some(0xDu8),
        'a' => Some(0x7u8),
        's' => Some(0x8u8),
        'd' => Some(0x9u8),
        'f' => Some(0xEu8),
        'z' => Some(0xAu8),
        'x' => Some(0x0u8),
        'c' => Some(0xBu8),
        'v' => Some(0xFu8),
        _ => None,
    }
}

/// Translate a key label, as the host reports it, into a logical key code.
///
/// ```text
/// 1 2 3 4        1 2 3 C
/// q w e r   -->  4 5 6 D
/// a s d f        7 8 9 E
/// z x c v        A 0 B F
/// ```
pub fn get_key(key: &str) -> (r: Option<u8>)
    ensures
        r == key_code_of(key@),
        r matches Some(k) ==> k < 16,
{
    if key.unicode_len() == 1 {
        let c = key.get_char(0);
        match c {
            '1' => Some(0x1u8),
            '2' => Some(0x2u8),
            '3' => Some(0x3u8),
            '4' => Some(0xCu8),
            'q' => Some(0x4u8),
            'w' => Some(0x5u8),
            'e' => Some(0x6u8),
            'r' => Some(0xDu8),
            'a' => Some(0x7u8),
            's' => Some(0x8u8),
            'd' => Some(0x9u8),
            'f' => Some(0xEu8),
            'z' => Some(0xAu8),
            'x' => Some(0x0u8),
            'c' => Some(0xBu8),
            'v' => Some(0xFu8),
            _ => None,
        }
    } else {
        None
    }
}

} // verus!
