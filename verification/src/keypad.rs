//! Key decoding: the fixed key-index-to-character table, the single-slot
//! "currently pressed" record, and the debounced transition rule applied once
//! per scheduling step.

use vstd::prelude::*;

verus! {

/// Time units a detected press stays reported as held absent a new event.
pub const DEBOUNCE_NANOS: u64 = 200_000_000;

/// The one key the decoder considers pressed: its character and the monotonic
/// time at which the press was recorded.
#[derive(Clone, Copy, PartialEq, Eq, Debug)]
pub struct KeyInfo {
    pub key: char,
    pub time: u64,
}

/// What one poll of the raw key source yielded: nothing, the escape scancode,
/// or a printable character.
#[derive(Clone, Copy, PartialEq, Eq, Debug)]
pub enum KeyEvent {
    Quiet,
    Escape,
    Printable(char),
}

/// The fixed table from the interpreter's 16 key indices to keyboard
/// characters. Indices 0xd, 0xe and 0xf repeat the characters of 6, 9 and
/// 0xb; the collisions are part of the table and are kept as they are.
pub open spec fn spec_key_char(key: u8) -> Option<char> {
    if key == 0 {
        Some('x')
    } else if key == 1 {
        Some('1')
    } else if key == 2 {
        Some('2')
    } else if key == 3 {
        Some('3')
    } else if key == 4 {
        Some('q')
    } else if key == 5 {
        Some('w')
    } else if key == 6 {
        Some('e')
    } else if key == 7 {
        Some('a')
    } else if key == 8 {
        Some('s')
    } else if key == 9 {
        Some('d')
    } else if key == 0xa {
        Some('z')
    } else if key == 0xb {
        Some('c')
    } else if key == 0xc {
        Some('4')
    } else if key == 0xd {
        Some('e')
    } else if key == 0xe {
        Some('d')
    } else if key == 0xf {
        Some('c')
    } else {
        None
    }
}

/// The character a key index maps to, or `None` for an index outside the
/// table.
pub fn key_char(key: u8) -> (r: Option<char>)
    ensures
        r == spec_key_char(key),
{
    match key {
        0 => Some('x'),
        1 => Some('1'),
        2 => Some('2'),
        3 => Some('3'),
        4 => Some('q'),
        5 => Some('w'),
        6 => Some('e'),
        7 => Some('a'),
        8 => Some('s'),
        9 => Some('d'),
        0xa => Some('z'),
        0xb => Some('c'),
        0xc => Some('4'),
        0xd => Some('e'),
        0xe => Some('d'),
        0xf => Some('c'),
        _ => None,
    }
}

/// Elapsed time from `b` to `a` on a wrapping 64-bit counter.
pub open spec fn wrap_diff(a: u64, b: u64) -> u64 {
    vstd::wrapping::u64_specs::wrapping_sub(a, b)
}

/// Whether a key index reads as pressed given the current press record: only
/// a held record whose character equals the index's table entry matches.
pub open spec fn key_down(p: Option<KeyInfo>, key: u8) -> bool {
    match p {
        Some(k) => spec_key_char(key) == Some(k.key),
        None => false,
    }
}

/// The press record after one scheduling step that saw `ev` at time `now`:
/// a printable event overwrites the record, an escape event leaves it alone,
/// and a quiet step clears a record older than the debounce window.
pub open spec fn step_pressed(p: Option<KeyInfo>, ev: KeyEvent, now: u64) -> Option<KeyInfo> {
    match ev {
        KeyEvent::Escape => p,
        KeyEvent::Printable(c) => Some(KeyInfo { key: c, time: now }),
        KeyEvent::Quiet => match p {
            Some(k) => if wrap_diff(now, k.time) > DEBOUNCE_NANOS {
                None
            } else {
                Some(k)
            },
            None => None,
        },
    }
}

/// Whether one scheduling step that saw `ev` asks the run to terminate.
pub open spec fn step_halts(ev: KeyEvent) -> bool {
    ev is Escape
}

/// A key pressed at time `t` stays held through a quiet step at any time
/// within the debounce window of `t` (wrapping), and the matching key index
/// still reads as pressed afterwards.
pub proof fn lemma_debounce_hold(c: char, t: u64, now: u64, key: u8)
    requires
        wrap_diff(now, t) <= DEBOUNCE_NANOS,
        spec_key_char(key) == Some(c),
    ensures
        step_pressed(Some(KeyInfo { key: c, time: t }), KeyEvent::Quiet, now) == (Some(
            KeyInfo { key: c, time: t },
        )),
        key_down(step_pressed(Some(KeyInfo { key: c, time: t }), KeyEvent::Quiet, now), key),
{
}

/// A quiet step strictly past the debounce window releases the key: the
/// record is cleared and no key index reads as pressed any more.
pub proof fn lemma_debounce_release(c: char, t: u64, now: u64, key: u8)
    requires
        wrap_diff(now, t) > DEBOUNCE_NANOS,
    ensures
        step_pressed(Some(KeyInfo { key: c, time: t }), KeyEvent::Quiet, now) is None,
        !key_down(step_pressed(Some(KeyInfo { key: c, time: t }), KeyEvent::Quiet, now), key),
{
}

/// A second press replaces the held record even while the first key's
/// debounce window is still open: afterwards the record holds the new
/// character and new time, and an index mapping to the first character no
/// longer reads as pressed.
pub proof fn lemma_press_overwrites(a: char, b: char, t1: u64, t2: u64, key: u8)
    requires
        spec_key_char(key) == Some(a),
        a != b,
    ensures
        step_pressed(Some(KeyInfo { key: a, time: t1 }), KeyEvent::Printable(b), t2) == (Some(
            KeyInfo { key: b, time: t2 },
        )),
        !key_down(step_pressed(Some(KeyInfo { key: a, time: t1 }), KeyEvent::Printable(b), t2), key),
{
}

/// The table's duplicate target characters make three pairs of key indices
/// indistinguishable to the press query, in every decoder state: 6 and 0xd
/// share 'e', 9 and 0xe share 'd', 0xb and 0xf share 'c'.
pub proof fn lemma_table_collisions(p: Option<KeyInfo>)
    ensures
        key_down(p, 6) == key_down(p, 0xd),
        key_down(p, 9) == key_down(p, 0xe),
        key_down(p, 0xb) == key_down(p, 0xf),
{
}

/// An escape event halts the run on that very step and leaves the press
/// record exactly as it was, whatever state the decoder is in.
pub proof fn lemma_escape_halts(p: Option<KeyInfo>, now: u64)
    ensures
        step_halts(KeyEvent::Escape),
        step_pressed(p, KeyEvent::Escape, now) == p,
{
}

} // verus!
