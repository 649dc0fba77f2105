//! The adapter state the interpreter drives: the authoritative 64x32 pixel
//! grid, the bookkeeping logical resolution, the single debounced key
//! record, and the jitter-seeded byte source. Platform reads (key polls,
//! clocks) are handed in as plain values by the caller; the per-step
//! scheduling decision and all grid updates are made here.

use crate::keypad::key_char;
use crate::keypad::key_down;
use crate::keypad::step_halts;
use crate::keypad::step_pressed;
use crate::keypad::KeyEvent;
use crate::keypad::KeyInfo;
use crate::keypad::DEBOUNCE_NANOS;
use rand::rngs::JitterRng;
use vstd::prelude::*;

verus! {

/// Microseconds of real-time stall applied once per scheduling step, from a
/// 600 Hz target step rate.
pub const STALL_MICROS: usize = 1_000_000 / 600;

/// rand's jitter-entropy generator, carried opaquely: nothing of its state
/// is modeled here.
#[verifier::external_type_specification]
#[verifier::external_body]
pub struct ExJitterRng(JitterRng);

/// Relies on rand's `Rng::gen` over a `JitterRng`: one byte from the
/// jitter-entropy generator. Nothing is assumed of the byte's value.
#[verifier::external_body]
fn gen_byte(rng: &mut JitterRng) -> u8 {
    rand::Rng::gen(rng)
}

/// The hardware adapter: everything the interpreter's callback interface
/// needs, owned in one place.
pub struct Hardware {
    vramsz: (usize, usize),
    vram: Vec<bool>,
    pressed: Option<KeyInfo>,
    rng: JitterRng,
}

impl Hardware {
    /// The grid holds exactly one boolean per logical cell.
    pub closed spec fn wf(&self) -> bool {
        self.vram@.len() == 64 * 32
    }

    /// The logical pixel grid, row-major: cell `(x, y)` at index `y*64 + x`.
    pub closed spec fn grid(&self) -> Seq<bool> {
        self.vram@
    }

    /// The current press record.
    pub closed spec fn pressed_rec(&self) -> Option<KeyInfo> {
        self.pressed
    }

    /// The stored logical resolution.
    pub closed spec fn size(&self) -> (usize, usize) {
        self.vramsz
    }

    /// A fresh adapter: grid all dark, no key held, logical resolution not
    /// yet set. The byte source is handed in by the caller.
    pub fn new(rng: JitterRng) -> (r: Hardware)
        ensures
            r.wf(),
            r.grid() == Seq::new(2048nat, |i: int| false),
            r.pressed_rec() is None,
            r.size() == (0usize, 0usize),
    {
        let mut vram: Vec<bool> = Vec::new();
        let mut i: usize = 0;
        while i < 2048
            invariant
                i <= 2048,
                vram@.len() == i,
                forall|j: int| 0 <= j < i ==> !(#[trigger] vram@[j]),
            decreases 2048 - i,
        {
            vram.push(false);
            i = i + 1;
        }
        proof {
            assert(vram@ =~= Seq::new(2048nat, |i: int| false));
        }
        Hardware { vramsz: (0, 0), vram, pressed: None, rng }
    }

    /// One byte from the jitter generator; only the generator state
    /// changes, and nothing is claimed of the byte's value.
    pub fn rand(&mut self) -> (r: u8)
        requires
            old(self).wf(),
        ensures
            final (self).wf(),
            final (self).grid() == old(self).grid(),
            final (self).pressed_rec() == old(self).pressed_rec(),
            final (self).size() == old(self).size(),
    {
        gen_byte(&mut self.rng)
    }

    /// Whether logical key index `key` currently reads as pressed: true
    /// exactly when a record is held and its character is the table entry
    /// for `key`.
    pub fn key(&self, key: u8) -> (r: bool)
        ensures
            r == key_down(self.pressed_rec(), key),
    {
        match &self.pressed {
            Some(p) => match key_char(key) {
                Some(c) => p.key == c,
                None => false,
            },
            None => false,
        }
    }

    /// Record logical cell `(x, y)` as lit or dark. Only that cell changes;
    /// the caller rasterizes the matching physical block.
    pub fn vram_set(&mut self, x: usize, y: usize, d: bool)
        requires
            old(self).wf(),
            x < 64,
            y < 32,
        ensures
            final (self).wf(),
            final (self).grid() == old(self).grid().update(y * 64 + x, d),
            final (self).pressed_rec() == old(self).pressed_rec(),
            final (self).size() == old(self).size(),
    {
        let idx = y * 64 + x;
        self.vram[idx] = d;
    }

    /// The last value set for logical cell `(x, y)`, dark by default.
    pub fn vram_get(&self, x: usize, y: usize) -> (r: bool)
        requires
            self.wf(),
            x < 64,
            y < 32,
        ensures
            r == self.grid()[y * 64 + x],
    {
        self.vram[y * 64 + x]
    }

    /// Store the logical resolution the interpreter requests; pure
    /// bookkeeping, not validated against the fixed grid.
    pub fn vram_setsize(&mut self, size: (usize, usize))
        requires
            old(self).wf(),
        ensures
            final (self).wf(),
            final (self).size() == size,
            final (self).grid() == old(self).grid(),
            final (self).pressed_rec() == old(self).pressed_rec(),
    {
        self.vramsz = size;
    }

    /// The stored logical resolution, `(0, 0)` before the first set.
    pub fn vram_size(&self) -> (r: (usize, usize))
        ensures
            r == self.size(),
    {
        self.vramsz
    }

    /// Sound output is a deliberate no-op.
    pub fn beep(&self) {
    }

    /// One scheduling step, fed the key event this step observed and the
    /// current monotonic time: returns whether the run must terminate, and
    /// steps the press record by the debounce rule. The grid and resolution
    /// are untouched; the caller applies the fixed real-time stall.
    pub fn sched(&mut self, ev: KeyEvent, now: u64) -> (halt: bool)
        requires
            old(self).wf(),
        ensures
            final (self).wf(),
            halt == step_halts(ev),
            final (self).pressed_rec() == step_pressed(old(self).pressed_rec(), ev, now),
            final (self).grid() == old(self).grid(),
            final (self).size() == old(self).size(),
    {
        match ev {
            KeyEvent::Escape => true,
            KeyEvent::Printable(c) => {
                self.pressed = Some(KeyInfo { key: c, time: now });
                false
            },
            KeyEvent::Quiet => {
                let timed_out = match &self.pressed {
                    Some(k) => now.wrapping_sub(k.time) > DEBOUNCE_NANOS,
                    None => false,
                };
                if timed_out {
                    self.pressed = None;
                }
                false
            },
        }
    }
}

/// Setting one grid cell and reading it back gives the value set, and every
/// other cell of the grid is unaffected.
pub proof fn lemma_grid_set_get(g: Seq<bool>, x: int, y: int, v: bool, x2: int, y2: int)
    requires
        g.len() == 2048,
        0 <= x < 64,
        0 <= y < 32,
        0 <= x2 < 64,
        0 <= y2 < 32,
    ensures
        g.update(y * 64 + x, v)[y * 64 + x] == v,
        !(x2 == x && y2 == y) ==> g.update(y * 64 + x, v)[y2 * 64 + x2] == g[y2 * 64 + x2],
{
}

} // verus!
