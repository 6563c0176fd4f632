use vstd::prelude::*;

verus! {

/// A linear congruential noise source: each draw multiplies the state by
/// `mul` and adds `inc`, modulo 2^32, and yields the state's high bits.
#[derive(Clone, Copy, Debug, PartialEq, Eq)]
pub struct Noise {
    pub state: u32,
    pub mul: u32,
    pub inc: u32,
    /// Low bits dropped from the state to make a draw.
    pub shift: u32,
}

/// The next state of a linear congruential generator.
pub open spec fn lcg_next(state: u32, mul: u32, inc: u32) -> u32 {
    ((state as int * mul as int + inc as int) % 0x1_0000_0000) as u32
}

impl Noise {
    /// The snare's noise source.
    pub fn snare() -> (n: Noise)
        ensures
            n == (Noise { state: 0x12345678, mul: 1664525, inc: 1013904223, shift: 9 }),
    {
        Noise { state: 0x12345678, mul: 1664525, inc: 1013904223, shift: 9 }
    }

    /// The hat's noise source.
    pub fn hat() -> (n: Noise)
        ensures
            n == (Noise { state: 0xdeadbeef, mul: 1103515245, inc: 12345, shift: 10 }),
    {
        Noise { state: 0xdeadbeef, mul: 1103515245, inc: 12345, shift: 10 }
    }

    /// The clap's noise source.
    pub fn clap() -> (n: Noise)
        ensures
            n == (Noise { state: 0xa5a5a5a5, mul: 22695477, inc: 1, shift: 11 }),
    {
        Noise { state: 0xa5a5a5a5, mul: 22695477, inc: 1, shift: 11 }
    }

    /// The rim shot's noise source.
    pub fn rim() -> (n: Noise)
        ensures
            n == (Noise { state: 0x31415926, mul: 1664525, inc: 1013904223, shift: 9 }),
    {
        Noise { state: 0x31415926, mul: 1664525, inc: 1013904223, shift: 9 }
    }

    /// Moves the generator on and returns the draw together with the largest
    /// draw possible, so that `draw / full` lies in `[0, 1]`.
    pub fn draw(&mut self) -> (r: (u32, u32))
        requires
            old(self).shift < 32,
        ensures
            final(self).state == lcg_next(old(self).state, old(self).mul, old(self).inc),
            final(self).mul == old(self).mul,
            final(self).inc == old(self).inc,
            final(self).shift == old(self).shift,
            r.0 == final(self).state >> old(self).shift,
            r.1 == u32::MAX >> old(self).shift,
            r.0 <= r.1,
    {
        proof {
            let x = self.state as int * self.mul as int;
            assert(0 <= x) by (nonlinear_arith)
                requires
                    x == self.state as int * self.mul as int,
            ;
            vstd::arithmetic::div_mod::lemma_add_mod_noop(x, self.inc as int, 0x1_0000_0000);
            vstd::arithmetic::div_mod::lemma_mod_twice(self.inc as int, 0x1_0000_0000);
            assert((x % 0x1_0000_0000) as u32 == self.state.wrapping_mul(self.mul));
        }
        self.state = self.state.wrapping_mul(self.mul).wrapping_add(self.inc);
        let s = self.state;
        let sh = self.shift;
        assert(s >> sh <= u32::MAX >> sh) by (bit_vector)
            requires
                sh < 32,
        ;
        (s >> sh, u32::MAX >> sh)
    }
}

/// Whether the clap sounds at `burst` samples after it was struck: it claps
/// three times, over samples 0 to 250, 381 to 620 and 761 to 1100, and is
/// silent between and after.
pub fn clap_gate_open(burst: usize) -> (open: bool)
    ensures
        open == (burst <= 250 || (381 <= burst <= 620) || (761 <= burst <= 1100)),
{
    burst <= 250 || (381 <= burst && burst <= 620) || (761 <= burst && burst <= 1100)
}

} // verus!
