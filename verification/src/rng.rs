use vstd::prelude::*;

verus! {

/// The state the generator starts from before it is seeded.
pub const INITIAL_STATE: u64 = 0x9E3779B97F4A7C15;

/// One step of the xorshift64 generator (shifts 13, 7, 17).
pub open spec fn xorshift_step(x: u64) -> u64 {
    let a = x ^ (x << 13u64);
    let b = a ^ (a >> 7u64);
    b ^ (b << 17u64)
}

/// A xorshift64 pseudo-random generator.
pub struct Rng {
    state: u64,
}

impl View for Rng {
    type V = u64;

    closed spec fn view(&self) -> u64 {
        self.state
    }
}

impl Rng {
    /// A generator in its unseeded initial state.
    pub fn new() -> (r: Rng)
        ensures
            r@ == INITIAL_STATE,
    {
        Rng { state: INITIAL_STATE }
    }

    /// A generator whose state is exactly `state`.
    pub fn from_state(state: u64) -> (r: Rng)
        ensures
            r@ == state,
    {
        Rng { state }
    }

    /// The current state.
    pub fn state(&self) -> (s: u64)
        ensures
            s == self@,
    {
        self.state
    }

    /// Advances the generator one step and returns the new state.
    pub fn next_rand(&mut self) -> (r: u64)
        ensures
            r == xorshift_step(old(self)@),
            final(self)@ == r,
    {
        let mut x = self.state;
        x = x ^ (x << 13u64);
        x = x ^ (x >> 7u64);
        x = x ^ (x << 17u64);
        self.state = x;
        x
    }

    /// Advances the generator and returns the low 32 bits of the new state.
    pub fn rand_u32(&mut self) -> (r: u32)
        ensures
            r == xorshift_step(old(self)@) as u32,
            final(self)@ == xorshift_step(old(self)@),
    {
        let x = self.next_rand();
        x as u32
    }

    /// Advances the generator and returns the top 53 bits of the new state:
    /// the numerator `k` of the uniform value `k / 2^53` in `[0, 1)`.
    pub fn rand_unit53(&mut self) -> (k: u64)
        ensures
            k == xorshift_step(old(self)@) >> 11u64,
            k < 0x20_0000_0000_0000,
            final(self)@ == xorshift_step(old(self)@),
    {
        let x = self.next_rand();
        let k = x >> 11u64;
        assert(x >> 11u64 < 0x20_0000_0000_0000u64) by (bit_vector);
        k
    }
}

/// Seeds the generator from the time since the epoch in nanoseconds; where
/// the clock gave no reading the state is left as it was.
pub fn init_random(rng: &mut Rng, since_epoch_nanos: Option<u64>)
    ensures
        final(rng)@ == match since_epoch_nanos {
            Some(t) => t ^ INITIAL_STATE,
            None => old(rng)@,
        },
{
    if let Some(t) = since_epoch_nanos {
        *rng = Rng::from_state(t ^ INITIAL_STATE);
    }
}

} // verus!
