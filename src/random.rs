//! Sources of random draws, and what the simulation makes of each draw.
//!
//! A draw is a `u32`, read as the fraction `draw / 2^32` of the unit interval.
use vstd::prelude::*;

verus! {

/// Draws below this (a quarter of the range) let a fission proposal through.
pub const FISSION_CUTOFF: u32 = 1_073_741_824;

/// Full momentum range of a detonation neutron along one axis, in steps.
pub const NEUTRON_MOMENTUM: i64 = 100_000;

/// Neutrons released by each starter cap.
pub const DETONATION_NEUTRONS: usize = 10;

/// The number of draws a frame takes from its source is decided by the
/// simulation; what each draw holds, by the source. A replayable source hands
/// out `peek()` and moves to `after()`, so its whole sequence of draws is a
/// function of its state.
pub trait RandomSource: Sized {
    spec fn replayable(&self) -> bool;

    spec fn peek(&self) -> u32;

    spec fn after(&self) -> Self;

    fn next_draw(&mut self) -> (r: u32)
        ensures
            old(self).replayable() ==> r == old(self).peek() && *final(self) == old(self).after()
                && final(self).replayable(),
    ;
}

/// The first `n` draws of a replayable source, and the source after them.
pub open spec fn take_spec<R: RandomSource>(src: R, n: nat) -> (Seq<u32>, R)
    decreases n,
{
    if n == 0 {
        (Seq::empty(), src)
    } else {
        let prev = take_spec(src, (n - 1) as nat);
        (prev.0.push(prev.1.peek()), prev.1.after())
    }
}

/// Taking `m` draws and then `n` more is taking `m + n`.
pub proof fn lemma_take_concat<R: RandomSource>(src: R, m: nat, n: nat)
    ensures
        take_spec(src, m + n) == (
            take_spec(src, m).0 + take_spec(take_spec(src, m).1, n).0,
            take_spec(take_spec(src, m).1, n).1,
        ),
    decreases n,
{
    if n > 0 {
        lemma_take_concat(src, m, (n - 1) as nat);
        let a = take_spec(src, m);
        let b = take_spec(a.1, (n - 1) as nat);
        assert((a.0 + b.0).push(b.1.peek()) =~= a.0 + b.0.push(b.1.peek()));
        assert((m + n - 1) as nat == m + (n - 1) as nat);
    } else {
        assert(take_spec(src, m).0 + Seq::empty() =~= take_spec(src, m).0);
    }
}

/// Relies on rand 0.8's `random`: a value drawn from the thread-local
/// generator, about which nothing is promised.
pub assume_specification<T>[ rand::random::<T> ]() -> (r: T)
    where
        rand::distributions::Standard: rand::distributions::Distribution<T>,
;

/// Draws from the process's thread-local generator; never replayable.
#[derive(Clone, Copy)]
pub struct ThreadRandom;

impl RandomSource for ThreadRandom {
    open spec fn replayable(&self) -> bool {
        false
    }

    closed spec fn peek(&self) -> u32 {
        0
    }

    closed spec fn after(&self) -> Self {
        *self
    }

    fn next_draw(&mut self) -> (r: u32) {
        rand::random::<u32>()
    }
}

/// Hands out a fixed list of draws in order, starting again after the last.
pub struct ScriptedRandom {
    values: Vec<u32>,
    next: usize,
}

impl ScriptedRandom {
    pub closed spec fn script(&self) -> Seq<u32> {
        self.values@
    }

    pub closed spec fn position(&self) -> nat {
        self.next as nat
    }

    pub fn new(values: Vec<u32>) -> (r: ScriptedRandom)
        ensures
            r.script() == values@,
            r.position() == 0,
    {
        ScriptedRandom { values, next: 0 }
    }

    /// The next draw of the script; an empty script always yields zero.
    pub fn draw(&mut self) -> (r: u32)
        ensures
            final(self).script() == old(self).script(),
            old(self).script().len() == 0 ==> r == 0,
            old(self).script().len() > 0 && old(self).position() < old(self).script().len() ==> r
                == old(self).script()[old(self).position() as int] && final(self).position() == (
            old(self).position() + 1) % old(self).script().len(),
            r == old(self).peek(),
            *final(self) == old(self).after(),
    {
        if self.values.len() == 0 {
            return 0;
        }
        if self.next >= self.values.len() {
            self.next = 0;
        }
        let r = self.values[self.next];
        proof {
            let len = self.values@.len();
            if self.next + 1 == len {
                vstd::arithmetic::div_mod::lemma_mod_self_0(len as int);
            } else {
                vstd::arithmetic::div_mod::lemma_small_mod((self.next + 1) as nat, len as nat);
            }
        }
        self.next = if self.next + 1 == self.values.len() {
            0
        } else {
            self.next + 1
        };
        r
    }
}

impl RandomSource for ScriptedRandom {
    open spec fn replayable(&self) -> bool {
        true
    }

    closed spec fn peek(&self) -> u32 {
        if self.values@.len() == 0 {
            0
        } else if self.next < self.values@.len() {
            self.values@[self.next as int]
        } else {
            self.values@[0]
        }
    }

    closed spec fn after(&self) -> Self {
        let at = if self.next < self.values@.len() {
            self.next as int
        } else {
            0
        };
        ScriptedRandom {
            values: self.values,
            next: if self.values@.len() == 0 {
                self.next
            } else if at + 1 == self.values@.len() {
                0
            } else {
                (at + 1) as usize
            },
        }
    }

    fn next_draw(&mut self) -> (r: u32) {
        self.draw()
    }
}

/// A fission proposal goes through when its draw falls in the lowest quarter.
pub open spec fn fission_fires(draw: u32) -> bool {
    draw < FISSION_CUTOFF
}

/// Momentum along one axis of a detonation neutron: the draw mapped onto
/// `[-NEUTRON_MOMENTUM / 2, NEUTRON_MOMENTUM / 2)`.
pub open spec fn blast_momentum(draw: u32) -> int {
    (draw as int * NEUTRON_MOMENTUM) / 0x1_0000_0000 - NEUTRON_MOMENTUM / 2
}

pub fn fission_fires_exec(draw: u32) -> (r: bool)
    ensures
        r == fission_fires(draw),
{
    draw < FISSION_CUTOFF
}

pub fn blast_momentum_exec(draw: u32) -> (r: i64)
    ensures
        r == blast_momentum(draw),
        -NEUTRON_MOMENTUM / 2 <= r < NEUTRON_MOMENTUM / 2,
{
    let scaled: u64 = (draw as u64) * (NEUTRON_MOMENTUM as u64);
    let q: u64 = scaled / 0x1_0000_0000;
    assert(q < NEUTRON_MOMENTUM) by (nonlinear_arith)
        requires
            scaled == draw * NEUTRON_MOMENTUM,
            draw < 0x1_0000_0000,
            q == scaled / 0x1_0000_0000,
    ;
    q as i64 - NEUTRON_MOMENTUM / 2
}

/// Takes `count` draws from `rng`, in order.
pub fn take_draws<R: RandomSource>(rng: &mut R, count: usize) -> (r: Vec<u32>)
    ensures
        r@.len() == count,
        old(rng).replayable() ==> (r@, *final(rng)) == take_spec(*old(rng), count as nat)
            && final(rng).replayable(),
{
    let mut r: Vec<u32> = Vec::new();
    let mut k: usize = 0;
    while k < count
        invariant
            k <= count,
            r@.len() == k,
            old(rng).replayable() ==> (r@, *rng) == take_spec(*old(rng), k as nat)
                && rng.replayable(),
        decreases count - k,
    {
        let d = rng.next_draw();
        r.push(d);
        k = k + 1;
    }
    r
}

} // verus!
