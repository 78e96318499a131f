//! The two countdown timers. Each is a byte counter behind a
//! mutual-exclusion cell, shared between the execution engine (which reads
//! and writes it through opcodes) and a fixed-rate loop that decrements it
//! towards a floor of zero.

use vstd::prelude::*;

use std::sync::Arc;
use std::sync::Mutex;

verus! {

#[verifier::external_type_specification]
#[verifier::external_body]
#[verifier::reject_recursive_types(T)]
pub struct ExMutex<T: ?Sized>(Mutex<T>);

/// Relies on std::sync::Mutex::new: wraps the value in a fresh, unlocked
/// lock. The cell is opaque here; what it holds is never assumed.
pub assume_specification<T>[ Mutex::<T>::new ](t: T) -> Mutex<T>;

/// Relies on Arc::clone: returns another handle to the same allocation,
/// hence to the same cell.
#[verifier::external_body]
fn clone_cell(cell: &Arc<Mutex<u8>>) -> (r: Arc<Mutex<u8>>)
    ensures
        r == *cell,
{
    Arc::clone(cell)
}

/// A countdown byte counter in a shared mutual-exclusion cell, plus whether
/// this counter drives tone emission while it is nonzero.
pub struct Timer {
    value: Arc<Mutex<u8>>,
    sound: bool,
}

impl Timer {
    /// The shared counter cell.
    pub closed spec fn spec_cell(&self) -> Arc<Mutex<u8>> {
        self.value
    }

    /// Whether this timer drives tone emission.
    pub closed spec fn spec_sound(&self) -> bool {
        self.sound
    }

    /// A fresh timer with its counter at zero.
    pub fn new(sound: bool) -> (t: Timer)
        ensures
            t.spec_sound() == sound,
    {
        Timer { value: Arc::new(Mutex::new(0)), sound }
    }

    /// A shared handle to the counter cell, for wiring the timer to the
    /// execution engine.
    pub fn get_value_arc(&self) -> (r: Arc<Mutex<u8>>)
        ensures
            r == self.spec_cell(),
    {
        clone_cell(&self.value)
    }

    /// Whether this timer should drive tone emission.
    pub fn is_sound(&self) -> (r: bool)
        ensures
            r == self.spec_sound(),
    {
        self.sound
    }
}

/// The counter value after one tick of its fixed-rate loop: decremented by
/// one if nonzero, and zero stays zero.
pub open spec fn spec_tick(v: u8) -> u8 {
    if v == 0 {
        0
    } else {
        (v - 1) as u8
    }
}

/// The counter value after `n` ticks.
pub open spec fn spec_ticks(v: u8, n: nat) -> u8
    decreases n,
{
    if n == 0 {
        v
    } else {
        spec_tick(spec_ticks(v, (n - 1) as nat))
    }
}

/// One tick of a timer loop: the next value of counter `v`.
pub fn next_timer_value(v: u8) -> (r: u8)
    ensures
        r == spec_tick(v),
{
    if v == 0 {
        0
    } else {
        v - 1
    }
}

proof fn lemma_ticks_linear(v: u8, k: nat)
    requires
        k <= v,
    ensures
        spec_ticks(v, k) == v - k,
    decreases k,
{
    if k > 0 {
        lemma_ticks_linear(v, (k - 1) as nat);
    }
}

/// A counter that holds `v` is exactly zero after any `n >= v` ticks: it
/// counts down to its floor and never wraps below it. In particular `v`
/// ticks empty it, and one further tick leaves it empty.
pub proof fn lemma_countdown_floors(v: u8, n: nat)
    requires
        n >= v,
    ensures
        spec_ticks(v, n) == 0,
    decreases n,
{
    if n == v {
        lemma_ticks_linear(v, n);
    } else {
        lemma_countdown_floors(v, (n - 1) as nat);
    }
}

} // verus!
