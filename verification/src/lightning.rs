//! The course of one stroke of lightning, and what chance decides of it.

use rand::rngs::SmallRng;
use rand::RngCore;
use vstd::prelude::*;

verus! {

/// The small generator of `rand`. Nothing is seen of what it holds.
#[verifier::external_type_specification]
#[verifier::external_body]
pub struct ExSmallRng(SmallRng);

/// The next number of the generator, by `RngCore::next_u32` of `rand`. Nothing is claimed of
/// the number: every `u32` can come.
#[verifier::external_body]
fn roll(rng: &mut SmallRng) -> (r: u32) {
    rng.next_u32()
}

/// The time that the thunder sounds, in microseconds.
pub const THUNDER_MICROS: u64 = 25_000_000;

/// A roll as a number of thousandths: 0 to 999.
pub open spec fn thousandths(roll: u32) -> int {
    roll as int % 1000
}

/// A roll as a number of thousandths: 0 to 999.
pub fn thousandth(roll: u32) -> (t: u32)
    ensures
        t == thousandths(roll),
        t < 1000,
{
    roll % 1000
}

/// A number of thousandths by chance: 0 to 999.
pub fn next_thousandth(rng: &mut SmallRng) -> (t: u32)
    ensures
        t < 1000,
{
    thousandth(roll(rng))
}

/// The calm before a stroke, in microseconds: up to ten seconds.
pub fn calm_micros(roll: u32) -> (micros: u64)
    ensures
        micros == thousandths(roll) * 10_000,
{
    (thousandth(roll) as u64) * 10_000
}

/// The time of the flash, in microseconds: a tenth of a second and up to 0.15 s more.
pub fn flash_micros(roll: u32) -> (micros: u64)
    ensures
        micros == 100_000 + thousandths(roll) * 150,
{
    100_000 + (thousandth(roll) as u64) * 150
}

/// The time between the flash and the thunder, in microseconds: up to two seconds.
pub fn wait_micros(roll: u32) -> (micros: u64)
    ensures
        micros == thousandths(roll) * 2_000,
{
    (thousandth(roll) as u64) * 2_000
}

/// The sound that a roll picks among `count` sounds.
pub fn pick_sound(roll: u32, count: usize) -> (index: usize)
    requires
        count > 0,
    ensures
        index == (roll as usize) % count,
        index < count,
{
    (roll as usize) % count
}

/// One of `count` sounds, by chance.
pub fn next_sound(rng: &mut SmallRng, count: usize) -> (index: usize)
    requires
        count > 0,
    ensures
        index < count,
{
    pick_sound(roll(rng), count)
}

/// The stages of a stroke of lightning, each but the last with the timer that ends it.
#[derive(Debug)]
pub enum ScaryState<T> {
    /// The flash is lit.
    Lightning(T),
    /// The flash is over and the thunder has not come yet.
    Wait(T),
    /// The thunder sounds.
    Thunder(T),
    /// The stroke is over.
    Done,
}

impl<T> ScaryState<T> {
    /// The stage that follows, given the timer for it; the same stage where the next one needs
    /// a timer and there is none, or where the stroke is over.
    pub open spec fn following(self, timer: Option<T>) -> ScaryState<T> {
        match (self, timer) {
            (ScaryState::Lightning(_), Some(t)) => ScaryState::Wait(t),
            (ScaryState::Wait(_), Some(t)) => ScaryState::Thunder(t),
            (ScaryState::Thunder(_), _) => ScaryState::Done,
            (s, _) => s,
        }
    }

    /// Whether the stage changes, given the timer for the next one.
    pub open spec fn advances(self, timer: Option<T>) -> bool {
        match self {
            ScaryState::Lightning(_) => timer is Some,
            ScaryState::Wait(_) => timer is Some,
            ScaryState::Thunder(_) => true,
            ScaryState::Done => false,
        }
    }

    /// Goes to the next stage and says whether it did.
    pub fn next(&mut self, timer: Option<T>) -> (moved: bool)
        ensures
            *final(self) == old(self).following(timer),
            moved == old(self).advances(timer),
    {
        match self {
            ScaryState::Lightning(_) => {
                match timer {
                    Some(timer) => {
                        *self = ScaryState::Wait(timer);
                        true
                    },
                    None => false,
                }
            },
            ScaryState::Wait(_) => {
                match timer {
                    Some(timer) => {
                        *self = ScaryState::Thunder(timer);
                        true
                    },
                    None => false,
                }
            },
            ScaryState::Thunder(_) => {
                *self = ScaryState::Done;
                true
            },
            ScaryState::Done => false,
        }
    }
}

} // verus!
