//! Probabilistic execution: a statement with a chance below 100 percent
//! runs when a random draw admits it.

use vstd::prelude::*;

verus! {

/// Draws a 32-bit word from the random number generator of the thread, by
/// `rand::random`. Nothing is known of the word: each call may give
/// another.
#[verifier::external_body]
fn random_word() -> u32 {
    rand::random::<u32>()
}

/// Has the random number generator of the thread set up and seeded, by
/// `rand::thread_rng`, so that the first draw does not pay for it.
#[verifier::external_body]
pub(crate) fn seed_chance() {
    let _ = rand::thread_rng();
}

/// Whether a draw admits a statement of the given chance: the draw, taken
/// as a fraction of the largest word, is at most the chance in percent.
pub open spec fn draw_admits(chance: u8, draw: u32) -> bool {
    draw * 100 <= chance * 0xffff_ffff
}

/// Decides by a draw whether a statement of the given chance runs.
pub fn admits(chance: u8, draw: u32) -> (r: bool)
    ensures
        r == draw_admits(chance, draw),
        chance >= 100 ==> r,
{
    (draw as u64) * 100 <= (chance as u64) * 0xffff_ffff
}

/// Checks the chance of a statement: `false` means that it is skipped this
/// time. A chance of 100 always runs and draws nothing.
pub fn check_chance(chance: u8) -> (r: bool)
    ensures
        chance >= 100 ==> r,
{
    if chance == 100 {
        return true;
    }
    admits(chance, random_word())
}

} // verus!
