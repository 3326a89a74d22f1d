//! Rolling a die.
use rand::Rng;
use vstd::prelude::*;

verus! {

/// Relies on rand::Rng::gen_range: for the inclusive range of one to six,
/// the result lies within it.
#[verifier::external_body]
pub fn roll_d6() -> (r: u8)
    ensures
        1 <= r <= 6,
{
    rand::thread_rng().gen_range(1..=6)
}

/// Does a thing.
///
/// This intentionally does nothing interesting other than call another
/// function: it hands back one die roll.
pub fn do_thing() -> (r: u8)
    ensures
        1 <= r <= 6,
{
    roll_d6()
}

} // verus!
