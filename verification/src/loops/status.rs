//! The status that the bot shows, picked anew every hour.

use rand::distributions::{Distribution, WeightedIndex};
use rand::rngs::StdRng;
use rand::SeedableRng;
use vstd::prelude::*;

verus! {

/// Seconds between two changes of the status.
pub const STATUS_UPDATE_TIMER_SECS: u64 = 3600;

/// The number of statuses to pick from.
pub const STATUS_COUNT: usize = 7;

/// How often each status is picked, relative to the others.
pub fn status_weights() -> (weights: [u32; 7])
    ensures
        weights@ == seq![17u32, 17u32, 17u32, 17u32, 17u32, 10u32, 5u32],
{
    let weights: [u32; 7] = [17, 17, 17, 17, 17, 10, 5];
    assert(weights@ =~= seq![17u32, 17u32, 17u32, 17u32, 17u32, 10u32, 5u32]);
    weights
}

/// The status at each position.
pub open spec fn status_text(index: int) -> Seq<char> {
    if index == 0 {
        "a Plains"@
    } else if index == 1 {
        "an Island"@
    } else if index == 2 {
        "a Swamp"@
    } else if index == 3 {
        "a Mountain"@
    } else if index == 4 {
        "a Forest"@
    } else if index == 5 {
        "a Wastes"@
    } else {
        "a... Water Energy??"@
    }
}

/// The status at the given position.
pub fn status_option(index: usize) -> (status: &'static str)
    requires
        index < STATUS_COUNT,
    ensures
        status@ == status_text(index as int),
{
    if index == 0 {
        "a Plains"
    } else if index == 1 {
        "an Island"
    } else if index == 2 {
        "a Swamp"
    } else if index == 3 {
        "a Mountain"
    } else if index == 4 {
        "a Forest"
    } else if index == 5 {
        "a Wastes"
    } else {
        "a... Water Energy??"
    }
}

/// The sum of seven weights.
pub open spec fn total_weight(weights: [u32; 7]) -> int {
    weights[0] + weights[1] + weights[2] + weights[3] + weights[4] + weights[5] + weights[6]
}

/// Calls `rand::distributions::WeightedIndex::new` on the weights and
/// samples it once with a `rand::rngs::StdRng` seeded from entropy. Trusted:
/// the distribution can be built where the weights do not overflow when
/// summed and their sum is not zero, and a sample is a position among the
/// weights. Which one is left to chance.
#[verifier::external_body]
fn weighted_position(weights: &[u32; 7]) -> (position: usize)
    requires
        0 < total_weight(*weights) <= u32::MAX,
    ensures
        position < 7,
{
    let dist = WeightedIndex::new(weights.iter()).unwrap();
    let mut rng = StdRng::from_entropy();
    dist.sample(&mut rng)
}

/// Picks a status at random, by the weights.
pub fn pick_status() -> (status: &'static str)
    ensures
        exists|index: int| 0 <= index < STATUS_COUNT && status@ == #[trigger] status_text(index),
{
    let weights = status_weights();
    let position = weighted_position(&weights);
    let status = status_option(position);
    assert(status@ == status_text(position as int));
    status
}

} // verus!
