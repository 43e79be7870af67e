//! Integer parts of the predictor: its seeded generator, which sources a
//! named algorithm enables, and how a prediction's direction is labelled.

use vstd::prelude::*;
use crate::text::{str_eq, to_owned_string};

verus! {

/// Multiplier of the generator's linear congruential step.
pub const LCG_MULTIPLIER: u64 = 6364136223846793005;

/// The generator's step: `state * LCG_MULTIPLIER + 1`, wrapping at 2^64.
pub open spec fn lcg_step(state: u64) -> u64 {
    ((state as nat * LCG_MULTIPLIER as nat + 1) % 0x1_0000_0000_0000_0000nat) as u64
}

/// A seeded pseudo-random generator (a 64-bit linear congruential
/// sequence); its draws are the top 53 bits of each state.
#[derive(Clone, Copy, Debug)]
pub struct SeededRng {
    state: u64,
}

impl SeededRng {
    /// The generator's current state.
    pub closed spec fn state(self) -> u64 {
        self.state
    }

    /// A generator seeded with `seed` (a zero seed is taken as one).
    pub fn new(seed: u64) -> (r: SeededRng)
        ensures
            r.state() == (if seed < 1 { 1 } else { seed }),
    {
        SeededRng { state: if seed < 1 { 1 } else { seed } }
    }

    /// Advances the generator and returns the top 53 bits of the new state
    /// (divided by 2^53 they give a draw in `[0, 1)`).
    pub fn next_bits(&mut self) -> (r: u64)
        ensures
            final(self).state() == lcg_step(old(self).state()),
            r == final(self).state() / 2048,
            r < 0x20_0000_0000_0000,
    {
        let s = self.state.wrapping_mul(LCG_MULTIPLIER).wrapping_add(1);
        proof {
            let m = (self.state as nat * LCG_MULTIPLIER as nat) % 0x1_0000_0000_0000_0000nat;
            assert(self.state.wrapping_mul(LCG_MULTIPLIER) == m as u64);
            assert(((m + 1) % 0x1_0000_0000_0000_0000nat) == ((self.state as nat * LCG_MULTIPLIER as nat + 1) % 0x1_0000_0000_0000_0000nat)) by (nonlinear_arith)
                requires
                    m == (self.state as nat * LCG_MULTIPLIER as nat) % 0x1_0000_0000_0000_0000nat,
            {
                vstd::arithmetic::div_mod::lemma_add_mod_noop(
                    (self.state as nat * LCG_MULTIPLIER as nat) as int,
                    1,
                    0x1_0000_0000_0000_0000int,
                );
            }
        }
        self.state = s;
        let r = s >> 11;
        assert(s >> 11 == s / 2048) by (bit_vector);
        r
    }
}

/// Whether a source runs under a named algorithm: only the factor model
/// for the pseudo-random baseline, the three technical sources otherwise.
pub open spec fn enabled_for_spec(algorithm: Seq<char>, id: Seq<char>) -> bool {
    if algorithm == "placeholder_v1"@ {
        id == "factor"@
    } else {
        id == "factor"@ || id == "momentum"@ || id == "volume"@
    }
}

/// Whether source `id` is enabled when predicting with `algorithm`.
pub fn enabled_for_algorithm(algorithm: &str, id: &str) -> (r: bool)
    ensures
        r == enabled_for_spec(algorithm@, id@),
{
    if str_eq(algorithm, "placeholder_v1") {
        str_eq(id, "factor")
    } else {
        str_eq(id, "factor") || str_eq(id, "momentum") || str_eq(id, "volume")
    }
}

/// The label of a predicted direction: up or down, with high confidence
/// or not.
pub open spec fn bias_label_spec(high_confidence: bool, predicted: Seq<char>) -> Seq<char> {
    if high_confidence {
        if predicted == "up"@ {
            "高置信看涨"@
        } else {
            "高置信看跌"@
        }
    } else if predicted == "up"@ {
        "看涨"@
    } else {
        "看跌"@
    }
}

/// Labels a predicted direction.
pub fn bias_label(high_confidence: bool, predicted: &str) -> (r: String)
    ensures
        r@ == bias_label_spec(high_confidence, predicted@),
{
    let up = str_eq(predicted, "up");
    if high_confidence {
        if up {
            to_owned_string("高置信看涨")
        } else {
            to_owned_string("高置信看跌")
        }
    } else if up {
        to_owned_string("看涨")
    } else {
        to_owned_string("看跌")
    }
}

} // verus!
