//! The operating system's entropy source.
use rand::rngs::OsRng;
use rand::RngCore;
use vstd::prelude::*;

verus! {

#[verifier::external_type_specification]
#[verifier::external_body]
pub struct ExOsRng(OsRng);

/// Relies on `OsRng`'s derived `Default`: the handle holds no state.
pub assume_specification[ <OsRng as core::default::Default>::default ]() -> OsRng;

/// Relies on rand_core's `OsRng::try_fill_bytes`: eight bytes from the
/// operating system, or `None` where it reports that it cannot supply them.
/// It does not panic.
#[verifier::external_body]
fn os_random_word(rng: &mut OsRng) -> (r: Option<u64>) {
    let mut bytes = [0u8; 8];
    match rng.try_fill_bytes(&mut bytes) {
        Ok(()) => Some(u64::from_le_bytes(bytes)),
        Err(_) => None,
    }
}

/// The operating system could not supply entropy. A draw also ends with
/// this error, the library's own, after `MAX_ATTEMPTS` raw words in a row
/// fell outside the part of the word space that maps evenly onto its range.
#[derive(Debug, PartialEq, Eq, Structural)]
pub struct EntropyUnavailable;

/// How many raw words a single draw may reject before it gives up.
/// Each rejection has probability below 2^-32.
pub const MAX_ATTEMPTS: u8 = 8;

/// The value in `low..high` that a raw 64-bit word stands for: the word is
/// used only below the largest multiple of `high - low` that fits in 64 bits,
/// so that every value of the range is equally likely; above it, none.
pub open spec fn word_value(word: u64, low: u32, high: u32) -> Option<u32> {
    let range = high - low;
    if (word as int) < 0x1_0000_0000_0000_0000 - 0x1_0000_0000_0000_0000int % range {
        Some((low + word as int % range) as u32)
    } else {
        None
    }
}

/// What one raw draw settles: a failed read ends the draw with
/// `EntropyUnavailable`, a usable word with its value, and an unusable word
/// settles nothing (`None`: draw again).
pub open spec fn draw_step(drawn: Option<u64>, low: u32, high: u32) -> Option<Result<u32, EntropyUnavailable>> {
    match drawn {
        None => Some(Err(EntropyUnavailable)),
        Some(w) => match word_value(w, low, high) {
            Some(v) => Some(Ok(v)),
            None => None,
        },
    }
}

/// `r` is what a draw gives after reading the raw results `d`, in order:
/// all but the last settled nothing, and the last settled `r`, or was the
/// `MAX_ATTEMPTS`-th unusable word, which ends in `EntropyUnavailable`.
pub open spec fn draws_give(d: Seq<Option<u64>>, low: u32, high: u32, r: Result<u32, EntropyUnavailable>) -> bool {
    &&& 1 <= d.len() <= MAX_ATTEMPTS
    &&& forall|i: int| 0 <= i < d.len() - 1 ==> draw_step(#[trigger] d[i], low, high) is None
    &&& match draw_step(d.last(), low, high) {
        Some(o) => r == o,
        None => d.len() == MAX_ATTEMPTS && r == Err::<u32, EntropyUnavailable>(EntropyUnavailable),
    }
}

/// The value in `low..high` that a raw word stands for, if any.
pub fn value_from_word(word: u64, low: u32, high: u32) -> (r: Option<u32>)
    requires
        low < high,
    ensures
        r == word_value(word, low, high),
        r matches Some(v) ==> low <= v < high,
{
    let range: u64 = (high - low) as u64;
    let tail: u64 = (u64::MAX % range + 1) % range;
    proof {
        let m = range as int;
        let x = 0xffff_ffff_ffff_ffffint;
        vstd::arithmetic::div_mod::lemma_add_mod_noop(x, 1, m);
        vstd::arithmetic::div_mod::lemma_add_mod_noop_right(x % m, 1, m);
        vstd::arithmetic::div_mod::lemma_add_mod_noop(x % m, 1, m);
        assert(tail as int == 0x1_0000_0000_0000_0000int % m);
    }
    if word <= u64::MAX - tail {
        let offset = word % range;
        assert(offset < range) by (nonlinear_arith)
            requires
                range > 0,
                offset == word % range,
        ;
        Some(low + offset as u32)
    } else {
        None
    }
}

/// What one raw draw settles.
pub fn settle_draw(drawn: Option<u64>, low: u32, high: u32) -> (r: Option<Result<u32, EntropyUnavailable>>)
    requires
        low < high,
    ensures
        r == draw_step(drawn, low, high),
{
    match drawn {
        None => Some(Err(EntropyUnavailable)),
        Some(w) => match value_from_word(w, low, high) {
            Some(v) => Some(Ok(v)),
            None => None,
        },
    }
}

/// A handle on the operating system's entropy source.
pub struct SecureRandom {
    rng: OsRng,
}

impl SecureRandom {
    pub fn new() -> Self {
        SecureRandom { rng: OsRng::default() }
    }

    /// A value drawn uniformly from `low..high`: raw words are read from the
    /// operating system until one settles the draw (see `draws_give`); a
    /// failed read gives `EntropyUnavailable`.
    pub fn next_in_range(&mut self, low: u32, high: u32) -> (r: Result<u32, EntropyUnavailable>)
        requires
            low < high,
        ensures
            exists|d: Seq<Option<u64>>| draws_give(d, low, high, r),
            r matches Ok(v) ==> low <= v < high,
    {
        let ghost mut seen: Seq<Option<u64>> = Seq::empty();
        let mut attempts: u8 = 0;
        loop
            invariant
                low < high,
                attempts < MAX_ATTEMPTS,
                seen.len() == attempts,
                forall|i: int| 0 <= i < seen.len() ==> draw_step(#[trigger] seen[i], low, high) is None,
            decreases MAX_ATTEMPTS - attempts,
        {
            let drawn = os_random_word(&mut self.rng);
            proof {
                seen = seen.push(drawn);
                assert(seen.last() == drawn);
            }
            match settle_draw(drawn, low, high) {
                Some(settled) => {
                    proof {
                        assert(draws_give(seen, low, high, settled));
                        if let Some(w) = drawn {
                            if let Ok(v) = settled {
                                assert(word_value(w, low, high) == Some(v));
                            }
                        }
                    }
                    return settled;
                },
                None => {
                    if attempts + 1 == MAX_ATTEMPTS {
                        proof {
                            assert(draws_give(seen, low, high, Err::<u32, EntropyUnavailable>(EntropyUnavailable)));
                        }
                        return Err(EntropyUnavailable);
                    }
                    attempts = attempts + 1;
                },
            }
        }
    }
}

} // verus!
