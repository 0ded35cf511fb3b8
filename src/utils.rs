//! Small helpers.
use crate::random::{draws_give, EntropyUnavailable, SecureRandom};
use vstd::prelude::*;

verus! {

/// The draw outcome that a result of `generate_random_number` stands for.
pub open spec fn as_draw(r: Result<i32, EntropyUnavailable>) -> Result<u32, EntropyUnavailable> {
    match r {
        Ok(v) => Ok(v as u32),
        Err(e) => Err(e),
    }
}

/// A random number of exactly five decimal digits: a draw from
/// `10000..100000`, with its outcome, `EntropyUnavailable` included.
pub fn generate_random_number() -> (r: Result<i32, EntropyUnavailable>)
    ensures
        r matches Ok(v) ==> 10000 <= v <= 99999,
        exists|d: Seq<Option<u64>>| #[trigger] draws_give(d, 10000, 100000, as_draw(r)),
{
    let mut source = SecureRandom::new();
    let drawn = source.next_in_range(10000, 100000);
    let r = match drawn {
        Ok(v) => Ok(v as i32),
        Err(e) => Err(e),
    };
    proof {
        let d = choose|d: Seq<Option<u64>>| draws_give(d, 10000, 100000, drawn);
        assert(as_draw(r) == drawn);
        assert(draws_give(d, 10000, 100000, as_draw(r)));
    }
    r
}

} // verus!
