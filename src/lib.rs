pub mod add_mod;
pub mod circuit;
pub mod commitment;
pub mod crypto;
pub mod encoding;
pub mod error;
pub mod fiat_shamir;
pub mod gadgets;
pub mod party;
pub mod protocol;
pub mod prove;
pub mod sha256;
pub mod tape;
pub mod verify;
pub mod view;
pub mod word;

use vstd::prelude::*;

verus! {

/// The number of repetitions for `sigma` bits of soundness: each repetition lets a cheating
/// prover through with probability 2/3, so `N = ceil(sigma / log2(3/2))`, with
/// `log2(3/2)` taken as 0.58496.
pub open spec fn repetitions_for(sigma: nat) -> nat {
    ((sigma * 100000 + 58495) / 58496) as nat
}

pub fn num_of_repetitions_given_desired_security(sigma: usize) -> (r: usize)
    requires
        repetitions_for(sigma as nat) <= usize::MAX,
    ensures
        r == repetitions_for(sigma as nat),
        r * 58496 >= sigma * 100000,
        r == 0 || (r - 1) * 58496 < sigma * 100000,
{
    let n: u128 = ((sigma as u128) * 100000 + 58495) / 58496;
    proof {
        let s = sigma as int;
        let q = (s * 100000 + 58495) / 58496;
        assert(q * 58496 >= s * 100000 && (q == 0 || (q - 1) * 58496 < s * 100000)) by (nonlinear_arith)
            requires
                q == (s * 100000 + 58495) / 58496,
                s >= 0,
        ;
    }
    n as usize
}

} // verus!
