//! Proof-of-work as a search problem: which nonces solve a block, and the
//! search that a mining worker runs over its share of them.

use crate::block::payload_text;
use crate::block::Block;
use crate::block::BlockView;
use crate::hash::check_difficulty;
use crate::hash::satisfies_difficulty;
use crate::hash::Hash256;
use crate::text::nat_text;
use crate::text::u64_to_string;
use vstd::prelude::*;

verus! {

/// Under `nonce` the block's digest meets the target.
pub open spec fn solves(block: BlockView, difficulty: nat, nonce: nat) -> bool {
    satisfies_difficulty(block.hash_with_nonce(nonce), difficulty)
}

/// No nonce below `bound` solves the block.
pub open spec fn no_solution_below(block: BlockView, difficulty: nat, bound: nat) -> bool {
    forall|n: nat| n < bound ==> !solves(block, difficulty, n)
}

/// `nonce` is the least nonce that solves the block.
pub open spec fn is_first_solution(block: BlockView, difficulty: nat, nonce: nat) -> bool {
    solves(block, difficulty, nonce) && no_solution_below(block, difficulty, nonce)
}

/// Which nonces solve a block depends on its timestamp, the digest it
/// names and its transactions, not on the nonce and digest it carries.
pub proof fn lemma_search_ignores_seal(a: BlockView, b: BlockView, difficulty: nat, nonce: nat)
    requires
        a.timestamp == b.timestamp,
        a.prev_hash == b.prev_hash,
        a.transactions == b.transactions,
    ensures
        forall|n: nat| solves(a, difficulty, n) == solves(b, difficulty, n),
        no_solution_below(a, difficulty, nonce) == no_solution_below(b, difficulty, nonce),
        is_first_solution(a, difficulty, nonce) == is_first_solution(b, difficulty, nonce),
{
    assert forall|n: nat| solves(a, difficulty, n) == solves(b, difficulty, n) by {
        assert(a.hash_with_nonce(n) == b.hash_with_nonce(n));
    }
}

/// The nonce of a worker's attempt number `k`, counted from zero, when the
/// worker starts at `start` and moves on by `stride` each time.
pub open spec fn attempt_nonce(start: nat, stride: nat, k: nat) -> nat {
    start + k * stride
}

/// None of a worker's attempts before number `count` solves the block.
pub open spec fn no_attempt_solves(
    block: BlockView,
    difficulty: nat,
    start: nat,
    stride: nat,
    count: nat,
) -> bool {
    forall|k: nat|
        k < count ==> !solves(block, difficulty, #[trigger] attempt_nonce(start, stride, k))
}

/// One worker's share of a search: tries the nonces `start`,
/// `start + stride`, `start + 2 * stride` and so on, at most `attempts` of
/// them and none beyond 64 bits, and returns the first that solves the
/// block, with the digest under it. `None` if none of them does.
pub fn search_nonces(
    block: &Block,
    difficulty: usize,
    start: u64,
    stride: u64,
    attempts: u64,
) -> (found: Option<(u64, Hash256)>)
    ensures
        match found {
            Some((nonce, hash)) => {
                &&& hash@ == block@.hash_with_nonce(nonce as nat)
                &&& solves(block@, difficulty as nat, nonce as nat)
                &&& exists|k: nat|
                    {
                        &&& k < attempts
                        &&& nonce == #[trigger] attempt_nonce(start as nat, stride as nat, k)
                        &&& no_attempt_solves(
                            block@,
                            difficulty as nat,
                            start as nat,
                            stride as nat,
                            k,
                        )
                    }
            },
            None => forall|k: nat|
                k < attempts && #[trigger] attempt_nonce(start as nat, stride as nat, k)
                    <= u64::MAX ==> !solves(
                    block@,
                    difficulty as nat,
                    attempt_nonce(start as nat, stride as nat, k),
                ),
        },
{
    let timestamp = u64_to_string(block.get_timestamp());
    let payload = block.payload();
    let mut nonce: u64 = start;
    let mut tried: u64 = 0;
    while tried < attempts
        invariant
            tried <= attempts,
            timestamp@ == nat_text(block@.timestamp),
            payload@ == payload_text(block@.transactions),
            nonce == attempt_nonce(start as nat, stride as nat, tried as nat),
            no_attempt_solves(block@, difficulty as nat, start as nat, stride as nat, tried as nat),
        decreases attempts - tried,
    {
        let hash = block.hash_prepared(timestamp.as_str(), payload.as_str(), nonce);
        if check_difficulty(&hash, difficulty) {
            return Some((nonce, hash));
        }
        if nonce > u64::MAX - stride {
            proof {
                assert forall|k: nat|
                    k < attempts && #[trigger] attempt_nonce(start as nat, stride as nat, k)
                        <= u64::MAX implies !solves(
                    block@,
                    difficulty as nat,
                    attempt_nonce(start as nat, stride as nat, k),
                ) by {
                    if k > tried {
                        assert(k * stride >= (tried + 1) * stride) by (nonlinear_arith)
                            requires
                                k >= tried + 1,
                                stride >= 0,
                        ;
                        assert((tried + 1) * stride == tried * stride + stride)
                            by (nonlinear_arith);
                    }
                }
            }
            return None;
        }
        proof {
            assert((tried + 1) * stride == tried * stride + stride) by (nonlinear_arith);
        }
        nonce = nonce + stride;
        tried = tried + 1;
    }
    None
}

} // verus!
