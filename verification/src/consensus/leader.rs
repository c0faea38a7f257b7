//! Round-robin leader rotation over a zone committee.
use vstd::prelude::*;
use crate::types::ValidatorInfo;

verus! {

/// Index of the leader of `round` in `epoch` for a committee of `n`
/// members: the committee rotates one position per round, starting at the
/// epoch's offset.
pub open spec fn leader_index(n: nat, epoch: u64, round: u64) -> int {
    (epoch as int + round as int) % (n as int)
}

/// The committee member that leads `round` of `epoch`.
pub fn leader_for_round(committee: &[ValidatorInfo], epoch: u64, round: u64) -> (r: &ValidatorInfo)
    requires
        committee@.len() > 0,
    ensures
        *r == committee@[leader_index(committee@.len(), epoch, round)],
        0 <= leader_index(committee@.len(), epoch, round) < committee@.len(),
{
    let n = committee.len() as u64;
    let a = epoch % n;
    let b = round % n;
    let idx = if a >= n - b { a - (n - b) } else { a + b };
    proof {
        assert(idx == (a + b) % (n as int)) by {
            if a + b < n {
                vstd::arithmetic::div_mod::lemma_small_mod((a + b) as nat, n as nat);
            } else {
                vstd::arithmetic::div_mod::lemma_small_mod((a + b - n) as nat, n as nat);
                vstd::arithmetic::div_mod::lemma_mod_sub_multiples_vanish(a + b, n as int);
            }
        }
        vstd::arithmetic::div_mod::lemma_add_mod_noop(epoch as int, round as int, n as int);
    }
    &committee[idx as usize]
}

/// Leadership rotates: each round passes it to the next member of the
/// committee (wrapping around), so every member leads exactly once in any
/// `n` consecutive rounds, and epoch `e + 1` starts one member further on.
pub proof fn law_leader_rotation(n: nat, epoch: u64, round: u64)
    requires
        n > 0,
    ensures
        0 <= leader_index(n, epoch, round) < n,
        round < u64::MAX ==> leader_index(n, epoch, (round + 1) as u64) == (leader_index(n, epoch, round) + 1) % (n as int),
        round + n <= u64::MAX ==> leader_index(n, epoch, (round + n) as u64) == leader_index(n, epoch, round),
        epoch < u64::MAX ==> leader_index(n, (epoch + 1) as u64, round) == (leader_index(n, epoch, round) + 1) % (n as int),
{
    let a = epoch as int + round as int;
    vstd::arithmetic::div_mod::lemma_mod_bound(a, n as int);
    vstd::arithmetic::div_mod::lemma_add_mod_noop(a, 1, n as int);
    vstd::arithmetic::div_mod::lemma_mod_twice(1, n as int);
    if n == 1 {
        vstd::arithmetic::div_mod::lemma_mod_self_0(1);
        vstd::arithmetic::div_mod::lemma_small_mod(0, 1);
    } else {
        vstd::arithmetic::div_mod::lemma_small_mod(1, n);
    }
    vstd::arithmetic::div_mod::lemma_mod_add_multiples_vanish(a, n as int);
}

} // verus!
