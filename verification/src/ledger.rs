//! What the engines ask of the ledgers: payouts of a distribution, and the
//! transfers that undo transfers already made when a sale falls through.
//!
//! The ledgers themselves are services outside this library. Their effect
//! is modelled here by what an account receives on balance from a sequence
//! of transfers.

use vstd::prelude::*;
use crate::splitter::amounts_total;
use crate::types::{Allocation, Distribution, FailedDistribution, SettlementError, Transfer};

verus! {

/// What one transfer adds to the balance of `account`.
pub open spec fn flow(transfer: Transfer, account: Seq<char>) -> int {
    (if transfer.to@ == account {
        transfer.amount as int
    } else {
        0
    }) - (if transfer.from@ == account {
        transfer.amount as int
    } else {
        0
    })
}

/// What a sequence of transfers adds to the balance of `account`.
pub open spec fn net_received(transfers: Seq<Transfer>, account: Seq<char>) -> int
    decreases transfers.len(),
{
    if transfers.len() == 0 {
        0
    } else {
        net_received(transfers.drop_last(), account) + flow(transfers.last(), account)
    }
}

/// `undo` takes back `done`: the same transfers in reverse order, each with
/// sender and receiver exchanged.
pub open spec fn is_compensation_of(undo: Seq<Transfer>, done: Seq<Transfer>) -> bool {
    &&& undo.len() == done.len()
    &&& forall|i: int|
        0 <= i < undo.len() ==> {
            &&& (#[trigger] undo[i]).from@ == done[done.len() - 1 - i].to@
            &&& undo[i].to@ == done[done.len() - 1 - i].from@
            &&& undo[i].amount == done[done.len() - 1 - i].amount
        }
}

/// `done` pays out `allocations` from `payer`: one transfer for each
/// allocation above zero, in the order of the allocations, of its amount to
/// its wallet.
pub open spec fn is_payouts_of(
    done: Seq<Transfer>,
    allocations: Seq<Allocation>,
    payer: Seq<char>,
) -> bool
    decreases allocations.len(),
{
    if allocations.len() == 0 {
        done.len() == 0
    } else if allocations.last().amount == 0 {
        is_payouts_of(done, allocations.drop_last(), payer)
    } else {
        &&& done.len() > 0
        &&& done.last().from@ == payer
        &&& done.last().to@ == allocations.last().account@
        &&& done.last().amount == allocations.last().amount
        &&& is_payouts_of(done.drop_last(), allocations.drop_last(), payer)
    }
}

/// Sum of the amounts of a sequence of transfers.
pub open spec fn moved_total(transfers: Seq<Transfer>) -> int
    decreases transfers.len(),
{
    if transfers.len() == 0 {
        0
    } else {
        moved_total(transfers.drop_last()) + transfers.last().amount
    }
}

impl Distribution {
    /// The transfer that pays out allocation `index` from `payer`: none for
    /// an allocation of zero or an index past the end.
    pub fn payout(&self, index: usize, payer: &String) -> (transfer: Option<Transfer>)
        ensures
            match transfer {
                Some(t) => {
                    &&& index < self.allocations@.len()
                    &&& self.allocations@[index as int].amount > 0
                    &&& t.from@ == payer@
                    &&& t.to@ == self.allocations@[index as int].account@
                    &&& t.amount == self.allocations@[index as int].amount
                },
                None => index >= self.allocations@.len() || self.allocations@[index as int].amount
                    == 0,
            },
    {
        if index >= self.allocations.len() || self.allocations[index].amount == 0 {
            None
        } else {
            Some(
                Transfer {
                    from: payer.clone(),
                    to: self.allocations[index].account.clone(),
                    amount: self.allocations[index].amount,
                },
            )
        }
    }
}

/// The payouts of the first `upto` allocations of a distribution from
/// `payer`, in order; of all of them where `upto` is past the end.
pub fn payouts(distribution: &Distribution, payer: &String, upto: usize) -> (done: Vec<Transfer>)
    ensures
        is_payouts_of(
            done@,
            distribution.allocations@.take(
                if upto <= distribution.allocations@.len() {
                    upto as int
                } else {
                    distribution.allocations@.len() as int
                },
            ),
            payer@,
        ),
{
    let end: usize = if upto <= distribution.allocations.len() {
        upto
    } else {
        distribution.allocations.len()
    };
    let mut done: Vec<Transfer> = Vec::new();
    let mut i: usize = 0;
    while i < end
        invariant
            0 <= i <= end <= distribution.allocations@.len(),
            is_payouts_of(done@, distribution.allocations@.take(i as int), payer@),
        decreases end - i,
    {
        let ghost before = done@;
        let ghost allocations = distribution.allocations@;
        proof {
            assert(allocations.take(i + 1).drop_last() =~= allocations.take(i as int));
            assert(allocations.take(i + 1).last() == allocations[i as int]);
        }
        match distribution.payout(i, payer) {
            Some(transfer) => {
                done.push(transfer);
                proof {
                    assert(done@.drop_last() =~= before);
                }
            },
            None => {},
        }
        i = i + 1;
    }
    done
}

/// The transfers that take back `done`, last one first.
pub fn compensation(done: &Vec<Transfer>) -> (undo: Vec<Transfer>)
    ensures
        is_compensation_of(undo@, done@),
{
    let mut undo: Vec<Transfer> = Vec::new();
    let mut left: usize = done.len();
    while left > 0
        invariant
            0 <= left <= done@.len(),
            undo@.len() == done@.len() - left,
            forall|i: int|
                0 <= i < undo@.len() ==> {
                    &&& (#[trigger] undo@[i]).from@ == done@[done@.len() - 1 - i].to@
                    &&& undo@[i].to@ == done@[done@.len() - 1 - i].from@
                    &&& undo@[i].amount == done@[done@.len() - 1 - i].amount
                },
        decreases left,
    {
        left = left - 1;
        undo.push(
            Transfer {
                from: done[left].to.clone(),
                to: done[left].from.clone(),
                amount: done[left].amount,
            },
        );
    }
    undo
}

/// The number of allocations that were paid out before the payout of
/// allocation `index` failed, of `count` allocations.
pub open spec fn paid_before(index: usize, count: nat) -> int {
    if index <= count {
        index as int
    } else {
        count as int
    }
}

/// Takes the ledger's answer to the payouts of a distribution from `payer`:
/// `failed` is the index of the allocation whose payout failed, if one did.
///
/// Where none failed the distribution stands. Where one failed, the error is
/// `DistributionFailed` with that index, `made` holds the payouts of the
/// allocations before it, and `undo` their compensation, so that no payout
/// stays.
pub fn settle_distribution(distribution: &Distribution, payer: &String, failed: Option<usize>) -> (result:
    Result<(), FailedDistribution>)
    ensures
        match result {
            Ok(_) => failed is None,
            Err(failure) => {
                &&& failed is Some
                &&& failure.error == (SettlementError::DistributionFailed { index: failed->0 })
                &&& is_payouts_of(
                    failure.made@,
                    distribution.allocations@.take(
                        paid_before(failed->0, distribution.allocations@.len()),
                    ),
                    payer@,
                )
                &&& is_compensation_of(failure.undo@, failure.made@)
            },
        },
{
    match failed {
        None => Ok(()),
        Some(index) => {
            let made = payouts(distribution, payer, index);
            let undo = compensation(&made);
            Err(FailedDistribution { error: SettlementError::DistributionFailed { index }, made, undo })
        },
    }
}

/// A distribution that fell through pays nobody: after the payouts that
/// were made and the transfers that `settle_distribution` hands back with
/// them, the payer and every beneficiary hold what they held before.
pub proof fn lemma_failed_distribution_pays_nobody(failure: FailedDistribution, account: Seq<char>)
    requires
        is_compensation_of(failure.undo@, failure.made@),
    ensures
        net_received(failure.made@ + failure.undo@, account) == 0,
{
    lemma_rollback_restores(failure.made@, failure.undo@, account);
}

/// Payouts move what was allocated, no more and no less, and all of it
/// leaves the payer.
pub proof fn lemma_payouts_move_the_allocations(
    done: Seq<Transfer>,
    allocations: Seq<Allocation>,
    payer: Seq<char>,
)
    requires
        is_payouts_of(done, allocations, payer),
    ensures
        moved_total(done) == amounts_total(allocations),
        forall|k: int| 0 <= k < done.len() ==> (#[trigger] done[k]).from@ == payer && done[k].amount > 0,
    decreases allocations.len(),
{
    if allocations.len() > 0 {
        if allocations.last().amount == 0 {
            lemma_payouts_move_the_allocations(done, allocations.drop_last(), payer);
        } else {
            lemma_payouts_move_the_allocations(done.drop_last(), allocations.drop_last(), payer);
            assert forall|k: int| 0 <= k < done.len() implies (#[trigger] done[k]).from@ == payer
                && done[k].amount > 0 by {
                if k < done.len() - 1 {
                    assert(done.drop_last()[k] == done[k]);
                }
            }
        }
    }
}

/// What two sequences of transfers add to a balance, one after the other,
/// is the sum of what each adds.
pub proof fn lemma_net_received_concat(
    first: Seq<Transfer>,
    second: Seq<Transfer>,
    account: Seq<char>,
)
    ensures
        net_received(first + second, account) == net_received(first, account) + net_received(
            second,
            account,
        ),
    decreases second.len(),
{
    if second.len() == 0 {
        assert(first + second =~= first);
    } else {
        lemma_net_received_concat(first, second.drop_last(), account);
        assert((first + second).drop_last() =~= first + second.drop_last());
        assert((first + second).last() == second.last());
    }
}

/// A compensation adds to every balance the opposite of what the transfers
/// it takes back added.
pub proof fn lemma_compensation_opposes(
    done: Seq<Transfer>,
    undo: Seq<Transfer>,
    account: Seq<char>,
)
    requires
        is_compensation_of(undo, done),
    ensures
        net_received(undo, account) == -net_received(done, account),
    decreases done.len(),
{
    if done.len() > 0 {
        let rest_done = done.drop_last();
        let rest_undo = undo.subrange(1, undo.len() as int);
        assert forall|i: int| 0 <= i < rest_undo.len() implies {
            &&& (#[trigger] rest_undo[i]).from@ == rest_done[rest_done.len() - 1 - i].to@
            &&& rest_undo[i].to@ == rest_done[rest_done.len() - 1 - i].from@
            &&& rest_undo[i].amount == rest_done[rest_done.len() - 1 - i].amount
        } by {
            assert(rest_undo[i] == undo[i + 1]);
        }
        lemma_compensation_opposes(rest_done, rest_undo, account);
        let head = seq![undo[0]];
        assert(undo =~= head + rest_undo);
        lemma_net_received_concat(head, rest_undo, account);
        assert(head.drop_last() =~= Seq::<Transfer>::empty());
        assert(head.last() == undo[0]);
        assert(net_received(head.drop_last(), account) == 0);
        assert(net_received(head, account) == flow(undo[0], account));
        assert(undo[0].amount == done.last().amount);
    }
}

/// A sale that falls through leaves every balance as it was: after the
/// transfers that were made and their compensation, no account has
/// received or lost anything.
pub proof fn lemma_rollback_restores(done: Seq<Transfer>, undo: Seq<Transfer>, account: Seq<char>)
    requires
        is_compensation_of(undo, done),
    ensures
        net_received(done + undo, account) == 0,
{
    lemma_net_received_concat(done, undo, account);
    lemma_compensation_opposes(done, undo, account);
}

} // verus!
