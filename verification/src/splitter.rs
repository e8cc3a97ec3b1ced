//! The royalty splitter: a payment is divided over a beneficiary table by
//! basis points, each share rounded down, and what rounding leaves over goes
//! to the first beneficiary, so that the allocations add up to the payment.

use vstd::prelude::*;
use cosmwasm_std::{Empty, Response};
use crate::receipt::{distribution_attributes, distribution_receipt, response_attributes};
use crate::types::{Allocation, Beneficiary, Distribution, SettlementError};

verus! {

/// Basis points that make up the whole: one hundred percent.
pub const BASIS_POINTS_TOTAL: u64 = 10_000;

/// Sum of the basis points of a table.
pub open spec fn total_basis_points(table: Seq<Beneficiary>) -> int
    decreases table.len(),
{
    if table.len() == 0 {
        0
    } else {
        total_basis_points(table.drop_last()) + table.last().basis_points
    }
}

/// The proportional entitlement of `basis_points` in `payment`, rounded down.
pub open spec fn floor_share(payment: int, basis_points: int) -> int {
    payment * basis_points / 10_000
}

/// Sum of the rounded-down shares of a table.
pub open spec fn floor_total(payment: int, table: Seq<Beneficiary>) -> int
    decreases table.len(),
{
    if table.len() == 0 {
        0
    } else {
        floor_total(payment, table.drop_last()) + floor_share(
            payment,
            table.last().basis_points as int,
        )
    }
}

/// What rounding down leaves of the payment.
pub open spec fn residual(payment: int, table: Seq<Beneficiary>) -> int {
    payment - floor_total(payment, table)
}

/// The amount that entry `i` of the table receives: its rounded-down share,
/// and for the first entry the residual on top.
pub open spec fn allocated_amount(payment: int, table: Seq<Beneficiary>, i: int) -> int {
    floor_share(payment, table[i].basis_points as int) + if i == 0 {
        residual(payment, table)
    } else {
        0
    }
}

/// Sum of the amounts of a sequence of allocations.
pub open spec fn amounts_total(allocations: Seq<Allocation>) -> int
    decreases allocations.len(),
{
    if allocations.len() == 0 {
        0
    } else {
        amounts_total(allocations.drop_last()) + allocations.last().amount
    }
}

/// `allocations` is the split of `payment` over `table`: one allocation per
/// entry, in table order, to the same wallet, of the amount the rule gives.
pub open spec fn is_split_of(
    allocations: Seq<Allocation>,
    payment: int,
    table: Seq<Beneficiary>,
) -> bool {
    &&& allocations.len() == table.len()
    &&& forall|i: int|
        0 <= i < table.len() ==> {
            &&& (#[trigger] allocations[i]).account@ == table[i].account@
            &&& allocations[i].amount == allocated_amount(payment, table, i)
        }
}

/// The error a distribution of `payment` over `table` is refused with, if
/// any, under the policy that admits a payment of zero (`allow_zero`) or the
/// one that refuses it.
pub open spec fn policy_error(payment: int, table: Seq<Beneficiary>, allow_zero: bool) -> Option<
    SettlementError,
> {
    if table.len() == 0 {
        Some(SettlementError::EmptyBeneficiaryTable)
    } else if payment == 0 && !allow_zero {
        Some(SettlementError::ZeroPayment)
    } else if total_basis_points(table) != 10_000 {
        Some(SettlementError::InvalidBeneficiaryTable)
    } else {
        None
    }
}

/// The error `distribute` gives for a payment and a table, if any: that of
/// the policy that refuses a payment of zero.
pub open spec fn distribute_error(payment: int, table: Seq<Beneficiary>) -> Option<
    SettlementError,
> {
    policy_error(payment, table, false)
}

proof fn lemma_prefix_step<T>(s: Seq<T>, i: int)
    requires
        0 <= i < s.len(),
    ensures
        s.take(i + 1).drop_last() == s.take(i),
        s.take(i + 1).last() == s[i],
{
    assert(s.take(i + 1).drop_last() =~= s.take(i));
}

/// Each entry of a table has at most the table's total.
pub proof fn lemma_entry_at_most_total(table: Seq<Beneficiary>, i: int)
    requires
        0 <= i < table.len(),
    ensures
        table[i].basis_points <= total_basis_points(table),
        0 <= total_basis_points(table.take(i)) <= total_basis_points(table),
    decreases table.len(),
{
    lemma_total_nonnegative(table.drop_last());
    if i == table.len() - 1 {
        assert(table.take(i) =~= table.drop_last());
    } else {
        lemma_entry_at_most_total(table.drop_last(), i);
        assert(table.drop_last().take(i) =~= table.take(i));
    }
}

proof fn lemma_total_nonnegative(table: Seq<Beneficiary>)
    ensures
        0 <= total_basis_points(table),
    decreases table.len(),
{
    if table.len() > 0 {
        lemma_total_nonnegative(table.drop_last());
    }
}

proof fn lemma_floor_share_bounds(payment: int, basis_points: int)
    requires
        0 <= payment,
        0 <= basis_points,
    ensures
        0 <= payment * basis_points - 10_000 * floor_share(payment, basis_points) <= 9_999,
        0 <= floor_share(payment, basis_points),
{
    assert(0 <= payment * basis_points) by (nonlinear_arith)
        requires
            0 <= payment,
            0 <= basis_points,
    ;
    let p = payment * basis_points;
    assert(0 <= p - 10_000 * (p / 10_000) <= 9_999 && 0 <= p / 10_000) by (nonlinear_arith)
        requires
            0 <= p,
    ;
}

/// Rounding loses less than one unit per entry: ten thousand times the sum
/// of the rounded-down shares falls short of `payment` times the table's
/// total by at most 9999 for each entry.
pub proof fn lemma_floor_total_bounds(payment: int, table: Seq<Beneficiary>)
    requires
        0 <= payment,
    ensures
        0 <= floor_total(payment, table),
        0 <= payment * total_basis_points(table) - 10_000 * floor_total(payment, table)
            <= 9_999 * table.len(),
    decreases table.len(),
{
    if table.len() == 0 {
        assert(payment * 0 == 0);
    } else {
        let rest = table.drop_last();
        let b = table.last().basis_points as int;
        lemma_floor_total_bounds(payment, rest);
        lemma_floor_share_bounds(payment, b);
        assert(payment * (total_basis_points(rest) + b) == payment * total_basis_points(rest)
            + payment * b) by (nonlinear_arith);
    }
}

/// For a table that adds up to the whole, the residual is not negative and
/// smaller than the number of entries.
pub proof fn lemma_residual_bounds(payment: int, table: Seq<Beneficiary>)
    requires
        0 <= payment,
        total_basis_points(table) == 10_000,
    ensures
        0 <= residual(payment, table),
        table.len() > 0 ==> residual(payment, table) < table.len(),
        table.len() == 0 ==> residual(payment, table) == 0,
{
    lemma_floor_total_bounds(payment, table);
    if table.len() == 0 {
        assert(false);
    }
}

/// The rounded-down shares of the first `k` entries add up to no more than
/// the payment, when the table adds up to no more than the whole.
proof fn lemma_prefix_floor_total(payment: int, table: Seq<Beneficiary>, k: int)
    requires
        0 <= payment,
        0 <= k <= table.len(),
        total_basis_points(table) <= 10_000,
    ensures
        0 <= floor_total(payment, table.take(k)) <= payment,
{
    if k == table.len() {
        assert(table.take(k) =~= table);
        lemma_total_nonnegative(table);
    } else {
        lemma_entry_at_most_total(table, k);
    }
    let t = total_basis_points(table.take(k));
    lemma_floor_total_bounds(payment, table.take(k));
    assert(payment * t <= payment * 10_000) by (nonlinear_arith)
        requires
            0 <= payment,
            t <= 10_000,
    ;
}

/// For every table that adds up to the whole and every payment, the
/// distribution is owed under the policy that admits zero, and under the
/// default policy for a payment above zero; its allocations add up to the
/// payment exactly, and each is at least the entry's share rounded down and
/// exceeds it, for the first entry only, by less than the number of entries.
pub proof fn lemma_distribution_is_exact(
    allocations: Seq<Allocation>,
    payment: int,
    table: Seq<Beneficiary>,
)
    requires
        0 <= payment,
        total_basis_points(table) == 10_000,
        is_split_of(allocations, payment, table),
    ensures
        policy_error(payment, table, true) is None,
        payment > 0 ==> distribute_error(payment, table) is None,
        amounts_total(allocations) == payment,
        forall|i: int|
            0 <= i < allocations.len() ==> floor_share(payment, table[i].basis_points as int) <= (
            #[trigger] allocations[i]).amount < floor_share(payment, table[i].basis_points as int)
                + table.len(),
        forall|i: int|
            1 <= i < allocations.len() ==> (#[trigger] allocations[i]).amount == floor_share(
                payment,
                table[i].basis_points as int,
            ),
{
    lemma_residual_bounds(payment, table);
    lemma_split_is_sum_exact(allocations, payment, table);
}

/// The allocations of a split add up to the payment: nothing is lost and
/// nothing is made.
pub proof fn lemma_split_is_sum_exact(
    allocations: Seq<Allocation>,
    payment: int,
    table: Seq<Beneficiary>,
)
    requires
        table.len() > 0,
        is_split_of(allocations, payment, table),
    ensures
        amounts_total(allocations) == payment,
{
    lemma_split_prefix_total(allocations, payment, table, table.len() as int);
    assert(allocations.take(table.len() as int) =~= allocations);
    assert(table.take(table.len() as int) =~= table);
}

proof fn lemma_split_prefix_total(
    allocations: Seq<Allocation>,
    payment: int,
    table: Seq<Beneficiary>,
    k: int,
)
    requires
        1 <= k <= table.len(),
        is_split_of(allocations, payment, table),
    ensures
        amounts_total(allocations.take(k)) == floor_total(payment, table.take(k)) + residual(
            payment,
            table,
        ),
    decreases k,
{
    lemma_prefix_step(allocations, k - 1);
    lemma_prefix_step(table, k - 1);
    assert(allocations[k - 1].amount == allocated_amount(payment, table, k - 1));
    if k == 1 {
        assert(amounts_total(allocations.take(0)) == 0);
        assert(floor_total(payment, table.take(0)) == 0);
    } else {
        lemma_split_prefix_total(allocations, payment, table, k - 1);
    }
}

/// The share of `basis_points` in `payment`, rounded down, computed without
/// leaving 128 bits.
pub fn proportional_share(payment: u128, basis_points: u64) -> (share: u128)
    requires
        basis_points <= BASIS_POINTS_TOTAL,
    ensures
        share == floor_share(payment as int, basis_points as int),
        share <= payment,
{
    let whole: u128 = payment / 10_000;
    let rest: u128 = payment % 10_000;
    let points: u128 = basis_points as u128;
    proof {
        let p = payment as int;
        let b = basis_points as int;
        let q = whole as int;
        let r = rest as int;
        assert(p == q * 10_000 + r && 0 <= r < 10_000);
        assert(q * b <= q * 10_000 && r * b <= 9_999 * 10_000 && 0 <= q * b && 0 <= r * b)
            by (nonlinear_arith)
            requires
                0 <= q,
                0 <= r <= 9_999,
                0 <= b <= 10_000,
        ;
        assert(p * b / 10_000 == q * b + r * b / 10_000 && r * b / 10_000 <= r)
            by (nonlinear_arith)
            requires
                p == q * 10_000 + r,
                0 <= r,
                0 <= b <= 10_000,
        ;
    }
    whole * points + rest * points / 10_000
}

/// Whether the basis points of a table add up to the whole.
pub fn adds_up_to_whole(table: &Vec<Beneficiary>) -> (whole: bool)
    ensures
        whole == (total_basis_points(table@) == 10_000),
{
    let mut sum: u64 = 0;
    let mut i: usize = 0;
    while i < table.len()
        invariant
            0 <= i <= table.len(),
            sum == total_basis_points(table@.take(i as int)),
            sum <= 10_000,
        decreases table.len() - i,
    {
        let points: u64 = table[i].basis_points;
        proof {
            lemma_prefix_step(table@, i as int);
            lemma_entry_at_most_total(table@, i as int);
            if i + 1 < table.len() {
                lemma_entry_at_most_total(table@, i + 1);
            } else {
                assert(table@.take(i + 1) =~= table@);
            }
        }
        if points > 10_000 || sum + points > 10_000 {
            return false;
        }
        sum = sum + points;
        i = i + 1;
    }
    proof {
        assert(table@.take(i as int) =~= table@);
    }
    sum == 10_000
}

/// Splits `payment` over `beneficiaries` under the default policy, which
/// refuses a payment of zero.
///
/// Each entry gets its share rounded down, in table order, and the first
/// entry the residual on top. An empty table, a payment of zero and a table
/// that does not add up to the whole are refused, in this order.
pub fn distribute(payment: u128, beneficiaries: &Vec<Beneficiary>) -> (result: Result<
    Distribution,
    SettlementError,
>)
    ensures
        match result {
            Ok(distribution) => {
                &&& distribute_error(payment as int, beneficiaries@) is None
                &&& distribution.payment == payment
                &&& is_split_of(distribution.allocations@, payment as int, beneficiaries@)
                &&& amounts_total(distribution.allocations@) == payment
            },
            Err(error) => distribute_error(payment as int, beneficiaries@) == Some(error),
        },
{
    distribute_with_policy(payment, beneficiaries, false)
}

/// Splits `payment` over `beneficiaries` as `distribute` does, under the
/// policy given: with `allow_zero` a payment of zero is split into
/// allocations of zero, without it it is refused with `ZeroPayment`.
pub fn distribute_with_policy(
    payment: u128,
    beneficiaries: &Vec<Beneficiary>,
    allow_zero: bool,
) -> (result: Result<Distribution, SettlementError>)
    ensures
        match result {
            Ok(distribution) => {
                &&& policy_error(payment as int, beneficiaries@, allow_zero) is None
                &&& distribution.payment == payment
                &&& is_split_of(distribution.allocations@, payment as int, beneficiaries@)
                &&& amounts_total(distribution.allocations@) == payment
            },
            Err(error) => policy_error(payment as int, beneficiaries@, allow_zero) == Some(error),
        },
{
    if beneficiaries.len() == 0 {
        return Err(SettlementError::EmptyBeneficiaryTable);
    }
    if payment == 0 && !allow_zero {
        return Err(SettlementError::ZeroPayment);
    }
    if !adds_up_to_whole(beneficiaries) {
        return Err(SettlementError::InvalidBeneficiaryTable);
    }
    Ok(split_payment(payment, beneficiaries))
}

/// Splits `amount` over `recipients` as `distribute` does and reports the
/// distribution: the response carries the method, the amount and every
/// allocation as attributes. The payouts are then the ledger's to make;
/// `ledger::settle_distribution` takes its answer.
pub fn distribute_royalties(recipients: &Vec<Beneficiary>, amount: u128) -> (result: Result<
    (Distribution, Response<Empty>),
    SettlementError,
>)
    ensures
        match result {
            Ok((distribution, response)) => {
                &&& distribute_error(amount as int, recipients@) is None
                &&& distribution.payment == amount
                &&& is_split_of(distribution.allocations@, amount as int, recipients@)
                &&& amounts_total(distribution.allocations@) == amount
                &&& response_attributes(response) == distribution_attributes(distribution)
            },
            Err(error) => distribute_error(amount as int, recipients@) == Some(error),
        },
{
    match distribute(amount, recipients) {
        Ok(distribution) => {
            let response = distribution_receipt(&distribution);
            Ok((distribution, response))
        },
        Err(error) => Err(error),
    }
}

/// Splits `payment` over a table that is not empty and adds up to the whole;
/// a payment of zero is split into allocations of zero.
pub fn split_payment(payment: u128, beneficiaries: &Vec<Beneficiary>) -> (distribution:
    Distribution)
    requires
        beneficiaries.len() > 0,
        total_basis_points(beneficiaries@) == 10_000,
    ensures
        distribution.payment == payment,
        is_split_of(distribution.allocations@, payment as int, beneficiaries@),
        amounts_total(distribution.allocations@) == payment,
{
    let ghost table = beneficiaries@;
    let ghost p = payment as int;
    let mut allocations: Vec<Allocation> = Vec::new();
    let mut floors: u128 = 0;
    let mut i: usize = 0;
    while i < beneficiaries.len()
        invariant
            0 <= i <= table.len(),
            table == beneficiaries@,
            p == payment,
            total_basis_points(table) == 10_000,
            allocations@.len() == i,
            floors == floor_total(p, table.take(i as int)),
            forall|j: int|
                0 <= j < i ==> {
                    &&& (#[trigger] allocations@[j]).account@ == table[j].account@
                    &&& allocations@[j].amount == floor_share(p, table[j].basis_points as int)
                },
        decreases table.len() - i,
    {
        proof {
            lemma_entry_at_most_total(table, i as int);
            lemma_prefix_step(table, i as int);
            lemma_prefix_floor_total(p, table, i + 1);
        }
        let share: u128 = proportional_share(payment, beneficiaries[i].basis_points);
        floors = floors + share;
        allocations.push(Allocation { account: beneficiaries[i].account.clone(), amount: share });
        i = i + 1;
    }
    proof {
        assert(table.take(i as int) =~= table);
        lemma_prefix_floor_total(p, table, i as int);
        lemma_floor_total_first(p, table);
    }
    let left: u128 = payment - floors;
    let first: u128 = allocations[0].amount;
    allocations.set(
        0,
        Allocation { account: beneficiaries[0].account.clone(), amount: first + left },
    );
    proof {
        assert(is_split_of(allocations@, p, table));
        lemma_split_is_sum_exact(allocations@, p, table);
    }
    Distribution { payment, allocations }
}

/// The first entry's rounded-down share is part of the table's sum of such
/// shares.
proof fn lemma_floor_total_first(payment: int, table: Seq<Beneficiary>)
    requires
        0 <= payment,
        table.len() > 0,
    ensures
        floor_share(payment, table[0].basis_points as int) <= floor_total(payment, table),
    decreases table.len(),
{
    lemma_floor_share_bounds(payment, table.last().basis_points as int);
    if table.len() == 1 {
        assert(floor_total(payment, table.drop_last()) == 0);
    } else {
        lemma_floor_total_first(payment, table.drop_last());
    }
}

} // verus!
