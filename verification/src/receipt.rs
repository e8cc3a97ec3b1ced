//! Acknowledgments: the responses that report an operation to the chain,
//! as attributes for audit indexing.
//!
//! The response type is `cosmwasm_std::Response`. What a response holds in
//! attributes is known to the proofs as `response_attributes`; the two
//! functions that touch the outside type are believed, not proved.

use vstd::prelude::*;
use vstd::string::StringExecFns;
use cosmwasm_std::{Empty, Response};
use crate::types::{Allocation, Distribution};

verus! {

/// `cosmwasm_std::Response`, carried through as an opaque value.
#[verifier::external_type_specification]
#[verifier::external_body]
#[verifier::reject_recursive_types(T)]
pub struct ExResponse<T>(cosmwasm_std::Response<T>);

/// `cosmwasm_std::Empty`, the custom message type of a plain response.
#[verifier::external_type_specification]
#[verifier::external_body]
pub struct ExEmpty(cosmwasm_std::Empty);

/// The attributes of a response, as pairs of key and value, in the order
/// in which they were added.
pub uninterp spec fn response_attributes(response: Response<Empty>) -> Seq<(Seq<char>, Seq<char>)>;

/// `cosmwasm_std::Response::new`: a fresh response holds no attribute.
#[verifier::external_body]
fn empty_response() -> (response: Response<Empty>)
    ensures
        response_attributes(response) == Seq::<(Seq<char>, Seq<char>)>::empty(),
{
    Response::new()
}

/// `cosmwasm_std::Response::add_attribute`: the same response with one more
/// attribute at the end. The outside function panics in debug builds on a
/// key that starts with an underscore, so such a key is not admitted.
#[verifier::external_body]
fn with_attribute(response: Response<Empty>, key: &str, value: &str) -> (extended: Response<Empty>)
    requires
        key@.len() == 0 || key@[0] != '_',
    ensures
        response_attributes(extended) == response_attributes(response).push((key@, value@)),
{
    response.add_attribute(key, value)
}

/// The character of a decimal digit.
pub open spec fn digit_char(digit: nat) -> char {
    if digit == 0 {
        '0'
    } else if digit == 1 {
        '1'
    } else if digit == 2 {
        '2'
    } else if digit == 3 {
        '3'
    } else if digit == 4 {
        '4'
    } else if digit == 5 {
        '5'
    } else if digit == 6 {
        '6'
    } else if digit == 7 {
        '7'
    } else if digit == 8 {
        '8'
    } else {
        '9'
    }
}

/// A number in decimal digits, without sign and without leading zeros.
pub open spec fn decimal_text(n: nat) -> Seq<char>
    decreases n,
{
    if n < 10 {
        seq![digit_char(n)]
    } else {
        decimal_text(n / 10).push(digit_char(n % 10))
    }
}

fn digit_text(digit: u128) -> (text: &'static str)
    requires
        digit < 10,
    ensures
        text@ == seq![digit_char(digit as nat)],
{
    proof {
        reveal_strlit("0");
        reveal_strlit("1");
        reveal_strlit("2");
        reveal_strlit("3");
        reveal_strlit("4");
        reveal_strlit("5");
        reveal_strlit("6");
        reveal_strlit("7");
        reveal_strlit("8");
        reveal_strlit("9");
    }
    let text = if digit == 0 {
        "0"
    } else if digit == 1 {
        "1"
    } else if digit == 2 {
        "2"
    } else if digit == 3 {
        "3"
    } else if digit == 4 {
        "4"
    } else if digit == 5 {
        "5"
    } else if digit == 6 {
        "6"
    } else if digit == 7 {
        "7"
    } else if digit == 8 {
        "8"
    } else {
        "9"
    };
    assert(text@ =~= seq![digit_char(digit as nat)]);
    text
}

/// Writes a number in decimal digits.
pub fn decimal(n: u128) -> (text: String)
    ensures
        text@ == decimal_text(n as nat),
    decreases n,
{
    if n < 10 {
        String::from_str(digit_text(n))
    } else {
        let mut text = decimal(n / 10);
        text.append(digit_text(n % 10));
        assert(text@ =~= decimal_text(n as nat));
        text
    }
}

/// The attributes that report an action on an asset.
pub open spec fn action_attributes(action: Seq<char>, asset_id: u64) -> Seq<(Seq<char>, Seq<char>)> {
    seq![("action"@, action), ("asset_id"@, decimal_text(asset_id as nat))]
}

/// The attributes that report an action on an asset with the amount that
/// it was about.
pub open spec fn amount_attributes(action: Seq<char>, asset_id: u64, amount: u128) -> Seq<
    (Seq<char>, Seq<char>),
> {
    action_attributes(action, asset_id).push(("amount"@, decimal_text(amount as nat)))
}

/// The attributes that report a new listing: the action and the price
/// first, then the asset, the shares offered and the listing's id.
pub open spec fn listing_attributes(
    asset_id: u64,
    price: u128,
    shares_offered: u128,
    listing_id: usize,
) -> Seq<(Seq<char>, Seq<char>)> {
    seq![
        ("action"@, "list_ip_asset"@),
        ("price"@, decimal_text(price as nat)),
        ("asset_id"@, decimal_text(asset_id as nat)),
        ("shares_offered"@, decimal_text(shares_offered as nat)),
        ("listing_id"@, decimal_text(listing_id as nat)),
    ]
}

/// The attributes that report the allocations of a distribution: for each
/// one the recipient, then the share.
pub open spec fn allocation_attributes(allocations: Seq<Allocation>) -> Seq<(Seq<char>, Seq<char>)>
    decreases allocations.len(),
{
    if allocations.len() == 0 {
        Seq::empty()
    } else {
        allocation_attributes(allocations.drop_last()).push(
            ("recipient"@, allocations.last().account@),
        ).push(("share"@, decimal_text(allocations.last().amount as nat)))
    }
}

/// The attributes that report a distribution: the method, the payment, and
/// every allocation in table order.
pub open spec fn distribution_attributes(distribution: Distribution) -> Seq<(Seq<char>, Seq<char>)> {
    seq![
        ("method"@, "distribute_royalties"@),
        ("amount"@, decimal_text(distribution.payment as nat)),
    ] + allocation_attributes(distribution.allocations@)
}

proof fn lemma_keys_admitted()
    ensures
        "action"@[0] != '_',
        "asset_id"@[0] != '_',
        "amount"@[0] != '_',
        "method"@[0] != '_',
        "recipient"@[0] != '_',
        "share"@[0] != '_',
        "price"@[0] != '_',
        "shares_offered"@[0] != '_',
        "listing_id"@[0] != '_',
{
    reveal_strlit("price");
    reveal_strlit("shares_offered");
    reveal_strlit("listing_id");
    reveal_strlit("action");
    reveal_strlit("asset_id");
    reveal_strlit("amount");
    reveal_strlit("method");
    reveal_strlit("recipient");
    reveal_strlit("share");
}

/// The acknowledgment of an action on an asset: the action's name and the
/// asset's id.
fn action_receipt(action: &str, asset_id: u64) -> (response: Response<Empty>)
    ensures
        response_attributes(response) == action_attributes(action@, asset_id),
{
    proof {
        lemma_keys_admitted();
    }
    let id_text = decimal(asset_id as u128);
    let response = with_attribute(empty_response(), "action", action);
    let response = with_attribute(response, "asset_id", id_text.as_str());
    assert(response_attributes(response) =~= action_attributes(action@, asset_id));
    response
}

/// The acknowledgment of an action on an asset that moved or fixed an
/// amount: the action's name, the asset's id and the amount.
fn amount_receipt(action: &str, asset_id: u64, amount: u128) -> (response: Response<Empty>)
    ensures
        response_attributes(response) == amount_attributes(action@, asset_id, amount),
{
    proof {
        lemma_keys_admitted();
    }
    let amount_text = decimal(amount);
    with_attribute(action_receipt(action, asset_id), "amount", amount_text.as_str())
}

/// The acknowledgment of `register_asset`: the asset and its share supply.
pub fn registration_receipt(asset_id: u64, total_shares: u128) -> (response: Response<Empty>)
    ensures
        response_attributes(response) == amount_attributes(
            "register_asset"@,
            asset_id,
            total_shares,
        ),
{
    amount_receipt("register_asset", asset_id, total_shares)
}

/// The acknowledgment of `update_beneficiaries`.
pub fn update_receipt(asset_id: u64) -> (response: Response<Empty>)
    ensures
        response_attributes(response) == action_attributes("update_beneficiaries"@, asset_id),
{
    action_receipt("update_beneficiaries", asset_id)
}

/// The acknowledgment of `cancel_listing`, with the asset of the listing.
pub fn cancellation_receipt(asset_id: u64) -> (response: Response<Empty>)
    ensures
        response_attributes(response) == action_attributes("cancel_listing"@, asset_id),
{
    action_receipt("cancel_listing", asset_id)
}

/// The acknowledgment of a settled `purchase`: the asset and the payment.
pub fn purchase_receipt(asset_id: u64, payment: u128) -> (response: Response<Empty>)
    ensures
        response_attributes(response) == amount_attributes("purchase"@, asset_id, payment),
{
    amount_receipt("purchase", asset_id, payment)
}

/// The acknowledgment of a purchase that found the seller short of the
/// shares offered and closed the listing as `Invalidated`.
pub fn invalidation_receipt(asset_id: u64) -> (response: Response<Empty>)
    ensures
        response_attributes(response) == action_attributes("invalidate_listing"@, asset_id),
{
    action_receipt("invalidate_listing", asset_id)
}

/// The acknowledgment of a new listing.
pub fn listing_receipt(asset_id: u64, price: u128, shares_offered: u128, listing_id: usize) -> (response:
    Response<Empty>)
    ensures
        response_attributes(response) == listing_attributes(
            asset_id,
            price,
            shares_offered,
            listing_id,
        ),
{
    proof {
        lemma_keys_admitted();
    }
    let price_text = decimal(price);
    let asset_text = decimal(asset_id as u128);
    let shares_text = decimal(shares_offered);
    let listing_text = decimal(listing_id as u128);
    let response = with_attribute(empty_response(), "action", "list_ip_asset");
    let response = with_attribute(response, "price", price_text.as_str());
    let response = with_attribute(response, "asset_id", asset_text.as_str());
    let response = with_attribute(response, "shares_offered", shares_text.as_str());
    let response = with_attribute(response, "listing_id", listing_text.as_str());
    assert(response_attributes(response) =~= listing_attributes(
        asset_id,
        price,
        shares_offered,
        listing_id,
    ));
    response
}

/// The acknowledgment of a distribution, with each allocation on record.
pub fn distribution_receipt(distribution: &Distribution) -> (response: Response<Empty>)
    ensures
        response_attributes(response) == distribution_attributes(*distribution),
{
    proof {
        lemma_keys_admitted();
    }
    let payment_text = decimal(distribution.payment);
    let response = with_attribute(empty_response(), "method", "distribute_royalties");
    let mut response = with_attribute(response, "amount", payment_text.as_str());
    let ghost head = response_attributes(response);
    assert(head =~= seq![
        ("method"@, "distribute_royalties"@),
        ("amount"@, decimal_text(distribution.payment as nat)),
    ]);
    let mut i: usize = 0;
    while i < distribution.allocations.len()
        invariant
            0 <= i <= distribution.allocations@.len(),
            "recipient"@[0] != '_',
            "share"@[0] != '_',
            response_attributes(response) == head + allocation_attributes(
                distribution.allocations@.take(i as int),
            ),
        decreases distribution.allocations@.len() - i,
    {
        let share_text = decimal(distribution.allocations[i].amount);
        response = with_attribute(response, "recipient", distribution.allocations[i].account.as_str());
        response = with_attribute(response, "share", share_text.as_str());
        proof {
            let allocations = distribution.allocations@;
            assert(allocations.take(i + 1).drop_last() =~= allocations.take(i as int));
            assert(allocations.take(i + 1).last() == allocations[i as int]);
            assert(response_attributes(response) =~= head + allocation_attributes(
                allocations.take(i + 1),
            ));
        }
        i = i + 1;
    }
    proof {
        assert(distribution.allocations@.take(i as int) =~= distribution.allocations@);
    }
    response
}

} // verus!
