//! Where the money of a call goes: nothing is made or lost in a sale, a
//! premium listing costs the deposit, and a caller gets back what the call
//! did not cost.

use crate::model::{
    after_call, buy_step, has_listing, listing_position, resell_step, update_step, LedgerView,
    Request,
};
use crate::payment::{
    premium_due, refund_due, required_cost, sale_due, seller_share, total, vault_share,
    CallView, TransferView, DEPOSIT_PREMIUM,
};
use crate::records::{PREMIUM, STANDARD};
use vstd::prelude::*;

verus! {

/// The amount of a refund, nothing where none is made.
pub open spec fn refunded(refund: Option<TransferView>) -> int {
    match refund {
        Some(transfer) => transfer.amount as int,
        None => 0,
    }
}

/// The seller's payout and the vault's fee make up the price, whatever the
/// price: the fee is a twentieth of it, rounded down.
pub proof fn lemma_shares_make_the_price(price: u128)
    ensures
        seller_share(price) + vault_share(price) == price,
        vault_share(price) == price as int / 20,
        0 <= vault_share(price) <= price,
        0 <= seller_share(price) <= price,
{
    assert(vault_share(price) == price as int / 20) by (nonlinear_arith)
        requires
            vault_share(price) == (price as int * 500) / 10_000,
    ;
}

/// A refund leaves the caller's payment at what was forwarded and the cost
/// of the storage, but for one unit at most that is not sent back.
pub proof fn lemma_refund_keeps_one_unit_at_most(
    call: CallView,
    storage_used: u64,
    extra_spend: u128,
)
    ensures
        refund_due(call, storage_used, extra_spend) matches Ok(refund) ==> {
            &&& 0 <= call.attached_deposit - refunded(refund) - extra_spend - required_cost(
                storage_used,
            ) <= 1
            &&& refund matches Some(transfer) ==> transfer.receiver_id
                == call.predecessor_account_id
        },
        refund_due(call, storage_used, extra_spend) is Err <==> call.attached_deposit
            < extra_spend + required_cost(storage_used),
{
}

/// A sale that goes through was paid in full, hands the whole price to the
/// seller and the vault, and keeps of the rest no more than the storage cost
/// and one unit.
pub proof fn lemma_sale_moves_the_price(
    seller: Seq<char>,
    vault: Seq<char>,
    price: u128,
    call: CallView,
)
    ensures
        sale_due(seller, vault, price, call) matches Ok(transfers) ==> {
            &&& call.attached_deposit >= price
            &&& 2 <= transfers.len() <= 3
            &&& transfers[0] == TransferView {
                receiver_id: seller,
                amount: seller_share(price) as u128,
            }
            &&& transfers[1] == TransferView {
                receiver_id: vault,
                amount: vault_share(price) as u128,
            }
            &&& transfers[0].amount + transfers[1].amount == price
            &&& 0 <= call.attached_deposit - total(transfers) - required_cost(call.storage_used)
                <= 1
        },
        sale_due(seller, vault, price, call) is Err <==> call.attached_deposit < price
            + required_cost(call.storage_used),
{
    lemma_shares_make_the_price(price);
    if sale_due(seller, vault, price, call) is Ok {
        let transfers = sale_due(seller, vault, price, call).unwrap();
        let base = seq![
            TransferView { receiver_id: seller, amount: seller_share(price) as u128 },
            TransferView { receiver_id: vault, amount: vault_share(price) as u128 },
        ];
        lemma_total_of_two(base);
        if transfers.len() == 3 {
            assert(transfers.drop_last() =~= base);
        } else {
            assert(transfers =~= base);
        }
    }
}

/// A premium deposit that goes through hands the whole deposit to the vault
/// and keeps of the rest no more than the storage cost and one unit.
pub proof fn lemma_premium_moves_the_deposit(vault: Seq<char>, call: CallView)
    ensures
        premium_due(vault, call) matches Ok(transfers) ==> {
            &&& call.attached_deposit >= DEPOSIT_PREMIUM
            &&& 1 <= transfers.len() <= 2
            &&& transfers[0] == TransferView { receiver_id: vault, amount: DEPOSIT_PREMIUM }
            &&& 0 <= call.attached_deposit - total(transfers) - required_cost(call.storage_used)
                <= 1
        },
        premium_due(vault, call) is Err <==> call.attached_deposit < DEPOSIT_PREMIUM
            + required_cost(call.storage_used),
{
    if premium_due(vault, call) is Ok {
        let transfers = premium_due(vault, call).unwrap();
        let base = seq![TransferView { receiver_id: vault, amount: DEPOSIT_PREMIUM }];
        lemma_total_of_one(base);
        if transfers.len() == 2 {
            assert(transfers.drop_last() =~= base);
        } else {
            assert(transfers =~= base);
        }
    }
}

/// No purchase goes through with less than the price attached, and one that
/// does pays the seller and the vault the price between them. A purchase
/// that is rejected leaves the ledger as it was.
pub proof fn lemma_buy_pays_the_price(before: LedgerView, call: CallView, id: i128)
    ensures
        buy_step(before, call, id) matches Ok(step) ==> {
            let listed = before.published[listing_position(before.published, id)];
            &&& has_listing(before.published, id)
            &&& listed.is_active
            &&& call.attached_deposit >= listed.price
            &&& step.transfers[0].receiver_id == listed.user_seller
            &&& step.transfers[1].receiver_id == before.vault_id
            &&& step.transfers[0].amount == seller_share(listed.price)
            &&& step.transfers[1].amount == vault_share(listed.price)
            &&& step.transfers[0].amount + step.transfers[1].amount == listed.price
            &&& 0 <= call.attached_deposit - total(step.transfers) - required_cost(
                call.storage_used,
            ) <= 1
        },
        buy_step(before, call, id) is Err ==> after_call(before, call, Request::Buy { id })
            == before,
{
    if buy_step(before, call, id) is Ok {
        let listed = before.published[listing_position(before.published, id)];
        lemma_sale_moves_the_price(listed.user_seller, before.vault_id, listed.price, call);
    }
}

/// A resale as a premium listing goes through only with the deposit
/// attached, and then hands the whole deposit to the vault first. With less
/// attached the call is rejected and the ledger stays as it was.
pub proof fn lemma_premium_resale_pays_the_deposit(
    before: LedgerView,
    call: CallView,
    id: i128,
    price: u128,
)
    ensures
        resell_step(before, call, id, price, PREMIUM) matches Ok(step) ==> {
            &&& call.attached_deposit >= DEPOSIT_PREMIUM
            &&& step.transfers[0] == TransferView {
                receiver_id: before.vault_id,
                amount: DEPOSIT_PREMIUM,
            }
            &&& 0 <= call.attached_deposit - total(step.transfers) - required_cost(
                call.storage_used,
            ) <= 1
        },
        call.attached_deposit < DEPOSIT_PREMIUM ==> resell_step(before, call, id, price, PREMIUM)
            is Err,
        call.attached_deposit < DEPOSIT_PREMIUM ==> after_call(
            before,
            call,
            Request::Resell { id, price, post_type: PREMIUM },
        ) == before,
{
    lemma_premium_moves_the_deposit(before.vault_id, call);
}

/// Turning a standard listing into a premium one goes through only with the
/// deposit attached, and then hands the whole deposit to the vault first.
/// With less attached the call is rejected and the ledger stays as it was.
pub proof fn lemma_premium_update_pays_the_deposit(
    before: LedgerView,
    call: CallView,
    id: i128,
    price: u128,
    is_active: bool,
)
    requires
        has_listing(before.published, id),
        before.published[listing_position(before.published, id)].post_type == STANDARD,
    ensures
        update_step(before, call, id, price, is_active, PREMIUM) matches Ok(step) ==> {
            &&& call.attached_deposit >= DEPOSIT_PREMIUM
            &&& step.transfers[0] == TransferView {
                receiver_id: before.vault_id,
                amount: DEPOSIT_PREMIUM,
            }
            &&& 0 <= call.attached_deposit - total(step.transfers) - required_cost(
                call.storage_used,
            ) <= 1
        },
        call.attached_deposit < DEPOSIT_PREMIUM ==> update_step(
            before,
            call,
            id,
            price,
            is_active,
            PREMIUM,
        ) is Err,
        call.attached_deposit < DEPOSIT_PREMIUM ==> after_call(
            before,
            call,
            Request::Update { id, price, is_active, post_type: PREMIUM },
        ) == before,
{
    lemma_premium_moves_the_deposit(before.vault_id, call);
}

/// A call that forwards nothing makes no transfer at all: a standard resale
/// and every update but the one from standard to premium.
pub proof fn lemma_free_calls_move_nothing(
    before: LedgerView,
    call: CallView,
    id: i128,
    price: u128,
    is_active: bool,
    post_type: i8,
)
    ensures
        resell_step(before, call, id, price, STANDARD) matches Ok(step) ==> step.transfers.len()
            == 0,
        update_step(before, call, id, price, is_active, post_type) matches Ok(step) ==> (
        before.published[listing_position(before.published, id)].post_type == PREMIUM || post_type
            == STANDARD) ==> step.transfers.len() == 0,
{
}

proof fn lemma_total_of_one(transfers: Seq<TransferView>)
    requires
        transfers.len() == 1,
    ensures
        total(transfers) == transfers[0].amount,
        forall|last: TransferView| #[trigger]
            total(transfers.push(last)) == transfers[0].amount + last.amount,
{
    reveal_with_fuel(total, 3);
    assert forall|last: TransferView| #[trigger]
        total(transfers.push(last)) == transfers[0].amount + last.amount by {
        assert(transfers.push(last).drop_last() =~= transfers);
    }
}

proof fn lemma_total_of_two(transfers: Seq<TransferView>)
    requires
        transfers.len() == 2,
    ensures
        total(transfers) == transfers[0].amount + transfers[1].amount,
        forall|last: TransferView| #[trigger]
            total(transfers.push(last)) == transfers[0].amount + transfers[1].amount
                + last.amount,
{
    reveal_with_fuel(total, 4);
    assert(transfers.drop_last().drop_last() =~= Seq::empty());
    assert forall|last: TransferView| #[trigger]
        total(transfers.push(last)) == transfers[0].amount + transfers[1].amount
            + last.amount by {
        assert(transfers.push(last).drop_last() =~= transfers);
    }
}

} // verus!
