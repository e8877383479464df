//! Amounts: the vault's share of a sale, the premium deposit and the refund
//! of what a caller attached beyond the cost of the call.

use crate::records::{AccountId, LedgerError};
use vstd::prelude::*;

verus! {

/// An amount of the host's currency, in its smallest unit.
pub type Balance = u128;

/// The vault's share of a sale, in basis points.
pub const VAULT_FEE: u128 = 500;

/// The number of basis points in the whole.
pub const BASIS_POINTS: u128 = 10_000;

/// What the seller of a premium listing pays to the vault.
pub const DEPOSIT_PREMIUM: Balance = 1_000_000_000_000_000_000_000_000;

/// What the host charges for one byte of storage.
pub const STORAGE_PRICE_PER_BYTE: Balance = 10_000_000_000_000_000_000;

/// What the host tells about one call.
#[derive(Debug)]
pub struct CallContext {
    /// The account that signed the transaction.
    pub signer_account_id: AccountId,
    /// The account that made the call and attached the payment.
    pub predecessor_account_id: AccountId,
    /// The payment attached to the call.
    pub attached_deposit: Balance,
    /// The time of the block, in nanoseconds.
    pub block_timestamp: u64,
    /// The bytes of storage that the call has taken up when it settles.
    pub storage_used: u64,
}

/// What a [`CallContext`] holds.
pub struct CallView {
    pub signer_account_id: Seq<char>,
    pub predecessor_account_id: Seq<char>,
    pub attached_deposit: u128,
    pub block_timestamp: u64,
    pub storage_used: u64,
}

impl View for CallContext {
    type V = CallView;

    open spec fn view(&self) -> CallView {
        CallView {
            signer_account_id: self.signer_account_id@,
            predecessor_account_id: self.predecessor_account_id@,
            attached_deposit: self.attached_deposit,
            block_timestamp: self.block_timestamp,
            storage_used: self.storage_used,
        }
    }
}

/// An amount that the host is to move to an account.
#[derive(Debug)]
pub struct Transfer {
    pub receiver_id: AccountId,
    pub amount: Balance,
}

/// What a [`Transfer`] holds.
pub struct TransferView {
    pub receiver_id: Seq<char>,
    pub amount: u128,
}

impl View for Transfer {
    type V = TransferView;

    open spec fn view(&self) -> TransferView {
        TransferView { receiver_id: self.receiver_id@, amount: self.amount }
    }
}

impl PartialEq for Transfer {
    fn eq(&self, other: &Self) -> (same: bool) {
        self.receiver_id == other.receiver_id && self.amount == other.amount
    }
}

impl vstd::std_specs::cmp::PartialEqSpecImpl for Transfer {
    open spec fn obeys_eq_spec() -> bool {
        true
    }

    open spec fn eq_spec(&self, other: &Self) -> bool {
        self@ == other@
    }
}

/// The models of `transfers`, in order.
pub open spec fn transfers_view(transfers: Seq<Transfer>) -> Seq<TransferView> {
    Seq::new(transfers.len(), |i: int| transfers[i]@)
}

/// The sum of the amounts of `transfers`.
pub open spec fn total(transfers: Seq<TransferView>) -> int
    decreases transfers.len(),
{
    if transfers.len() == 0 {
        0
    } else {
        total(transfers.drop_last()) + transfers.last().amount
    }
}

/// The vault's share of `price`: `price * VAULT_FEE / BASIS_POINTS`, rounded
/// down, so that the remainder of the division stays with the seller.
pub open spec fn vault_share(price: u128) -> int {
    (price as int * VAULT_FEE as int) / (BASIS_POINTS as int)
}

/// What the seller receives of `price`.
pub open spec fn seller_share(price: u128) -> int {
    price as int - vault_share(price)
}

/// The cost of `storage_used` bytes of storage.
pub open spec fn required_cost(storage_used: u64) -> int {
    STORAGE_PRICE_PER_BYTE as int * storage_used as int
}

/// What is left of the attached payment once `extra_spend` was forwarded and
/// `storage_used` bytes were paid for. It may be negative.
pub open spec fn remainder(call: CallView, storage_used: u64, extra_spend: u128) -> int {
    call.attached_deposit as int - extra_spend as int - required_cost(storage_used)
}

/// The refund owed to the caller: the call fails where the payment does not
/// cover what was forwarded and the storage, and a remainder of more than one
/// unit goes back to the account that made the call.
pub open spec fn refund_due(call: CallView, storage_used: u64, extra_spend: u128) -> Result<
    Option<TransferView>,
    LedgerError,
> {
    let left = remainder(call, storage_used, extra_spend);
    if left < 0 {
        Err(LedgerError::InsufficientPayment)
    } else if left > 1 {
        Ok(Some(TransferView { receiver_id: call.predecessor_account_id, amount: left as u128 }))
    } else {
        Ok(None)
    }
}

/// `base`, followed by the refund where there is one.
pub open spec fn with_refund(base: Seq<TransferView>, refund: Option<TransferView>) -> Seq<
    TransferView,
> {
    match refund {
        Some(transfer) => base.push(transfer),
        None => base,
    }
}

/// The transfers of a premium deposit: the whole deposit to `vault`, then
/// the refund. The call fails where less than the deposit was attached.
pub open spec fn premium_due(vault: Seq<char>, call: CallView) -> Result<
    Seq<TransferView>,
    LedgerError,
> {
    if call.attached_deposit < DEPOSIT_PREMIUM {
        Err(LedgerError::InsufficientPayment)
    } else {
        match refund_due(call, call.storage_used, DEPOSIT_PREMIUM) {
            Ok(refund) => Ok(
                with_refund(
                    seq![TransferView { receiver_id: vault, amount: DEPOSIT_PREMIUM }],
                    refund,
                ),
            ),
            Err(e) => Err(e),
        }
    }
}

/// The transfers of a sale at `price`: the seller's share to `seller`, the
/// vault's share to `vault`, then the refund. The call fails where less than
/// the price was attached.
pub open spec fn sale_due(
    seller: Seq<char>,
    vault: Seq<char>,
    price: u128,
    call: CallView,
) -> Result<Seq<TransferView>, LedgerError> {
    if call.attached_deposit < price {
        Err(LedgerError::InsufficientPayment)
    } else {
        match refund_due(call, call.storage_used, price) {
            Ok(refund) => Ok(
                with_refund(
                    seq![
                        TransferView { receiver_id: seller, amount: seller_share(price) as u128 },
                        TransferView { receiver_id: vault, amount: vault_share(price) as u128 },
                    ],
                    refund,
                ),
            ),
            Err(e) => Err(e),
        }
    }
}

/// Whether `got` is the list of transfers, or the error, that `due` asks for.
pub open spec fn transfers_as_due(
    got: Result<Vec<Transfer>, LedgerError>,
    due: Result<Seq<TransferView>, LedgerError>,
) -> bool {
    match due {
        Ok(transfers) => got matches Ok(list) && transfers_view(list@) == transfers,
        Err(e) => got matches Err(f) && f == e,
    }
}

/// Splits `price` into the seller's payout and the vault's fee.
pub fn split_price(price: Balance) -> (shares: (Balance, Balance))
    ensures
        shares.0 as int == seller_share(price),
        shares.1 as int == vault_share(price),
        shares.0 + shares.1 == price,
{
    let for_vault: u128 = price / 20;
    assert(for_vault as int == vault_share(price)) by (nonlinear_arith)
        requires
            for_vault as int == (price as int) / 20,
            VAULT_FEE == 500,
            BASIS_POINTS == 10_000,
    {
        assert((price as int * 500) / 10_000 == (price as int) / 20);
    }
    (price - for_vault, for_vault)
}

/// Settles the storage cost of a call that forwarded `extra_spend` and took
/// up `storage_used` bytes: the refund to make, if any.
pub fn refund_deposit(ctx: &CallContext, storage_used: u64, extra_spend: Balance) -> (refund:
    Result<Option<Transfer>, LedgerError>)
    ensures
        match refund_due(ctx@, storage_used, extra_spend) {
            Ok(Some(transfer)) => refund matches Ok(Some(made)) && made@ == transfer,
            Ok(None) => refund matches Ok(None),
            Err(e) => refund matches Err(f) && f == e,
        },
{
    let byte_cost: Balance = near_sdk::env::storage_byte_cost();
    assert(byte_cost as int * storage_used as int <= u128::MAX) by (nonlinear_arith)
        requires
            byte_cost == 10_000_000_000_000_000_000u128,
            storage_used <= u64::MAX,
    ;
    let required_cost: Balance = byte_cost * (storage_used as u128);
    if extra_spend > ctx.attached_deposit {
        return Err(LedgerError::InsufficientPayment);
    }
    let attached_deposit: Balance = ctx.attached_deposit - extra_spend;
    if required_cost > attached_deposit {
        return Err(LedgerError::InsufficientPayment);
    }
    let refund: Balance = attached_deposit - required_cost;
    if refund > 1 {
        Ok(Some(Transfer { receiver_id: ctx.predecessor_account_id.clone(), amount: refund }))
    } else {
        Ok(None)
    }
}

/// Collects the premium deposit for `vault_id` from the payment attached to
/// the call.
pub fn pay_premium(vault_id: &AccountId, ctx: &CallContext) -> (paid: Result<
    Vec<Transfer>,
    LedgerError,
>)
    ensures
        transfers_as_due(paid, premium_due(vault_id@, ctx@)),
{
    if ctx.attached_deposit < DEPOSIT_PREMIUM {
        return Err(LedgerError::InsufficientPayment);
    }
    let mut transfers: Vec<Transfer> = Vec::new();
    transfers.push(Transfer { receiver_id: vault_id.clone(), amount: DEPOSIT_PREMIUM });
    match refund_deposit(ctx, ctx.storage_used, DEPOSIT_PREMIUM) {
        Ok(refund) => {
            match refund {
                Some(transfer) => {
                    transfers.push(transfer);
                },
                None => {},
            }
            assert(transfers_view(transfers@) =~= premium_due(vault_id@, ctx@).unwrap());
            Ok(transfers)
        },
        Err(e) => Err(e),
    }
}

/// Shares out the price of a sale between `seller_id` and `vault_id` from
/// the payment attached to the call.
pub fn pay_sale(
    seller_id: &AccountId,
    vault_id: &AccountId,
    price: Balance,
    ctx: &CallContext,
) -> (paid: Result<Vec<Transfer>, LedgerError>)
    ensures
        transfers_as_due(paid, sale_due(seller_id@, vault_id@, price, ctx@)),
{
    if ctx.attached_deposit < price {
        return Err(LedgerError::InsufficientPayment);
    }
    let (price_deducted, for_vault) = split_price(price);
    let mut transfers: Vec<Transfer> = Vec::new();
    transfers.push(Transfer { receiver_id: seller_id.clone(), amount: price_deducted });
    transfers.push(Transfer { receiver_id: vault_id.clone(), amount: for_vault });
    match refund_deposit(ctx, ctx.storage_used, price) {
        Ok(refund) => {
            match refund {
                Some(transfer) => {
                    transfers.push(transfer);
                },
                None => {},
            }
            assert(transfers_view(transfers@) =~= sale_due(
                seller_id@,
                vault_id@,
                price,
                ctx@,
            ).unwrap());
            Ok(transfers)
        },
        Err(e) => Err(e),
    }
}

} // verus!
