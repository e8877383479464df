//! The ledger as a mathematical value, and what each call makes of it.
//!
//! A step takes the ledger before the call and what the host tells about
//! the call. It gives the error of a rejected call, or the ledger after the
//! call together with the value returned, the transfers and the event.

use crate::event::{
    buy_event, cancel_event, publish_event, resell_event, retire_event, update_event, EventView,
};
use crate::payment::{premium_due, sale_due, CallView, TransferView};
use crate::records::{
    is_listing_kind, LedgerError, PublishedView, PurchasedView, PREMIUM, STANDARD,
};
use vstd::prelude::*;

verus! {

/// The state of the marketplace.
pub struct LedgerView {
    /// The account that set the marketplace up.
    pub owner_id: Seq<char>,
    /// The account that receives fees and premium deposits.
    pub vault_id: Seq<char>,
    /// The id given to the listing published last; zero before the first.
    pub id_domain: i128,
    /// The domains for sale, oldest entry first.
    pub published: Seq<PublishedView>,
    /// The domains that were bought, oldest entry first.
    pub purchased: Seq<PurchasedView>,
    /// The accounts that may publish and manage administrators.
    pub administrators: Set<Seq<char>>,
}

/// What a call that went through has done.
pub struct Step<V> {
    pub after: LedgerView,
    pub value: V,
    pub transfers: Seq<TransferView>,
    pub event: EventView,
}

/// Whether a row of `rows` has the id.
pub open spec fn has_listing(rows: Seq<PublishedView>, id: i128) -> bool {
    exists|i: int| 0 <= i < rows.len() && (#[trigger] rows[i]).id == id
}

/// Where the row with the id stands in `rows`.
pub open spec fn listing_position(rows: Seq<PublishedView>, id: i128) -> int {
    choose|i: int| 0 <= i < rows.len() && (#[trigger] rows[i]).id == id
}

/// Whether a row of `rows` has the id.
pub open spec fn has_purchase(rows: Seq<PurchasedView>, id: i128) -> bool {
    exists|i: int| 0 <= i < rows.len() && (#[trigger] rows[i]).id == id
}

/// Where the row with the id stands in `rows`.
pub open spec fn purchase_position(rows: Seq<PurchasedView>, id: i128) -> int {
    choose|i: int| 0 <= i < rows.len() && (#[trigger] rows[i]).id == id
}

/// Whether no two rows of `rows` share an id.
pub open spec fn distinct_listings(rows: Seq<PublishedView>) -> bool {
    forall|i: int, j: int|
        0 <= i < j < rows.len() ==> (#[trigger] rows[i]).id != (#[trigger] rows[j]).id
}

/// Whether no two rows of `rows` share an id.
pub open spec fn distinct_purchases(rows: Seq<PurchasedView>) -> bool {
    forall|i: int, j: int|
        0 <= i < j < rows.len() ==> (#[trigger] rows[i]).id != (#[trigger] rows[j]).id
}

/// Whether every row of `rows` has an id that a counter at `id_domain` has
/// handed out, and a kind that is standard or premium.
pub open spec fn listings_in_range(rows: Seq<PublishedView>, id_domain: i128) -> bool {
    forall|i: int|
        0 <= i < rows.len() ==> {
            &&& 0 < (#[trigger] rows[i]).id <= id_domain
            &&& is_listing_kind(rows[i].post_type)
        }
}

/// Whether every row of `rows` has an id that a counter at `id_domain` has
/// handed out, and a kind that is standard or premium.
pub open spec fn purchases_in_range(rows: Seq<PurchasedView>, id_domain: i128) -> bool {
    forall|i: int|
        0 <= i < rows.len() ==> {
            &&& 0 < (#[trigger] rows[i]).id <= id_domain
            &&& is_listing_kind(rows[i].post_type)
        }
}

/// Whether no id of `published` is an id of `purchased`.
pub open spec fn apart(published: Seq<PublishedView>, purchased: Seq<PurchasedView>) -> bool {
    forall|i: int, j: int|
        0 <= i < published.len() && 0 <= j < purchased.len() ==> (#[trigger] published[i]).id
            != (#[trigger] purchased[j]).id
}

impl LedgerView {
    /// The ledger of a marketplace that was just set up.
    pub open spec fn initial(owner_id: Seq<char>, vault_id: Seq<char>) -> LedgerView {
        LedgerView {
            owner_id,
            vault_id,
            id_domain: 0,
            published: Seq::empty(),
            purchased: Seq::empty(),
            administrators: Set::empty(),
        }
    }

    /// Whether `who` is the owner or an administrator.
    pub open spec fn is_manager(self, who: Seq<char>) -> bool {
        who == self.owner_id || self.administrators.contains(who)
    }

    /// What holds of every ledger: ids were handed out by the counter, each
    /// stands in one row of one table at most, and every kind is standard or
    /// premium.
    pub open spec fn wf(self) -> bool {
        &&& 0 <= self.id_domain
        &&& listings_in_range(self.published, self.id_domain)
        &&& purchases_in_range(self.purchased, self.id_domain)
        &&& distinct_listings(self.published)
        &&& distinct_purchases(self.purchased)
        &&& apart(self.published, self.purchased)
    }
}

/// Setting the marketplace up: rejected where it was set up before.
pub open spec fn new_step(owner_id: Seq<char>, vault_id: Seq<char>, state_exists: bool) -> Result<
    LedgerView,
    LedgerError,
> {
    if state_exists {
        Err(LedgerError::AlreadyInitialized)
    } else {
        Ok(LedgerView::initial(owner_id, vault_id))
    }
}

/// Making `user` an administrator: for managers only, and rejected where
/// `user` is one already.
pub open spec fn set_admin_step(before: LedgerView, call: CallView, user: Seq<char>) -> Result<
    LedgerView,
    LedgerError,
> {
    if !before.is_manager(call.signer_account_id) {
        Err(LedgerError::PermissionDenied)
    } else if before.administrators.contains(user) {
        Err(LedgerError::AlreadyExists)
    } else {
        Ok(LedgerView { administrators: before.administrators.insert(user), ..before })
    }
}

/// Taking `user` off the administrators: for managers only, and rejected
/// where `user` is none.
pub open spec fn delete_admin_step(before: LedgerView, call: CallView, user: Seq<char>) -> Result<
    LedgerView,
    LedgerError,
> {
    if !before.is_manager(call.signer_account_id) {
        Err(LedgerError::PermissionDenied)
    } else if !before.administrators.contains(user) {
        Err(LedgerError::NotFound)
    } else {
        Ok(LedgerView { administrators: before.administrators.remove(user), ..before })
    }
}

/// Publishing a domain: for managers only. The listing gets the next id, is
/// standard and active, and carries the time of the block.
pub open spec fn publish_step(
    before: LedgerView,
    call: CallView,
    domain: Seq<char>,
    user_seller: Seq<char>,
    price: u128,
) -> Result<Step<PublishedView>, LedgerError>
    recommends
        before.id_domain < i128::MAX,
{
    if !before.is_manager(call.signer_account_id) {
        Err(LedgerError::PermissionDenied)
    } else {
        let row = PublishedView {
            id: (before.id_domain + 1) as i128,
            domain,
            user_seller,
            price,
            post_type: STANDARD,
            is_active: true,
            date_time: call.block_timestamp,
        };
        Ok(
            Step {
                after: LedgerView {
                    id_domain: row.id,
                    published: before.published.push(row),
                    ..before
                },
                value: row,
                transfers: Seq::empty(),
                event: publish_event(row),
            },
        )
    }
}

/// Putting a purchased domain up for sale again: for its owner, unless it
/// was retired. The row leaves the purchased table and a new active listing
/// joins the published one. A premium listing costs the deposit, which goes
/// to the vault; a standard one moves nothing.
pub open spec fn resell_step(
    before: LedgerView,
    call: CallView,
    id: i128,
    price: u128,
    post_type: i8,
) -> Result<Step<PublishedView>, LedgerError> {
    if !has_purchase(before.purchased, id) {
        Err(LedgerError::NotFound)
    } else {
        let at = purchase_position(before.purchased, id);
        let bought = before.purchased[at];
        if bought.owner_id != call.signer_account_id || bought.retired {
            Err(LedgerError::PermissionDenied)
        } else if !is_listing_kind(post_type) {
            Err(LedgerError::InvalidArgument)
        } else {
            let row = PublishedView {
                id: bought.id,
                domain: bought.domain,
                user_seller: bought.owner_id,
                price,
                post_type,
                is_active: true,
                date_time: call.block_timestamp,
            };
            let after = LedgerView {
                published: before.published.push(row),
                purchased: before.purchased.remove(at),
                ..before
            };
            if post_type == STANDARD {
                Ok(Step { after, value: row, transfers: Seq::empty(), event: resell_event(row) })
            } else {
                match premium_due(before.vault_id, call) {
                    Ok(transfers) => Ok(
                        Step { after, value: row, transfers, event: resell_event(row) },
                    ),
                    Err(e) => Err(e),
                }
            }
        }
    }
}

/// Changing a listing: for its seller. Price, active flag and kind are
/// replaced in place. Turning a standard listing into a premium one costs
/// the deposit, which goes to the vault; every other change moves nothing.
pub open spec fn update_step(
    before: LedgerView,
    call: CallView,
    id: i128,
    price: u128,
    is_active: bool,
    post_type: i8,
) -> Result<Step<PublishedView>, LedgerError> {
    if !has_listing(before.published, id) {
        Err(LedgerError::NotFound)
    } else {
        let at = listing_position(before.published, id);
        let listed = before.published[at];
        if listed.user_seller != call.signer_account_id {
            Err(LedgerError::PermissionDenied)
        } else if !is_listing_kind(post_type) {
            Err(LedgerError::InvalidArgument)
        } else {
            let row = PublishedView { price, is_active, post_type, ..listed };
            let after = LedgerView { published: before.published.update(at, row), ..before };
            if listed.post_type == PREMIUM || post_type == STANDARD {
                Ok(Step { after, value: row, transfers: Seq::empty(), event: update_event(row) })
            } else {
                match premium_due(before.vault_id, call) {
                    Ok(transfers) => Ok(
                        Step { after, value: row, transfers, event: update_event(row) },
                    ),
                    Err(e) => Err(e),
                }
            }
        }
    }
}

/// Buying a listing: it must be active and the payment must cover the
/// price. The seller and the vault share the price, the listing leaves the
/// published table, and a row owned by the signer joins the purchased one.
pub open spec fn buy_step(before: LedgerView, call: CallView, id: i128) -> Result<
    Step<()>,
    LedgerError,
> {
    if !has_listing(before.published, id) {
        Err(LedgerError::NotFound)
    } else {
        let at = listing_position(before.published, id);
        let listed = before.published[at];
        if !listed.is_active {
            Err(LedgerError::InsufficientPayment)
        } else {
            match sale_due(listed.user_seller, before.vault_id, listed.price, call) {
                Ok(transfers) => {
                    let row = PurchasedView {
                        id,
                        domain: listed.domain,
                        user_seller: listed.user_seller,
                        owner_id: call.signer_account_id,
                        purchase_price: listed.price,
                        retired: false,
                        post_type: listed.post_type,
                        date_time: call.block_timestamp,
                    };
                    Ok(
                        Step {
                            after: LedgerView {
                                published: before.published.remove(at),
                                purchased: before.purchased.push(row),
                                ..before
                            },
                            value: (),
                            transfers,
                            event: buy_event(row),
                        },
                    )
                },
                Err(e) => Err(e),
            }
        }
    }
}

/// Withdrawing a purchased domain from resale: for its owner. The row
/// stays where it is, marked as retired.
pub open spec fn retire_step(before: LedgerView, call: CallView, id: i128) -> Result<
    Step<PurchasedView>,
    LedgerError,
> {
    if !has_purchase(before.purchased, id) {
        Err(LedgerError::NotFound)
    } else {
        let at = purchase_position(before.purchased, id);
        let bought = before.purchased[at];
        if bought.owner_id != call.signer_account_id {
            Err(LedgerError::PermissionDenied)
        } else {
            let row = PurchasedView { retired: true, ..bought };
            Ok(
                Step {
                    after: LedgerView { purchased: before.purchased.update(at, row), ..before },
                    value: row,
                    transfers: Seq::empty(),
                    event: retire_event(id, call.signer_account_id, call.block_timestamp),
                },
            )
        }
    }
}

/// Taking a listing down: for its seller. The row leaves the published
/// table for good.
pub open spec fn cancel_step(before: LedgerView, call: CallView, id: i128) -> Result<
    Step<()>,
    LedgerError,
> {
    if !has_listing(before.published, id) {
        Err(LedgerError::NotFound)
    } else {
        let at = listing_position(before.published, id);
        let listed = before.published[at];
        if listed.user_seller != call.signer_account_id {
            Err(LedgerError::PermissionDenied)
        } else {
            Ok(
                Step {
                    after: LedgerView { published: before.published.remove(at), ..before },
                    value: (),
                    transfers: Seq::empty(),
                    event: cancel_event(id, call.signer_account_id, call.block_timestamp),
                },
            )
        }
    }
}

/// A call that changes the ledger, with its arguments.
pub enum Request {
    SetAdmin { user_id: Seq<char> },
    DeleteAdmin { user_id: Seq<char> },
    Publish { domain: Seq<char>, user_seller: Seq<char>, price: u128 },
    Resell { id: i128, price: u128, post_type: i8 },
    Update { id: i128, price: u128, is_active: bool, post_type: i8 },
    Buy { id: i128 },
    Retire { id: i128 },
    Cancel { id: i128 },
}

/// The ledger after a call: the ledger before it where the call was
/// rejected, and where the counter of ids has run out.
pub open spec fn after_call(before: LedgerView, call: CallView, request: Request) -> LedgerView {
    match request {
        Request::SetAdmin { user_id } => match set_admin_step(before, call, user_id) {
            Ok(after) => after,
            Err(_) => before,
        },
        Request::DeleteAdmin { user_id } => match delete_admin_step(before, call, user_id) {
            Ok(after) => after,
            Err(_) => before,
        },
        Request::Publish { domain, user_seller, price } => if before.id_domain < i128::MAX {
            match publish_step(before, call, domain, user_seller, price) {
                Ok(step) => step.after,
                Err(_) => before,
            }
        } else {
            before
        },
        Request::Resell { id, price, post_type } => match resell_step(
            before,
            call,
            id,
            price,
            post_type,
        ) {
            Ok(step) => step.after,
            Err(_) => before,
        },
        Request::Update { id, price, is_active, post_type } => match update_step(
            before,
            call,
            id,
            price,
            is_active,
            post_type,
        ) {
            Ok(step) => step.after,
            Err(_) => before,
        },
        Request::Buy { id } => match buy_step(before, call, id) {
            Ok(step) => step.after,
            Err(_) => before,
        },
        Request::Retire { id } => match retire_step(before, call, id) {
            Ok(step) => step.after,
            Err(_) => before,
        },
        Request::Cancel { id } => match cancel_step(before, call, id) {
            Ok(step) => step.after,
            Err(_) => before,
        },
    }
}

/// The ledger after the calls of `history`, made in order on `start`.
pub open spec fn after_calls(start: LedgerView, history: Seq<(CallView, Request)>) -> LedgerView
    decreases history.len(),
{
    if history.len() == 0 {
        start
    } else {
        after_call(after_calls(start, history.drop_last()), history.last().0, history.last().1)
    }
}

} // verus!
