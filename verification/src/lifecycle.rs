//! What holds of the ledger whatever is called: it stays well formed, so
//! that an id stands in one table at most; a retired purchase and a
//! cancelled listing stay as they are; and nobody is made an administrator
//! twice.

use crate::model::{
    after_call, after_calls, buy_step, cancel_step, delete_admin_step, has_listing,
    has_purchase, listing_position, new_step, publish_step, purchase_position, resell_step,
    retire_step, set_admin_step, update_step, LedgerView, Request,
};
use crate::payment::CallView;
use crate::records::LedgerError;
use vstd::prelude::*;

verus! {

/// In a well-formed ledger, an id that stands in the published table stands
/// not in the purchased table, and the other way round.
pub proof fn lemma_one_table_per_id(ledger: LedgerView, id: i128)
    requires
        ledger.wf(),
    ensures
        !(has_listing(ledger.published, id) && has_purchase(ledger.purchased, id)),
{
    if has_listing(ledger.published, id) && has_purchase(ledger.purchased, id) {
        let i = listing_position(ledger.published, id);
        let j = purchase_position(ledger.purchased, id);
        assert(ledger.published[i].id != ledger.purchased[j].id);
    }
}

/// A well-formed ledger stays well formed without one of its listings.
pub proof fn lemma_without_listing(ledger: LedgerView, at: int)
    requires
        ledger.wf(),
        0 <= at < ledger.published.len(),
    ensures
        (LedgerView { published: ledger.published.remove(at), ..ledger }).wf(),
{
}

/// A well-formed ledger stays well formed without one of its purchases.
pub proof fn lemma_without_purchase(ledger: LedgerView, at: int)
    requires
        ledger.wf(),
        0 <= at < ledger.purchased.len(),
    ensures
        (LedgerView { purchased: ledger.purchased.remove(at), ..ledger }).wf(),
{
}

/// A marketplace that was just set up is well formed.
pub proof fn lemma_new_is_wf(owner_id: Seq<char>, vault_id: Seq<char>, state_exists: bool)
    ensures
        new_step(owner_id, vault_id, state_exists) matches Ok(ledger) ==> ledger.wf(),
{
}

/// Changing the administrators keeps the ledger well formed.
pub proof fn lemma_admin_steps_keep_wf(before: LedgerView, call: CallView, user: Seq<char>)
    requires
        before.wf(),
    ensures
        set_admin_step(before, call, user) matches Ok(after) ==> after.wf(),
        delete_admin_step(before, call, user) matches Ok(after) ==> after.wf(),
{
}

/// Making an account an administrator a second time is rejected: by the
/// same caller, and by any manager, because the account is one already.
pub proof fn lemma_set_admin_twice(
    before: LedgerView,
    call: CallView,
    again: CallView,
    user: Seq<char>,
)
    ensures
        set_admin_step(before, call, user) matches Ok(after) ==> {
            &&& after.administrators.contains(user)
            &&& set_admin_step(after, call, user) == Err::<LedgerView, LedgerError>(
                LedgerError::AlreadyExists,
            )
            &&& set_admin_step(after, again, user) is Err
            &&& after.is_manager(again.signer_account_id) ==> set_admin_step(after, again, user)
                == Err::<LedgerView, LedgerError>(LedgerError::AlreadyExists)
        },
{
}

/// Taking an account off the administrators is rejected where the account
/// is none, and where the caller is no manager.
pub proof fn lemma_delete_admin_of_a_stranger(before: LedgerView, call: CallView, user: Seq<char>)
    ensures
        !before.administrators.contains(user) ==> delete_admin_step(before, call, user) is Err,
        !before.is_manager(call.signer_account_id) ==> delete_admin_step(before, call, user)
            == Err::<LedgerView, LedgerError>(LedgerError::PermissionDenied),
        before.is_manager(call.signer_account_id) && !before.administrators.contains(user)
            ==> delete_admin_step(before, call, user) == Err::<LedgerView, LedgerError>(
            LedgerError::NotFound,
        ),
        delete_admin_step(before, call, user) matches Ok(after) ==> !after.administrators.contains(
            user,
        ),
{
}

/// Publishing keeps the ledger well formed.
pub proof fn lemma_publish_keeps_wf(
    before: LedgerView,
    call: CallView,
    domain: Seq<char>,
    user_seller: Seq<char>,
    price: u128,
)
    requires
        before.wf(),
        before.id_domain < i128::MAX,
    ensures
        publish_step(before, call, domain, user_seller, price) matches Ok(step)
            ==> step.after.wf(),
{
}

/// Reselling keeps the ledger well formed.
pub proof fn lemma_resell_keeps_wf(
    before: LedgerView,
    call: CallView,
    id: i128,
    price: u128,
    post_type: i8,
)
    requires
        before.wf(),
    ensures
        resell_step(before, call, id, price, post_type) matches Ok(step) ==> step.after.wf(),
{
}

/// Updating keeps the ledger well formed.
pub proof fn lemma_update_keeps_wf(
    before: LedgerView,
    call: CallView,
    id: i128,
    price: u128,
    is_active: bool,
    post_type: i8,
)
    requires
        before.wf(),
    ensures
        update_step(before, call, id, price, is_active, post_type) matches Ok(step)
            ==> step.after.wf(),
{
}

/// Buying keeps the ledger well formed.
pub proof fn lemma_buy_keeps_wf(before: LedgerView, call: CallView, id: i128)
    requires
        before.wf(),
    ensures
        buy_step(before, call, id) matches Ok(step) ==> step.after.wf(),
{
}

/// Retiring keeps the ledger well formed.
pub proof fn lemma_retire_keeps_wf(before: LedgerView, call: CallView, id: i128)
    requires
        before.wf(),
    ensures
        retire_step(before, call, id) matches Ok(step) ==> step.after.wf(),
{
}

/// Cancelling keeps the ledger well formed.
pub proof fn lemma_cancel_keeps_wf(before: LedgerView, call: CallView, id: i128)
    requires
        before.wf(),
    ensures
        cancel_step(before, call, id) matches Ok(step) ==> step.after.wf(),
{
}

/// Whatever is called, a well-formed ledger stays well formed.
pub proof fn lemma_call_keeps_wf(before: LedgerView, call: CallView, request: Request)
    requires
        before.wf(),
    ensures
        after_call(before, call, request).wf(),
{
    match request {
        Request::SetAdmin { user_id } => {
            lemma_admin_steps_keep_wf(before, call, user_id);
        },
        Request::DeleteAdmin { user_id } => {
            lemma_admin_steps_keep_wf(before, call, user_id);
        },
        Request::Publish { domain, user_seller, price } => {
            if before.id_domain < i128::MAX {
                lemma_publish_keeps_wf(before, call, domain, user_seller, price);
            }
        },
        Request::Resell { id, price, post_type } => {
            lemma_resell_keeps_wf(before, call, id, price, post_type);
        },
        Request::Update { id, price, is_active, post_type } => {
            lemma_update_keeps_wf(before, call, id, price, is_active, post_type);
        },
        Request::Buy { id } => {
            lemma_buy_keeps_wf(before, call, id);
        },
        Request::Retire { id } => {
            lemma_retire_keeps_wf(before, call, id);
        },
        Request::Cancel { id } => {
            lemma_cancel_keeps_wf(before, call, id);
        },
    }
}

/// At all times an id stands in one table at most: after any calls on a
/// marketplace that was just set up, the ledger is well formed, and no id is
/// both published and purchased.
pub proof fn lemma_tables_never_share_an_id(
    owner_id: Seq<char>,
    vault_id: Seq<char>,
    history: Seq<(CallView, Request)>,
    id: i128,
)
    ensures
        after_calls(LedgerView::initial(owner_id, vault_id), history).wf(),
        !(has_listing(after_calls(LedgerView::initial(owner_id, vault_id), history).published, id)
            && has_purchase(
            after_calls(LedgerView::initial(owner_id, vault_id), history).purchased,
            id,
        )),
    decreases history.len(),
{
    let start = LedgerView::initial(owner_id, vault_id);
    if history.len() > 0 {
        lemma_tables_never_share_an_id(owner_id, vault_id, history.drop_last(), id);
        lemma_call_keeps_wf(
            after_calls(start, history.drop_last()),
            history.last().0,
            history.last().1,
        );
    }
    lemma_one_table_per_id(after_calls(start, history), id);
}

/// A retired purchase stays where it is, retired, whatever is called.
pub proof fn lemma_retired_is_final(
    before: LedgerView,
    call: CallView,
    request: Request,
    id: i128,
)
    requires
        before.wf(),
        has_purchase(before.purchased, id),
        before.purchased[purchase_position(before.purchased, id)].retired,
    ensures
        has_purchase(after_call(before, call, request).purchased, id),
        after_call(before, call, request).purchased[purchase_position(
            after_call(before, call, request).purchased,
            id,
        )] == before.purchased[purchase_position(before.purchased, id)],
{
    let after = after_call(before, call, request);
    let at = purchase_position(before.purchased, id);
    let row = before.purchased[at];
    lemma_call_keeps_wf(before, call, request);
    let to: int = match request {
        Request::Resell { id: other, price, post_type } => {
            if resell_step(before, call, other, price, post_type) is Ok {
                let gone = purchase_position(before.purchased, other);
                if gone < at {
                    at - 1
                } else {
                    at
                }
            } else {
                at
            }
        },
        _ => at,
    };
    match request {
        Request::Resell { id: other, price, post_type } => {
            if resell_step(before, call, other, price, post_type) is Ok {
                let gone = purchase_position(before.purchased, other);
                assert(gone != at);
            }
        },
        Request::Retire { id: other } => {
            if retire_step(before, call, other) is Ok {
                let changed = purchase_position(before.purchased, other);
                if changed == at {
                    assert(after.purchased[at] == row);
                }
            }
        },
        _ => {},
    }
    assert(0 <= to < after.purchased.len());
    assert(after.purchased[to] == row);
    crate::tables::lemma_purchase_found(after.purchased, id, to);
}

/// An id that was handed out and stands in neither table, because its
/// listing was cancelled, never comes back, whatever is called.
pub proof fn lemma_cancelled_is_final(
    before: LedgerView,
    call: CallView,
    request: Request,
    id: i128,
)
    requires
        before.wf(),
        0 < id <= before.id_domain,
        !has_listing(before.published, id),
        !has_purchase(before.purchased, id),
    ensures
        !has_listing(after_call(before, call, request).published, id),
        !has_purchase(after_call(before, call, request).purchased, id),
{
    let after = after_call(before, call, request);
    assert forall|i: int| 0 <= i < after.published.len() implies (#[trigger] after.published[i]).id
        != id by {
        lemma_row_comes_from(before, call, request, i, true);
    }
    assert forall|i: int| 0 <= i < after.purchased.len() implies (#[trigger] after.purchased[i]).id
        != id by {
        lemma_row_comes_from(before, call, request, i, false);
    }
}

/// The id of a row after a call is the id of a row before it, in one table
/// or the other, or the one id that the call has handed out.
proof fn lemma_row_comes_from(
    before: LedgerView,
    call: CallView,
    request: Request,
    i: int,
    published: bool,
)
    requires
        published ==> 0 <= i < after_call(before, call, request).published.len(),
        !published ==> 0 <= i < after_call(before, call, request).purchased.len(),
    ensures
        ({
            let id = if published {
                after_call(before, call, request).published[i].id
            } else {
                after_call(before, call, request).purchased[i].id
            };
            has_listing(before.published, id) || has_purchase(before.purchased, id) || id
                == before.id_domain + 1
        }),
{
    let after = after_call(before, call, request);
    if published {
        let id = after.published[i].id;
        match request {
            Request::Publish { domain, user_seller, price } => {
                if i < before.published.len() {
                    assert(before.published[i].id == id);
                }
            },
            Request::Resell { id: other, price, post_type } => {
                if resell_step(before, call, other, price, post_type) is Ok {
                    if i < before.published.len() {
                        assert(before.published[i].id == id);
                    } else {
                        let at = purchase_position(before.purchased, other);
                        assert(before.purchased[at].id == id);
                    }
                } else {
                    assert(before.published[i].id == id);
                }
            },
            Request::Update { id: other, price, is_active, post_type } => {
                assert(before.published[i].id == id);
            },
            Request::Buy { id: other } => {
                if buy_step(before, call, other) is Ok {
                    let at = listing_position(before.published, other);
                    if i < at {
                        assert(before.published[i].id == id);
                    } else {
                        assert(before.published[i + 1].id == id);
                    }
                } else {
                    assert(before.published[i].id == id);
                }
            },
            Request::Cancel { id: other } => {
                if cancel_step(before, call, other) is Ok {
                    let at = listing_position(before.published, other);
                    if i < at {
                        assert(before.published[i].id == id);
                    } else {
                        assert(before.published[i + 1].id == id);
                    }
                } else {
                    assert(before.published[i].id == id);
                }
            },
            _ => {
                assert(before.published[i].id == id);
            },
        }
    } else {
        let id = after.purchased[i].id;
        match request {
            Request::Resell { id: other, price, post_type } => {
                if resell_step(before, call, other, price, post_type) is Ok {
                    let at = purchase_position(before.purchased, other);
                    if i < at {
                        assert(before.purchased[i].id == id);
                    } else {
                        assert(before.purchased[i + 1].id == id);
                    }
                } else {
                    assert(before.purchased[i].id == id);
                }
            },
            Request::Buy { id: other } => {
                if buy_step(before, call, other) is Ok {
                    if i < before.purchased.len() {
                        assert(before.purchased[i].id == id);
                    } else {
                        let at = listing_position(before.published, other);
                        assert(before.published[at].id == id);
                    }
                } else {
                    assert(before.purchased[i].id == id);
                }
            },
            Request::Retire { id: other } => {
                assert(before.purchased[i].id == id);
            },
            _ => {
                assert(before.purchased[i].id == id);
            },
        }
    }
}

} // verus!
