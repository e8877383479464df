//! Rows in a vector: finding one by its id, and what pushing, replacing and
//! removing a row does to the table's model.

use crate::model::{
    apart, distinct_listings, distinct_purchases, has_listing, has_purchase, listing_position,
    listings_in_range, purchase_position, purchases_in_range,
};
use crate::records::{
    is_listing_kind, published_views, purchased_views, DomainPublished, DomainPurchased,
    PublishedView, PurchasedView, PREMIUM, STANDARD,
};
use vstd::prelude::*;

verus! {

/// In a table without repeated ids, the row that has the id is the one found.
pub proof fn lemma_listing_found(rows: Seq<PublishedView>, id: i128, at: int)
    requires
        distinct_listings(rows),
        0 <= at < rows.len(),
        rows[at].id == id,
    ensures
        has_listing(rows, id),
        listing_position(rows, id) == at,
{
    let chosen = listing_position(rows, id);
    assert(0 <= chosen < rows.len() && rows[chosen].id == id);
    if chosen < at {
        assert(rows[chosen].id != rows[at].id);
    } else if at < chosen {
        assert(rows[at].id != rows[chosen].id);
    }
}

/// In a table without repeated ids, the row that has the id is the one found.
pub proof fn lemma_purchase_found(rows: Seq<PurchasedView>, id: i128, at: int)
    requires
        distinct_purchases(rows),
        0 <= at < rows.len(),
        rows[at].id == id,
    ensures
        has_purchase(rows, id),
        purchase_position(rows, id) == at,
{
    let chosen = purchase_position(rows, id);
    assert(0 <= chosen < rows.len() && rows[chosen].id == id);
    if chosen < at {
        assert(rows[chosen].id != rows[at].id);
    } else if at < chosen {
        assert(rows[at].id != rows[chosen].id);
    }
}

/// Looks for the listing with the id: the place of the first such row.
pub fn find_published(rows: &Vec<DomainPublished>, id: i128) -> (found: Option<usize>)
    ensures
        match found {
            Some(at) => {
                &&& at < rows.len()
                &&& rows[at as int].id == id
                &&& forall|j: int| 0 <= j < at ==> (#[trigger] rows[j]).id != id
            },
            None => !has_listing(published_views(rows@), id),
        },
{
    let mut i: usize = 0;
    while i < rows.len()
        invariant
            i <= rows.len(),
            forall|j: int| 0 <= j < i ==> (#[trigger] rows[j]).id != id,
        decreases rows.len() - i,
    {
        if rows[i].id == id {
            return Some(i);
        }
        i += 1;
    }
    assert forall|j: int| 0 <= j < published_views(rows@).len() implies (
    #[trigger] published_views(rows@)[j]).id != id by {
        assert(rows[j].id != id);
    }
    None
}

/// Looks for the purchase with the id: the place of the first such row.
pub fn find_purchased(rows: &Vec<DomainPurchased>, id: i128) -> (found: Option<usize>)
    ensures
        match found {
            Some(at) => {
                &&& at < rows.len()
                &&& rows[at as int].id == id
                &&& forall|j: int| 0 <= j < at ==> (#[trigger] rows[j]).id != id
            },
            None => !has_purchase(purchased_views(rows@), id),
        },
{
    let mut i: usize = 0;
    while i < rows.len()
        invariant
            i <= rows.len(),
            forall|j: int| 0 <= j < i ==> (#[trigger] rows[j]).id != id,
        decreases rows.len() - i,
    {
        if rows[i].id == id {
            return Some(i);
        }
        i += 1;
    }
    assert forall|j: int| 0 <= j < purchased_views(rows@).len() implies (
    #[trigger] purchased_views(rows@)[j]).id != id by {
        assert(rows[j].id != id);
    }
    None
}

/// Whether the listings can stand in one table: ids in range and none
/// twice, kinds known.
pub fn published_is_sound(rows: &Vec<DomainPublished>, id_domain: i128) -> (sound: bool)
    ensures
        sound == (listings_in_range(published_views(rows@), id_domain) && distinct_listings(
            published_views(rows@),
        )),
{
    let ghost all = published_views(rows@);
    let mut i: usize = 0;
    while i < rows.len()
        invariant
            i <= rows.len(),
            all == published_views(rows@),
            listings_in_range(all.take(i as int), id_domain),
            distinct_listings(all.take(i as int)),
        decreases rows.len() - i,
    {
        let row = &rows[i];
        if !(0 < row.id && row.id <= id_domain && (row.post_type == STANDARD || row.post_type
            == PREMIUM)) {
            assert(!listings_in_range(all, id_domain)) by {
                assert(all[i as int] == row@);
            }
            return false;
        }
        let mut j: usize = 0;
        while j < i
            invariant
                j <= i < rows.len(),
                all == published_views(rows@),
                *row == rows[i as int],
                forall|k: int| 0 <= k < j ==> (#[trigger] all[k]).id != row.id,
            decreases i - j,
        {
            if rows[j].id == row.id {
                assert(!distinct_listings(all)) by {
                    assert(all[j as int].id == all[i as int].id);
                }
                return false;
            }
            j += 1;
        }
        proof {
            let longer = all.take(i + 1);
            assert forall|k: int| 0 <= k < longer.len() implies {
                &&& 0 < (#[trigger] longer[k]).id <= id_domain
                &&& is_listing_kind(longer[k].post_type)
            } by {
                if k < i {
                    assert(all.take(i as int)[k] == longer[k]);
                }
            }
            assert forall|a: int, b: int| 0 <= a < b < longer.len() implies (
            #[trigger] longer[a]).id != (#[trigger] longer[b]).id by {
                if b < i {
                    assert(all.take(i as int)[a] == longer[a]);
                    assert(all.take(i as int)[b] == longer[b]);
                } else {
                    assert(all[a] == longer[a]);
                }
            }
        }
        i += 1;
    }
    assert(all.take(rows.len() as int) =~= all);
    true
}

/// Whether the purchases can stand in one table: ids in range and none
/// twice, kinds known.
pub fn purchased_is_sound(rows: &Vec<DomainPurchased>, id_domain: i128) -> (sound: bool)
    ensures
        sound == (purchases_in_range(purchased_views(rows@), id_domain) && distinct_purchases(
            purchased_views(rows@),
        )),
{
    let ghost all = purchased_views(rows@);
    let mut i: usize = 0;
    while i < rows.len()
        invariant
            i <= rows.len(),
            all == purchased_views(rows@),
            purchases_in_range(all.take(i as int), id_domain),
            distinct_purchases(all.take(i as int)),
        decreases rows.len() - i,
    {
        let row = &rows[i];
        if !(0 < row.id && row.id <= id_domain && (row.post_type == STANDARD || row.post_type
            == PREMIUM)) {
            assert(!purchases_in_range(all, id_domain)) by {
                assert(all[i as int] == row@);
            }
            return false;
        }
        let mut j: usize = 0;
        while j < i
            invariant
                j <= i < rows.len(),
                all == purchased_views(rows@),
                *row == rows[i as int],
                forall|k: int| 0 <= k < j ==> (#[trigger] all[k]).id != row.id,
            decreases i - j,
        {
            if rows[j].id == row.id {
                assert(!distinct_purchases(all)) by {
                    assert(all[j as int].id == all[i as int].id);
                }
                return false;
            }
            j += 1;
        }
        proof {
            let longer = all.take(i + 1);
            assert forall|k: int| 0 <= k < longer.len() implies {
                &&& 0 < (#[trigger] longer[k]).id <= id_domain
                &&& is_listing_kind(longer[k].post_type)
            } by {
                if k < i {
                    assert(all.take(i as int)[k] == longer[k]);
                }
            }
            assert forall|a: int, b: int| 0 <= a < b < longer.len() implies (
            #[trigger] longer[a]).id != (#[trigger] longer[b]).id by {
                if b < i {
                    assert(all.take(i as int)[a] == longer[a]);
                    assert(all.take(i as int)[b] == longer[b]);
                } else {
                    assert(all[a] == longer[a]);
                }
            }
        }
        i += 1;
    }
    assert(all.take(rows.len() as int) =~= all);
    true
}

/// Whether no listing shares its id with a purchase.
pub fn tables_are_apart(published: &Vec<DomainPublished>, purchased: &Vec<DomainPurchased>) -> (sound:
    bool)
    ensures
        sound == apart(published_views(published@), purchased_views(purchased@)),
{
    let ghost listed = published_views(published@);
    let ghost bought = purchased_views(purchased@);
    let mut i: usize = 0;
    while i < published.len()
        invariant
            i <= published.len(),
            listed == published_views(published@),
            bought == purchased_views(purchased@),
            forall|a: int, b: int|
                0 <= a < i && 0 <= b < bought.len() ==> (#[trigger] listed[a]).id != (
                #[trigger] bought[b]).id,
        decreases published.len() - i,
    {
        match find_purchased(purchased, published[i].id) {
            Some(at) => {
                assert(!apart(listed, bought)) by {
                    assert(listed[i as int].id == bought[at as int].id);
                }
                return false;
            },
            None => {
                assert forall|b: int| 0 <= b < bought.len() implies listed[i as int].id != (
                #[trigger] bought[b]).id by {
                    if listed[i as int].id == bought[b].id {
                        assert(has_purchase(bought, listed[i as int].id));
                    }
                }
            },
        }
        i += 1;
    }
    true
}

} // verus!
