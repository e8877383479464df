//! What the read-only calls answer: rows picked by a filter, ranked by a
//! key, or taken from the end of a table.

use crate::order::{
    arranged, descending_order, lemma_descending_order, limit, places, rank_descending,
};
use crate::records::{
    published_views, purchased_views, AccountId, DomainPublished, DomainPurchased, PublishedView,
    PurchasedView,
};
use vstd::pervasive::cloned;
use vstd::prelude::*;

verus! {

/// The listings of `seller`.
pub open spec fn sold_by(seller: Seq<char>) -> spec_fn(PublishedView) -> bool {
    |row: PublishedView| row.user_seller == seller
}

/// The listing with the id.
pub open spec fn listing_with_id(id: i128) -> spec_fn(PublishedView) -> bool {
    |row: PublishedView| row.id == id
}

/// The listings that can be bought.
pub open spec fn active_listing() -> spec_fn(PublishedView) -> bool {
    |row: PublishedView| row.is_active
}

/// The purchases of `owner`.
pub open spec fn owned_by(owner: Seq<char>) -> spec_fn(PurchasedView) -> bool {
    |row: PurchasedView| row.owner_id == owner
}

/// The purchases made from `seller`.
pub open spec fn bought_from(seller: Seq<char>) -> spec_fn(PurchasedView) -> bool {
    |row: PurchasedView| row.user_seller == seller
}

/// The purchase with the id.
pub open spec fn purchase_with_id(id: i128) -> spec_fn(PurchasedView) -> bool {
    |row: PurchasedView| row.id == id
}

/// The prices of `rows`, in order.
pub open spec fn listing_prices(rows: Seq<PublishedView>) -> Seq<u128> {
    Seq::new(rows.len(), |i: int| rows[i].price)
}

/// The prices paid for `rows`, in order.
pub open spec fn purchase_prices(rows: Seq<PurchasedView>) -> Seq<u128> {
    Seq::new(rows.len(), |i: int| rows[i].purchase_price)
}

/// A number that grows with the kind.
pub open spec fn kind_rank(post_type: i8) -> u128 {
    (post_type as int + 128) as u128
}

/// The ranks of the kinds of `rows`, in order.
pub open spec fn listing_kinds(rows: Seq<PublishedView>) -> Seq<u128> {
    Seq::new(rows.len(), |i: int| kind_rank(rows[i].post_type))
}

/// The name that `name` holds, if it holds one.
pub open spec fn optional_name(name: Option<AccountId>) -> Option<Seq<char>> {
    match name {
        Some(given) => Some(given@),
        None => None,
    }
}

/// The purchases that pass the filters given: both where both are given,
/// none where none is.
pub open spec fn purchases_matching(
    rows: Seq<PurchasedView>,
    owner: Option<Seq<char>>,
    seller: Option<Seq<char>>,
) -> Seq<PurchasedView> {
    match (owner, seller) {
        (Some(o), Some(s)) => rows.filter(owned_by(o)).filter(bought_from(s)),
        (Some(o), None) => rows.filter(owned_by(o)),
        (None, Some(s)) => rows.filter(bought_from(s)),
        (None, None) => Seq::empty(),
    }
}

/// The active listings with the highest prices, highest first, as many as
/// `top` lets through.
pub open spec fn top_listings(rows: Seq<PublishedView>, top: Option<i32>) -> Seq<PublishedView> {
    let active = rows.filter(active_listing());
    arranged(active, descending_order(listing_prices(active))).take(limit(top, active.len()))
}

/// The purchases with the highest prices, highest first, as many as `top`
/// lets through.
pub open spec fn top_purchases(rows: Seq<PurchasedView>, top: Option<i32>) -> Seq<PurchasedView> {
    arranged(rows, descending_order(purchase_prices(rows))).take(limit(top, rows.len()))
}

/// The last `number` rows of `rows`, oldest first: all of them where there
/// are no more, none where `number` is not positive.
pub open spec fn last_sold(rows: Seq<PurchasedView>, number: i128) -> Seq<PurchasedView> {
    if number >= rows.len() {
        rows
    } else if number <= 0 {
        Seq::empty()
    } else {
        rows.skip(rows.len() - number)
    }
}

/// The active listings, premium ones before standard ones.
pub open spec fn market(rows: Seq<PublishedView>) -> Seq<PublishedView> {
    let active = rows.filter(active_listing());
    arranged(active, descending_order(listing_kinds(active)))
}

/// What to pick listings by.
pub enum ListingFilter {
    Seller(AccountId),
    Id(i128),
    Active,
}

impl ListingFilter {
    /// The rows that the filter lets through.
    pub open spec fn predicate(&self) -> spec_fn(PublishedView) -> bool {
        match self {
            ListingFilter::Seller(seller) => sold_by(seller@),
            ListingFilter::Id(id) => listing_with_id(*id),
            ListingFilter::Active => active_listing(),
        }
    }

    /// Whether the filter lets `row` through.
    pub fn admits(&self, row: &DomainPublished) -> (yes: bool)
        ensures
            yes == (self.predicate())(row@),
    {
        match self {
            ListingFilter::Seller(seller) => row.user_seller == *seller,
            ListingFilter::Id(id) => row.id == *id,
            ListingFilter::Active => row.is_active,
        }
    }
}

/// What to pick purchases by.
pub enum PurchaseFilter {
    Owner(AccountId),
    Seller(AccountId),
    Id(i128),
}

impl PurchaseFilter {
    /// The rows that the filter lets through.
    pub open spec fn predicate(&self) -> spec_fn(PurchasedView) -> bool {
        match self {
            PurchaseFilter::Owner(owner) => owned_by(owner@),
            PurchaseFilter::Seller(seller) => bought_from(seller@),
            PurchaseFilter::Id(id) => purchase_with_id(*id),
        }
    }

    /// Whether the filter lets `row` through.
    pub fn admits(&self, row: &DomainPurchased) -> (yes: bool)
        ensures
            yes == (self.predicate())(row@),
    {
        match self {
            PurchaseFilter::Owner(owner) => row.owner_id == *owner,
            PurchaseFilter::Seller(seller) => row.user_seller == *seller,
            PurchaseFilter::Id(id) => row.id == *id,
        }
    }
}

/// Copies the listings that `by` lets through, in the table's order.
pub fn select_published(rows: &Vec<DomainPublished>, by: &ListingFilter) -> (chosen: Vec<
    DomainPublished,
>)
    ensures
        published_views(chosen@) == published_views(rows@).filter(by.predicate()),
{
    let ghost all = published_views(rows@);
    let mut chosen: Vec<DomainPublished> = Vec::new();
    let mut i: usize = 0;
    proof {
        assert(all.take(0) =~= Seq::empty());
        assert(Seq::<PublishedView>::empty().filter(by.predicate()) =~= Seq::empty()) by {
            reveal(Seq::filter);
        }
        assert(published_views(chosen@) =~= Seq::empty());
    }
    while i < rows.len()
        invariant
            i <= rows.len(),
            all == published_views(rows@),
            published_views(chosen@) == all.take(i as int).filter(by.predicate()),
        decreases rows.len() - i,
    {
        let ghost before = published_views(chosen@);
        proof {
            assert(all.take(i + 1) =~= all.take(i as int).push(all[i as int]));
            all.take(i as int).lemma_filter_push(all[i as int], by.predicate());
        }
        if by.admits(&rows[i]) {
            chosen.push(rows[i].clone());
            assert(published_views(chosen@) =~= before.push(all[i as int]));
        }
        i += 1;
    }
    assert(all.take(rows.len() as int) =~= all);
    chosen
}

/// Copies the purchases that `by` lets through, in the table's order.
pub fn select_purchased(rows: &Vec<DomainPurchased>, by: &PurchaseFilter) -> (chosen: Vec<
    DomainPurchased,
>)
    ensures
        purchased_views(chosen@) == purchased_views(rows@).filter(by.predicate()),
{
    let ghost all = purchased_views(rows@);
    let mut chosen: Vec<DomainPurchased> = Vec::new();
    let mut i: usize = 0;
    proof {
        assert(all.take(0) =~= Seq::empty());
        assert(Seq::<PurchasedView>::empty().filter(by.predicate()) =~= Seq::empty()) by {
            reveal(Seq::filter);
        }
        assert(purchased_views(chosen@) =~= Seq::empty());
    }
    while i < rows.len()
        invariant
            i <= rows.len(),
            all == purchased_views(rows@),
            purchased_views(chosen@) == all.take(i as int).filter(by.predicate()),
        decreases rows.len() - i,
    {
        let ghost before = purchased_views(chosen@);
        proof {
            assert(all.take(i + 1) =~= all.take(i as int).push(all[i as int]));
            all.take(i as int).lemma_filter_push(all[i as int], by.predicate());
        }
        if by.admits(&rows[i]) {
            chosen.push(rows[i].clone());
            assert(purchased_views(chosen@) =~= before.push(all[i as int]));
        }
        i += 1;
    }
    assert(all.take(rows.len() as int) =~= all);
    chosen
}

/// Copies the first `count` rows that `order` names, in its order.
pub(crate) fn arrange<T: Clone>(rows: &Vec<T>, order: &Vec<usize>, count: usize) -> (out: Vec<T>)
    requires
        count <= order.len(),
        forall|a: int| 0 <= a < order.len() ==> #[trigger] order[a] < rows.len(),
    ensures
        out.len() == count,
        forall|a: int| 0 <= a < count ==> cloned(rows[order[a] as int], #[trigger] out[a]),
{
    let mut out: Vec<T> = Vec::new();
    let mut a: usize = 0;
    while a < count
        invariant
            a <= count <= order.len(),
            out.len() == a,
            forall|b: int| 0 <= b < order.len() ==> #[trigger] order[b] < rows.len(),
            forall|b: int| 0 <= b < a ==> cloned(rows[order[b] as int], #[trigger] out[b]),
        decreases count - a,
    {
        out.push(rows[order[a]].clone());
        a += 1;
    }
    out
}

/// How many rows a limit of `top` lets through out of `len`.
pub fn limit_of(top: Option<i32>, len: usize) -> (count: usize)
    ensures
        count == limit(top, len as nat),
{
    let top_limit: i32 = match top {
        Some(n) => n,
        None => 5,
    };
    if top_limit < 0 {
        len
    } else {
        let asked: u32 = top_limit as u32;
        if asked as u64 > len as u64 {
            len
        } else {
            asked as usize
        }
    }
}

/// The prices of `rows`, in order.
pub fn prices_of_published(rows: &Vec<DomainPublished>) -> (keys: Vec<u128>)
    ensures
        keys@ == listing_prices(published_views(rows@)),
{
    let mut keys: Vec<u128> = Vec::new();
    let mut i: usize = 0;
    while i < rows.len()
        invariant
            i <= rows.len(),
            keys.len() == i,
            forall|j: int| 0 <= j < i ==> #[trigger] keys[j] == rows[j].price,
        decreases rows.len() - i,
    {
        keys.push(rows[i].price);
        i += 1;
    }
    assert(keys@ =~= listing_prices(published_views(rows@)));
    keys
}

/// The ranks of the kinds of `rows`, in order.
pub fn kinds_of_published(rows: &Vec<DomainPublished>) -> (keys: Vec<u128>)
    ensures
        keys@ == listing_kinds(published_views(rows@)),
{
    let mut keys: Vec<u128> = Vec::new();
    let mut i: usize = 0;
    while i < rows.len()
        invariant
            i <= rows.len(),
            keys.len() == i,
            forall|j: int| 0 <= j < i ==> #[trigger] keys[j] == kind_rank(rows[j].post_type),
        decreases rows.len() - i,
    {
        let lifted: i16 = rows[i].post_type as i16 + 128;
        keys.push(lifted as u128);
        i += 1;
    }
    assert(keys@ =~= listing_kinds(published_views(rows@)));
    keys
}

/// The prices paid for `rows`, in order.
pub fn prices_of_purchased(rows: &Vec<DomainPurchased>) -> (keys: Vec<u128>)
    ensures
        keys@ == purchase_prices(purchased_views(rows@)),
{
    let mut keys: Vec<u128> = Vec::new();
    let mut i: usize = 0;
    while i < rows.len()
        invariant
            i <= rows.len(),
            keys.len() == i,
            forall|j: int| 0 <= j < i ==> #[trigger] keys[j] == rows[j].purchase_price,
        decreases rows.len() - i,
    {
        keys.push(rows[i].purchase_price);
        i += 1;
    }
    assert(keys@ =~= purchase_prices(purchased_views(rows@)));
    keys
}

/// Copies the first `count` listings of `rows` ranked by `keys`, largest key
/// first.
pub(crate) fn ranked_published(
    rows: &Vec<DomainPublished>,
    keys: &Vec<u128>,
    count: usize,
) -> (out: Vec<DomainPublished>)
    requires
        keys.len() == rows.len(),
        count <= rows.len(),
    ensures
        published_views(out@) == arranged(published_views(rows@), descending_order(keys@)).take(
            count as int,
        ),
{
    let order = rank_descending(keys);
    let out = arrange(rows, &order, count);
    proof {
        let ranked = arranged(published_views(rows@), descending_order(keys@));
        assert forall|a: int| 0 <= a < count implies #[trigger] published_views(out@)[a]
            == ranked.take(count as int)[a] by {
            assert(cloned(rows[order[a] as int], out[a]));
            assert(places(order@)[a] == order[a]);
        }
        assert(published_views(out@) =~= ranked.take(count as int));
    }
    out
}

/// Copies the first `count` purchases of `rows` ranked by `keys`, largest
/// key first.
pub(crate) fn ranked_purchased(
    rows: &Vec<DomainPurchased>,
    keys: &Vec<u128>,
    count: usize,
) -> (out: Vec<DomainPurchased>)
    requires
        keys.len() == rows.len(),
        count <= rows.len(),
    ensures
        purchased_views(out@) == arranged(purchased_views(rows@), descending_order(keys@)).take(
            count as int,
        ),
{
    let order = rank_descending(keys);
    let out = arrange(rows, &order, count);
    proof {
        let ranked = arranged(purchased_views(rows@), descending_order(keys@));
        assert forall|a: int| 0 <= a < count implies #[trigger] purchased_views(out@)[a]
            == ranked.take(count as int)[a] by {
            assert(cloned(rows[order[a] as int], out[a]));
            assert(places(order@)[a] == order[a]);
        }
        assert(purchased_views(out@) =~= ranked.take(count as int));
    }
    out
}

/// Copies the last `number` purchases of `rows`, oldest first.
pub fn tail_of_purchased(rows: &Vec<DomainPurchased>, number: i128) -> (out: Vec<DomainPurchased>)
    ensures
        purchased_views(out@) == last_sold(purchased_views(rows@), number),
{
    let len: usize = rows.len();
    let start: usize = if number >= len as i128 {
        0
    } else if number <= 0 {
        len
    } else {
        len - (number as usize)
    };
    let mut out: Vec<DomainPurchased> = Vec::new();
    let mut i: usize = start;
    while i < len
        invariant
            start <= i <= len,
            len == rows.len(),
            out.len() == i - start,
            forall|j: int| 0 <= j < i - start ==> #[trigger] out[j] == rows[start + j],
        decreases len - i,
    {
        out.push(rows[i].clone());
        i += 1;
    }
    proof {
        let all = purchased_views(rows@);
        assert(purchased_views(out@) =~= all.skip(start as int));
        assert(all.skip(0) =~= all);
        assert(all.skip(len as int) =~= Seq::empty());
    }
    out
}

/// The top listings are active listings of the table, no more than asked
/// for, and none has a higher price than the one before it.
pub proof fn lemma_top_listings_ranked(rows: Seq<PublishedView>, top: Option<i32>)
    ensures
        top_listings(rows, top).len() == limit(top, rows.filter(active_listing()).len()),
        top_listings(rows, top).len() <= rows.len(),
        forall|a: int|
            0 <= a < top_listings(rows, top).len() ==> {
                &&& (#[trigger] top_listings(rows, top)[a]).is_active
                &&& rows.contains(top_listings(rows, top)[a])
            },
        forall|a: int, b: int|
            0 <= a < b < top_listings(rows, top).len() ==> (#[trigger] top_listings(
                rows,
                top,
            )[a]).price >= (#[trigger] top_listings(rows, top)[b]).price,
{
    broadcast use vstd::seq_lib::group_filter_ensures;

    let active = rows.filter(active_listing());
    let order = descending_order(listing_prices(active));
    lemma_descending_order(listing_prices(active));
    let out = top_listings(rows, top);
    assert forall|a: int| 0 <= a < out.len() implies {
        &&& (#[trigger] out[a]).is_active
        &&& rows.contains(out[a])
    } by {
        let from = order[a];
        assert(out[a] == active[from]);
        rows.lemma_filter_pred(active_listing(), from);
        assert(active.contains(active[from]));
        rows.lemma_filter_contains_rev(active_listing(), active[from]);
    }
    assert forall|a: int, b: int| 0 <= a < b < out.len() implies (#[trigger] out[a]).price >= (
    #[trigger] out[b]).price by {
        assert(out[a] == active[order[a]]);
        assert(out[b] == active[order[b]]);
    }
}

/// The top purchases are rows of the table, no more than asked for, and none
/// has a higher price than the one before it.
pub proof fn lemma_top_purchases_ranked(rows: Seq<PurchasedView>, top: Option<i32>)
    ensures
        top_purchases(rows, top).len() == limit(top, rows.len()),
        forall|a: int|
            0 <= a < top_purchases(rows, top).len() ==> rows.contains(
                #[trigger] top_purchases(rows, top)[a],
            ),
        forall|a: int, b: int|
            0 <= a < b < top_purchases(rows, top).len() ==> (#[trigger] top_purchases(
                rows,
                top,
            )[a]).purchase_price >= (#[trigger] top_purchases(rows, top)[b]).purchase_price,
{
    let order = descending_order(purchase_prices(rows));
    lemma_descending_order(purchase_prices(rows));
    let out = top_purchases(rows, top);
    assert forall|a: int| 0 <= a < out.len() implies rows.contains(#[trigger] out[a]) by {
        assert(out[a] == rows[order[a]]);
    }
    assert forall|a: int, b: int| 0 <= a < b < out.len() implies (#[trigger] out[a]).purchase_price
        >= (#[trigger] out[b]).purchase_price by {
        assert(out[a] == rows[order[a]]);
        assert(out[b] == rows[order[b]]);
    }
}

/// The market shows every active listing and no other, and no listing of a
/// higher kind than the one before it.
pub proof fn lemma_market_ranked(rows: Seq<PublishedView>)
    ensures
        market(rows).len() == rows.filter(active_listing()).len(),
        forall|a: int|
            0 <= a < market(rows).len() ==> {
                &&& (#[trigger] market(rows)[a]).is_active
                &&& rows.contains(market(rows)[a])
            },
        forall|row: PublishedView|
            rows.contains(row) && row.is_active ==> #[trigger] market(rows).contains(row),
        forall|a: int, b: int|
            0 <= a < b < market(rows).len() ==> (#[trigger] market(rows)[a]).post_type >= (
            #[trigger] market(rows)[b]).post_type,
{
    broadcast use vstd::seq_lib::group_filter_ensures;

    let active = rows.filter(active_listing());
    let order = descending_order(listing_kinds(active));
    lemma_descending_order(listing_kinds(active));
    let out = market(rows);
    assert forall|a: int| 0 <= a < out.len() implies {
        &&& (#[trigger] out[a]).is_active
        &&& rows.contains(out[a])
    } by {
        let from = order[a];
        assert(out[a] == active[from]);
        rows.lemma_filter_pred(active_listing(), from);
        assert(active.contains(active[from]));
        rows.lemma_filter_contains_rev(active_listing(), active[from]);
    }
    assert forall|row: PublishedView|
        rows.contains(row) && row.is_active implies #[trigger] out.contains(row) by {
        let i = choose|i: int| 0 <= i < rows.len() && rows[i] == row;
        rows.lemma_filter_contains(active_listing(), i);
        let place = choose|place: int| 0 <= place < active.len() && active[place] == row;
        assert(order.contains(place));
        let a = choose|a: int| 0 <= a < order.len() && order[a] == place;
        assert(out[a] == row);
    }
    assert forall|a: int, b: int| 0 <= a < b < out.len() implies (#[trigger] out[a]).post_type >= (
    #[trigger] out[b]).post_type by {
        assert(out[a] == active[order[a]]);
        assert(out[b] == active[order[b]]);
    }
}

/// The last sold are the rows at the end of the table, in the table's
/// order, as many as asked for where there are that many.
pub proof fn lemma_last_sold_is_a_suffix(rows: Seq<PurchasedView>, number: i128)
    ensures
        last_sold(rows, number).len() == if number <= 0 {
            0
        } else if number >= rows.len() {
            rows.len() as int
        } else {
            number as int
        },
        forall|a: int|
            0 <= a < last_sold(rows, number).len() ==> #[trigger] last_sold(rows, number)[a]
                == rows[rows.len() - last_sold(rows, number).len() + a],
{
}

} // verus!
