//! The rows of the two tables, the errors of the ledger, and their models.

use vstd::prelude::*;

verus! {

/// An account of the host ledger, by its name.
pub type AccountId = String;

/// Why a call was rejected. A rejected call changes nothing.
#[derive(Debug, Clone, Copy, PartialEq, Eq, Structural)]
pub enum LedgerError {
    /// The caller is not the account that the call is reserved for.
    PermissionDenied,
    /// No row has the id, or no administrator the name.
    NotFound,
    /// A listing kind other than standard or premium, or a filter left out.
    InvalidArgument,
    /// The attached payment is below the price, the deposit or the storage
    /// cost, or the listing is not for sale.
    InsufficientPayment,
    /// The account is an administrator already.
    AlreadyExists,
    /// The ledger was constructed before.
    AlreadyInitialized,
}

/// The kind of an ordinary listing.
pub const STANDARD: i8 = 1;

/// The kind of a listing whose seller paid the premium deposit.
pub const PREMIUM: i8 = 2;

/// Whether `post_type` is one of the two listing kinds.
pub open spec fn is_listing_kind(post_type: i8) -> bool {
    post_type == STANDARD || post_type == PREMIUM
}

/// A domain that is for sale.
#[derive(Debug)]
pub struct DomainPublished {
    pub id: i128,
    pub domain: AccountId,
    pub user_seller: AccountId,
    pub price: u128,
    pub post_type: i8,
    pub is_active: bool,
    pub date_time: u64,
}

/// What a [`DomainPublished`] holds.
pub struct PublishedView {
    pub id: i128,
    pub domain: Seq<char>,
    pub user_seller: Seq<char>,
    pub price: u128,
    pub post_type: i8,
    pub is_active: bool,
    pub date_time: u64,
}

impl View for DomainPublished {
    type V = PublishedView;

    open spec fn view(&self) -> PublishedView {
        PublishedView {
            id: self.id,
            domain: self.domain@,
            user_seller: self.user_seller@,
            price: self.price,
            post_type: self.post_type,
            is_active: self.is_active,
            date_time: self.date_time,
        }
    }
}

impl Clone for DomainPublished {
    fn clone(&self) -> (copy: Self)
        ensures
            copy == *self,
    {
        DomainPublished {
            id: self.id,
            domain: self.domain.clone(),
            user_seller: self.user_seller.clone(),
            price: self.price,
            post_type: self.post_type,
            is_active: self.is_active,
            date_time: self.date_time,
        }
    }
}

impl PartialEq for DomainPublished {
    fn eq(&self, other: &Self) -> (same: bool) {
        self.id == other.id && self.domain == other.domain && self.user_seller
            == other.user_seller && self.price == other.price && self.post_type == other.post_type
            && self.is_active == other.is_active && self.date_time == other.date_time
    }
}

impl vstd::std_specs::cmp::PartialEqSpecImpl for DomainPublished {
    open spec fn obeys_eq_spec() -> bool {
        true
    }

    open spec fn eq_spec(&self, other: &Self) -> bool {
        self.id == other.id && self.domain@ == other.domain@ && self.user_seller@
            == other.user_seller@ && self.price == other.price && self.post_type
            == other.post_type && self.is_active == other.is_active && self.date_time
            == other.date_time
    }
}

/// A domain that was bought.
#[derive(Debug)]
pub struct DomainPurchased {
    pub id: i128,
    pub domain: AccountId,
    pub user_seller: AccountId,
    pub owner_id: AccountId,
    pub purchase_price: u128,
    pub retired: bool,
    pub post_type: i8,
    pub date_time: u64,
}

/// What a [`DomainPurchased`] holds.
pub struct PurchasedView {
    pub id: i128,
    pub domain: Seq<char>,
    pub user_seller: Seq<char>,
    pub owner_id: Seq<char>,
    pub purchase_price: u128,
    pub retired: bool,
    pub post_type: i8,
    pub date_time: u64,
}

impl View for DomainPurchased {
    type V = PurchasedView;

    open spec fn view(&self) -> PurchasedView {
        PurchasedView {
            id: self.id,
            domain: self.domain@,
            user_seller: self.user_seller@,
            owner_id: self.owner_id@,
            purchase_price: self.purchase_price,
            retired: self.retired,
            post_type: self.post_type,
            date_time: self.date_time,
        }
    }
}

impl Clone for DomainPurchased {
    fn clone(&self) -> (copy: Self)
        ensures
            copy == *self,
    {
        DomainPurchased {
            id: self.id,
            domain: self.domain.clone(),
            user_seller: self.user_seller.clone(),
            owner_id: self.owner_id.clone(),
            purchase_price: self.purchase_price,
            retired: self.retired,
            post_type: self.post_type,
            date_time: self.date_time,
        }
    }
}

impl PartialEq for DomainPurchased {
    fn eq(&self, other: &Self) -> (same: bool) {
        self.id == other.id && self.domain == other.domain && self.user_seller
            == other.user_seller && self.owner_id == other.owner_id && self.purchase_price
            == other.purchase_price && self.retired == other.retired && self.post_type
            == other.post_type && self.date_time == other.date_time
    }
}

impl vstd::std_specs::cmp::PartialEqSpecImpl for DomainPurchased {
    open spec fn obeys_eq_spec() -> bool {
        true
    }

    open spec fn eq_spec(&self, other: &Self) -> bool {
        self.id == other.id && self.domain@ == other.domain@ && self.user_seller@
            == other.user_seller@ && self.owner_id@ == other.owner_id@ && self.purchase_price
            == other.purchase_price && self.retired == other.retired && self.post_type
            == other.post_type && self.date_time == other.date_time
    }
}

/// The models of the rows of a published table, in the table's order.
pub open spec fn published_views(rows: Seq<DomainPublished>) -> Seq<PublishedView> {
    Seq::new(rows.len(), |i: int| rows[i]@)
}

/// The models of the rows of a purchased table, in the table's order.
pub open spec fn purchased_views(rows: Seq<DomainPurchased>) -> Seq<PurchasedView> {
    Seq::new(rows.len(), |i: int| rows[i]@)
}

} // verus!
