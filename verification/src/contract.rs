//! The marketplace: its state and the calls that change it.

use crate::event::{
    buy_record, cancel_record, publish_record, resell_record, retire_record, update_record, Event,
};
use crate::lifecycle::{
    lemma_buy_keeps_wf, lemma_cancel_keeps_wf, lemma_publish_keeps_wf, lemma_resell_keeps_wf,
    lemma_retire_keeps_wf, lemma_update_keeps_wf, lemma_without_listing,
    lemma_without_purchase,
};
use crate::model::{
    buy_step, cancel_step, delete_admin_step, new_step, publish_step, resell_step, retire_step,
    set_admin_step, update_step, LedgerView, Step,
};
use crate::order::{arranged, descending_order, lemma_descending_order};
use crate::payment::{pay_premium, pay_sale, transfers_view, Balance, CallContext, Transfer};
use crate::queries::{
    kinds_of_published, last_sold, limit_of, listing_with_id, market, optional_name,
    prices_of_published,
    prices_of_purchased, purchase_with_id, purchases_matching, ranked_published,
    ranked_purchased, select_published, select_purchased, sold_by, tail_of_purchased,
    top_listings, top_purchases, ListingFilter, PurchaseFilter,
};
use crate::records::{
    published_views, purchased_views, AccountId, DomainPublished, DomainPurchased, LedgerError,
    PREMIUM, STANDARD,
};
use crate::tables::{
    tables_are_apart, published_is_sound, purchased_is_sound, find_published, find_purchased,
    lemma_listing_found, lemma_purchase_found,
};
use vstd::prelude::*;

verus! {

/// The marketplace ledger.
pub struct Contract {
    owner_id: AccountId,
    id_domain: i128,
    domains_published: Vec<DomainPublished>,
    domains_purchased: Vec<DomainPurchased>,
    vault_id: AccountId,
    administrators: Vec<AccountId>,
}

/// What a call that went through hands back: the value it returns, the
/// transfers that the host is to carry out, in order, and the event to log.
#[derive(Debug)]
pub struct Outcome<R> {
    pub value: R,
    pub transfers: Vec<Transfer>,
    pub event: Event,
}

/// The set of the names in `names`.
pub open spec fn name_set(names: Seq<AccountId>) -> Set<Seq<char>> {
    Set::new(
        |name: Seq<char>| exists|i: int| 0 <= i < names.len() && (#[trigger] names[i])@ == name,
    )
}

/// Whether no name stands twice in `names`.
pub open spec fn distinct_names(names: Seq<AccountId>) -> bool {
    forall|i: int, j: int|
        0 <= i < j < names.len() ==> (#[trigger] names[i])@ != (#[trigger] names[j])@
}

/// Whether `answer` and the ledger after the call are what `step` says: the
/// value, the transfers, the event and the new state of a call that went
/// through, or the error of a rejected call and the state unchanged.
pub open spec fn carried_out<R: View>(
    answer: Result<Outcome<R>, LedgerError>,
    before: LedgerView,
    after: LedgerView,
    step: Result<Step<R::V>, LedgerError>,
) -> bool {
    match step {
        Ok(s) => {
            &&& answer matches Ok(outcome)
            &&& outcome.value@ == s.value
            &&& transfers_view(outcome.transfers@) == s.transfers
            &&& outcome.event@ == s.event
            &&& after == s.after
        },
        Err(e) => {
            &&& answer matches Err(f)
            &&& f == e
            &&& after == before
        },
    }
}

impl View for Contract {
    type V = LedgerView;

    closed spec fn view(&self) -> LedgerView {
        LedgerView {
            owner_id: self.owner_id@,
            vault_id: self.vault_id@,
            id_domain: self.id_domain,
            published: published_views(self.domains_published@),
            purchased: purchased_views(self.domains_purchased@),
            administrators: name_set(self.administrators@),
        }
    }
}

impl Contract {
    /// What holds of every marketplace: its ledger is well formed, and it
    /// holds every administrator once.
    #[verifier::type_invariant]
    closed spec fn well_formed(&self) -> bool {
        self@.wf() && distinct_names(self.administrators@)
    }

    /// Sets the marketplace up for `owner_id`, with fees going to `vault_id`.
    /// `state_exists` tells whether the host holds a marketplace already.
    pub fn new(owner_id: AccountId, vault_id: AccountId, state_exists: bool) -> (made: Result<
        Contract,
        LedgerError,
    >)
        ensures
            match new_step(owner_id@, vault_id@, state_exists) {
                Ok(ledger) => made matches Ok(contract) && contract@ == ledger && contract@.wf(),
                Err(e) => made matches Err(f) && f == e,
            },
    {
        if state_exists {
            return Err(LedgerError::AlreadyInitialized);
        }
        let contract = Contract {
            owner_id,
            id_domain: 0,
            domains_published: Vec::new(),
            domains_purchased: Vec::new(),
            vault_id,
            administrators: Vec::new(),
        };
        proof {
            assert(contract@.published =~= Seq::empty());
            assert(contract@.purchased =~= Seq::empty());
            assert(contract@.administrators =~= Set::empty());
        }
        Ok(contract)
    }

    /// Puts the purchased domain `id` up for sale again at `price`, as a
    /// listing of kind `post_type`.
    pub fn resell_domain(
        &mut self,
        ctx: &CallContext,
        id: i128,
        price: Balance,
        post_type: i8,
    ) -> (answer: Result<Outcome<DomainPublished>, LedgerError>)
        ensures
            final(self)@.wf(),
            carried_out(
                answer,
                old(self)@,
                final(self)@,
                resell_step(old(self)@, ctx@, id, price, post_type),
            ),
    {
        proof {
            use_type_invariant(&*self);
        }
        let at = match find_purchased(&self.domains_purchased, id) {
            Some(at) => at,
            None => {
                return Err(LedgerError::NotFound);
            },
        };
        proof {
            lemma_purchase_found(self@.purchased, id, at as int);
            lemma_resell_keeps_wf(self@, ctx@, id, price, post_type);
        }
        let domain = &self.domains_purchased[at];
        if !(domain.owner_id == ctx.signer_account_id && !domain.retired) {
            return Err(LedgerError::PermissionDenied);
        }
        if post_type != STANDARD && post_type != PREMIUM {
            return Err(LedgerError::InvalidArgument);
        }
        let data = DomainPublished {
            id: domain.id,
            domain: domain.domain.clone(),
            user_seller: domain.owner_id.clone(),
            price,
            post_type,
            is_active: true,
            date_time: ctx.block_timestamp,
        };
        let transfers = if post_type == STANDARD {
            Vec::new()
        } else {
            match pay_premium(&self.vault_id, ctx) {
                Ok(transfers) => transfers,
                Err(e) => {
                    return Err(e);
                },
            }
        };
        let event = resell_record(&data);
        let mut bought: Vec<DomainPurchased> = Vec::new();
        std::mem::swap(&mut bought, &mut self.domains_purchased);
        bought.remove(at);
        proof {
            let step = resell_step(old(self)@, ctx@, id, price, post_type).unwrap();
            assert(transfers_view(transfers@) =~= step.transfers);
            assert(purchased_views(bought@) =~= step.after.purchased);
            lemma_without_purchase(old(self)@, at as int);
        }
        self.domains_purchased = bought;
        let mut listed: Vec<DomainPublished> = Vec::new();
        std::mem::swap(&mut listed, &mut self.domains_published);
        listed.push(data.clone());
        proof {
            let step = resell_step(old(self)@, ctx@, id, price, post_type).unwrap();
            assert(published_views(listed@) =~= step.after.published);
        }
        self.domains_published = listed;
        Ok(Outcome { value: data, transfers, event })
    }

    /// Changes the price, the active flag and the kind of the listing `id`.
    pub fn update_domain(
        &mut self,
        ctx: &CallContext,
        id: i128,
        price: Balance,
        is_active: bool,
        post_type: i8,
    ) -> (answer: Result<Outcome<DomainPublished>, LedgerError>)
        ensures
            final(self)@.wf(),
            carried_out(
                answer,
                old(self)@,
                final(self)@,
                update_step(old(self)@, ctx@, id, price, is_active, post_type),
            ),
    {
        proof {
            use_type_invariant(&*self);
        }
        let at = match find_published(&self.domains_published, id) {
            Some(at) => at,
            None => {
                return Err(LedgerError::NotFound);
            },
        };
        proof {
            lemma_listing_found(self@.published, id, at as int);
            lemma_update_keeps_wf(self@, ctx@, id, price, is_active, post_type);
        }
        let domain = &self.domains_published[at];
        if !(domain.user_seller == ctx.signer_account_id) {
            return Err(LedgerError::PermissionDenied);
        }
        if post_type != STANDARD && post_type != PREMIUM {
            return Err(LedgerError::InvalidArgument);
        }
        let data = DomainPublished {
            id: domain.id,
            domain: domain.domain.clone(),
            user_seller: domain.user_seller.clone(),
            price,
            post_type,
            is_active,
            date_time: domain.date_time,
        };
        let transfers = if domain.post_type == PREMIUM || post_type == STANDARD {
            Vec::new()
        } else {
            match pay_premium(&self.vault_id, ctx) {
                Ok(transfers) => transfers,
                Err(e) => {
                    return Err(e);
                },
            }
        };
        let event = update_record(&data);
        let mut listed: Vec<DomainPublished> = Vec::new();
        std::mem::swap(&mut listed, &mut self.domains_published);
        listed[at] = data.clone();
        proof {
            let step = update_step(old(self)@, ctx@, id, price, is_active, post_type).unwrap();
            assert(transfers_view(transfers@) =~= step.transfers);
            assert(published_views(listed@) =~= step.after.published);
        }
        self.domains_published = listed;
        Ok(Outcome { value: data, transfers, event })
    }

    /// Buys the listing `id` for the signer with the payment attached to the
    /// call.
    pub fn domain_buy(&mut self, ctx: &CallContext, id: i128) -> (answer: Result<
        Outcome<()>,
        LedgerError,
    >)
        ensures
            final(self)@.wf(),
            carried_out(answer, old(self)@, final(self)@, buy_step(old(self)@, ctx@, id)),
    {
        proof {
            use_type_invariant(&*self);
        }
        let at = match find_published(&self.domains_published, id) {
            Some(at) => at,
            None => {
                return Err(LedgerError::NotFound);
            },
        };
        proof {
            lemma_listing_found(self@.published, id, at as int);
            lemma_buy_keeps_wf(self@, ctx@, id);
        }
        let domain = &self.domains_published[at];
        if !domain.is_active {
            return Err(LedgerError::InsufficientPayment);
        }
        let transfers = match pay_sale(&domain.user_seller, &self.vault_id, domain.price, ctx) {
            Ok(transfers) => transfers,
            Err(e) => {
                return Err(e);
            },
        };
        let data = DomainPurchased {
            id,
            domain: domain.domain.clone(),
            user_seller: domain.user_seller.clone(),
            owner_id: ctx.signer_account_id.clone(),
            purchase_price: domain.price,
            retired: false,
            post_type: domain.post_type,
            date_time: ctx.block_timestamp,
        };
        let event = buy_record(&data);
        let mut listed: Vec<DomainPublished> = Vec::new();
        std::mem::swap(&mut listed, &mut self.domains_published);
        listed.remove(at);
        proof {
            let step = buy_step(old(self)@, ctx@, id).unwrap();
            assert(published_views(listed@) =~= step.after.published);
            lemma_without_listing(old(self)@, at as int);
        }
        self.domains_published = listed;
        let mut bought: Vec<DomainPurchased> = Vec::new();
        std::mem::swap(&mut bought, &mut self.domains_purchased);
        bought.push(data);
        proof {
            let step = buy_step(old(self)@, ctx@, id).unwrap();
            assert(purchased_views(bought@) =~= step.after.purchased);
        }
        self.domains_purchased = bought;
        Ok(Outcome { value: (), transfers, event })
    }

    /// Publishes `domain` for `user_seller` at `price`.
    pub fn publish_domain(
        &mut self,
        ctx: &CallContext,
        domain: AccountId,
        user_seller: AccountId,
        price: Balance,
    ) -> (answer: Result<Outcome<DomainPublished>, LedgerError>)
        requires
            old(self)@.id_domain < i128::MAX,
        ensures
            final(self)@.wf(),
            carried_out(
                answer,
                old(self)@,
                final(self)@,
                publish_step(old(self)@, ctx@, domain@, user_seller@, price),
            ),
    {
        proof {
            use_type_invariant(&*self);
        }
        if !self.is_manager(&ctx.signer_account_id) {
            return Err(LedgerError::PermissionDenied);
        }
        proof {
            lemma_publish_keeps_wf(self@, ctx@, domain@, user_seller@, price);
        }
        self.id_domain += 1;
        let data = DomainPublished {
            id: self.id_domain,
            domain,
            user_seller,
            price,
            post_type: STANDARD,
            is_active: true,
            date_time: ctx.block_timestamp,
        };
        let mut listed: Vec<DomainPublished> = Vec::new();
        std::mem::swap(&mut listed, &mut self.domains_published);
        listed.push(data.clone());
        proof {
            let step = publish_step(old(self)@, ctx@, domain@, user_seller@, price).unwrap();
            assert(published_views(listed@) =~= step.after.published);
        }
        self.domains_published = listed;
        let event = publish_record(&data);
        let transfers: Vec<Transfer> = Vec::new();
        assert(transfers_view(transfers@) =~= Seq::empty());
        Ok(Outcome { value: data, transfers, event })
    }

    /// Withdraws the purchased domain `id` from resale.
    pub fn retired_domain(&mut self, ctx: &CallContext, id: i128) -> (answer: Result<
        Outcome<DomainPurchased>,
        LedgerError,
    >)
        ensures
            final(self)@.wf(),
            carried_out(answer, old(self)@, final(self)@, retire_step(old(self)@, ctx@, id)),
    {
        proof {
            use_type_invariant(&*self);
        }
        let at = match find_purchased(&self.domains_purchased, id) {
            Some(at) => at,
            None => {
                return Err(LedgerError::NotFound);
            },
        };
        proof {
            lemma_purchase_found(self@.purchased, id, at as int);
            lemma_retire_keeps_wf(self@, ctx@, id);
        }
        let mut domine = self.domains_purchased[at].clone();
        if !(domine.owner_id == ctx.signer_account_id) {
            return Err(LedgerError::PermissionDenied);
        }
        domine.retired = true;
        let mut bought: Vec<DomainPurchased> = Vec::new();
        std::mem::swap(&mut bought, &mut self.domains_purchased);
        bought[at] = domine.clone();
        proof {
            let step = retire_step(old(self)@, ctx@, id).unwrap();
            assert(purchased_views(bought@) =~= step.after.purchased);
        }
        self.domains_purchased = bought;
        let event = retire_record(id, &ctx.signer_account_id, ctx.block_timestamp);
        let transfers: Vec<Transfer> = Vec::new();
        assert(transfers_view(transfers@) =~= Seq::empty());
        Ok(Outcome { value: domine, transfers, event })
    }

    /// Takes the listing `id` down.
    pub fn cancel_domain(&mut self, ctx: &CallContext, id: i128) -> (answer: Result<
        Outcome<()>,
        LedgerError,
    >)
        ensures
            final(self)@.wf(),
            carried_out(answer, old(self)@, final(self)@, cancel_step(old(self)@, ctx@, id)),
    {
        proof {
            use_type_invariant(&*self);
        }
        let at = match find_published(&self.domains_published, id) {
            Some(at) => at,
            None => {
                return Err(LedgerError::NotFound);
            },
        };
        proof {
            lemma_listing_found(self@.published, id, at as int);
            lemma_cancel_keeps_wf(self@, ctx@, id);
        }
        if !(self.domains_published[at].user_seller == ctx.signer_account_id) {
            return Err(LedgerError::PermissionDenied);
        }
        let mut listed: Vec<DomainPublished> = Vec::new();
        std::mem::swap(&mut listed, &mut self.domains_published);
        listed.remove(at);
        proof {
            let step = cancel_step(old(self)@, ctx@, id).unwrap();
            assert(published_views(listed@) =~= step.after.published);
        }
        self.domains_published = listed;
        let event = cancel_record(id, &ctx.signer_account_id, ctx.block_timestamp);
        let transfers: Vec<Transfer> = Vec::new();
        assert(transfers_view(transfers@) =~= Seq::empty());
        Ok(Outcome { value: (), transfers, event })
    }

    /// Whether `who` is the owner or an administrator.
    pub fn is_manager(&self, who: &AccountId) -> (yes: bool)
        ensures
            yes == self@.is_manager(who@),
    {
        if self.owner_id == *who {
            return true;
        }
        find_name(&self.administrators, who).is_some()
    }

    /// Makes `user_id` an administrator.
    pub fn set_admin(&mut self, ctx: &CallContext, user_id: AccountId) -> (answer: Result<
        (),
        LedgerError,
    >)
        ensures
            final(self)@.wf(),
            match set_admin_step(old(self)@, ctx@, user_id@) {
                Ok(after) => answer is Ok && final(self)@ == after,
                Err(e) => answer == Err::<(), LedgerError>(e) && final(self)@ == old(self)@,
            },
    {
        proof {
            use_type_invariant(&*self);
        }
        if !self.is_manager(&ctx.signer_account_id) {
            return Err(LedgerError::PermissionDenied);
        }
        if find_name(&self.administrators, &user_id).is_some() {
            return Err(LedgerError::AlreadyExists);
        }
        proof {
            lemma_name_set_push(self.administrators@, user_id);
        }
        let mut names: Vec<AccountId> = Vec::new();
        std::mem::swap(&mut names, &mut self.administrators);
        names.push(user_id);
        self.administrators = names;
        Ok(())
    }

    /// Takes `user_id` off the administrators.
    pub fn delete_admin(&mut self, ctx: &CallContext, user_id: AccountId) -> (answer: Result<
        (),
        LedgerError,
    >)
        ensures
            final(self)@.wf(),
            match delete_admin_step(old(self)@, ctx@, user_id@) {
                Ok(after) => answer is Ok && final(self)@ == after,
                Err(e) => answer == Err::<(), LedgerError>(e) && final(self)@ == old(self)@,
            },
    {
        proof {
            use_type_invariant(&*self);
        }
        if !self.is_manager(&ctx.signer_account_id) {
            return Err(LedgerError::PermissionDenied);
        }
        match find_name(&self.administrators, &user_id) {
            Some(at) => {
                proof {
                    lemma_name_set_remove(self.administrators@, at as int);
                }
                let mut names: Vec<AccountId> = Vec::new();
                std::mem::swap(&mut names, &mut self.administrators);
                names.remove(at);
                self.administrators = names;
                Ok(())
            },
            None => Err(LedgerError::NotFound),
        }
    }

    /// The listings of the seller `user_seller`, in the table's order. The
    /// seller must be given.
    pub fn get_domains_published(self, user_seller: Option<AccountId>) -> (answer: Result<
        Vec<DomainPublished>,
        LedgerError,
    >)
        ensures
            match user_seller {
                Some(seller) => answer matches Ok(rows) && published_views(rows@)
                    == self@.published.filter(sold_by(seller@)),
                None => answer matches Err(e) && e == LedgerError::InvalidArgument,
            },
    {
        match user_seller {
            Some(seller) => Ok(
                select_published(&self.domains_published, &ListingFilter::Seller(seller)),
            ),
            None => Err(LedgerError::InvalidArgument),
        }
    }

    /// The purchases of the owner `owner_id` made from the seller
    /// `user_seller`, in the table's order. A filter that is not given lets
    /// every row through; with neither, no row is returned.
    pub fn get_domains_purchased(
        self,
        owner_id: Option<AccountId>,
        user_seller: Option<AccountId>,
    ) -> (rows: Vec<DomainPurchased>)
        ensures
            purchased_views(rows@) == purchases_matching(
                self@.purchased,
                optional_name(owner_id),
                optional_name(user_seller),
            ),
    {
        match owner_id {
            Some(owner) => {
                let owned = select_purchased(
                    &self.domains_purchased,
                    &PurchaseFilter::Owner(owner),
                );
                match user_seller {
                    Some(seller) => select_purchased(&owned, &PurchaseFilter::Seller(seller)),
                    None => owned,
                }
            },
            None => match user_seller {
                Some(seller) => select_purchased(
                    &self.domains_purchased,
                    &PurchaseFilter::Seller(seller),
                ),
                None => {
                    let rows: Vec<DomainPurchased> = Vec::new();
                    assert(purchased_views(rows@) =~= Seq::empty());
                    rows
                },
            },
        }
    }

    /// The active listings with the highest prices, highest first: five of
    /// them, or as many as `top` says.
    pub fn get_top_published(&self, top: Option<i32>) -> (rows: Vec<DomainPublished>)
        ensures
            published_views(rows@) == top_listings(self@.published, top),
    {
        let top_domains = select_published(&self.domains_published, &ListingFilter::Active);
        let keys = prices_of_published(&top_domains);
        let count = limit_of(top, top_domains.len());
        ranked_published(&top_domains, &keys, count)
    }

    /// The purchases with the highest prices, highest first: five of them,
    /// or as many as `top` says.
    pub fn get_top_purchased(&self, top: Option<i32>) -> (rows: Vec<DomainPurchased>)
        ensures
            purchased_views(rows@) == top_purchases(self@.purchased, top),
    {
        let keys = prices_of_purchased(&self.domains_purchased);
        let count = limit_of(top, self.domains_purchased.len());
        ranked_purchased(&self.domains_purchased, &keys, count)
    }

    /// The last `number_domains` purchases, oldest first.
    pub fn get_last_sold(&self, number_domains: i128) -> (rows: Vec<DomainPurchased>)
        ensures
            purchased_views(rows@) == last_sold(self@.purchased, number_domains),
    {
        tail_of_purchased(&self.domains_purchased, number_domains)
    }

    /// The purchase with the id, if there is one.
    pub fn get_domain_id(self, id: i128) -> (rows: Vec<DomainPurchased>)
        ensures
            purchased_views(rows@) == self@.purchased.filter(purchase_with_id(id)),
    {
        select_purchased(&self.domains_purchased, &PurchaseFilter::Id(id))
    }

    /// The listing with the id, if there is one.
    pub fn get_domain_forsale(self, id: i128) -> (rows: Vec<DomainPublished>)
        ensures
            published_views(rows@) == self@.published.filter(listing_with_id(id)),
    {
        select_published(&self.domains_published, &ListingFilter::Id(id))
    }

    /// The active listings, premium ones first.
    pub fn get_market(&self) -> (rows: Vec<DomainPublished>)
        ensures
            published_views(rows@) == market(self@.published),
    {
        let domains = select_published(&self.domains_published, &ListingFilter::Active);
        let keys = kinds_of_published(&domains);
        let rows = ranked_published(&domains, &keys, domains.len());
        proof {
            let ranked = arranged(published_views(domains@), descending_order(keys@));
            lemma_descending_order(keys@);
            assert(ranked.take(domains.len() as int) =~= ranked);
        }
        rows
    }

    /// Puts a marketplace together from what was stored of it. The parts
    /// must make a well-formed ledger: ids handed out by the counter, each
    /// in one row of one table at most, kinds known, no administrator twice.
    pub fn from_parts(
        owner_id: AccountId,
        vault_id: AccountId,
        id_domain: i128,
        domains_published: Vec<DomainPublished>,
        domains_purchased: Vec<DomainPurchased>,
        administrators: Vec<AccountId>,
    ) -> (made: Option<Contract>)
        ensures
            made is Some <==> ledger_of(
                owner_id,
                vault_id,
                id_domain,
                domains_published,
                domains_purchased,
                administrators,
            ).wf() && distinct_names(administrators@),
            made matches Some(contract) ==> contract@ == ledger_of(
                owner_id,
                vault_id,
                id_domain,
                domains_published,
                domains_purchased,
                administrators,
            ),
    {
        if id_domain < 0 {
            return None;
        }
        if !published_is_sound(&domains_published, id_domain) {
            return None;
        }
        if !purchased_is_sound(&domains_purchased, id_domain) {
            return None;
        }
        if !tables_are_apart(&domains_published, &domains_purchased) {
            return None;
        }
        if !names_are_distinct(&administrators) {
            return None;
        }
        Some(
            Contract {
                owner_id,
                id_domain,
                domains_published,
                domains_purchased,
                vault_id,
                administrators,
            },
        )
    }

    /// The account that set the marketplace up.
    pub fn owner_id(&self) -> (name: &AccountId)
        ensures
            name@ == self@.owner_id,
    {
        &self.owner_id
    }

    /// The account that receives fees and premium deposits.
    pub fn vault_id(&self) -> (name: &AccountId)
        ensures
            name@ == self@.vault_id,
    {
        &self.vault_id
    }

    /// The id given to the listing published last.
    pub fn id_domain(&self) -> (id: i128)
        ensures
            id == self@.id_domain,
    {
        self.id_domain
    }

    /// The published table, oldest entry first.
    pub fn domains_published(&self) -> (rows: &Vec<DomainPublished>)
        ensures
            published_views(rows@) == self@.published,
    {
        &self.domains_published
    }

    /// The purchased table, oldest entry first.
    pub fn domains_purchased(&self) -> (rows: &Vec<DomainPurchased>)
        ensures
            purchased_views(rows@) == self@.purchased,
    {
        &self.domains_purchased
    }

    /// The administrators, each once.
    pub fn administrators(&self) -> (names: &Vec<AccountId>)
        ensures
            name_set(names@) == self@.administrators,
            distinct_names(names@),
    {
        proof {
            use_type_invariant(self);
        }
        &self.administrators
    }
}

/// The ledger that the parts make.
pub open spec fn ledger_of(
    owner_id: AccountId,
    vault_id: AccountId,
    id_domain: i128,
    domains_published: Vec<DomainPublished>,
    domains_purchased: Vec<DomainPurchased>,
    administrators: Vec<AccountId>,
) -> LedgerView {
    LedgerView {
        owner_id: owner_id@,
        vault_id: vault_id@,
        id_domain,
        published: published_views(domains_published@),
        purchased: purchased_views(domains_purchased@),
        administrators: name_set(administrators@),
    }
}

/// Whether no name stands twice in `names`.
fn names_are_distinct(names: &Vec<AccountId>) -> (sound: bool)
    ensures
        sound == distinct_names(names@),
{
    let mut i: usize = 0;
    while i < names.len()
        invariant
            i <= names.len(),
            forall|a: int, b: int|
                0 <= a < b < i ==> (#[trigger] names[a])@ != (#[trigger] names[b])@,
        decreases names.len() - i,
    {
        let mut j: usize = 0;
        while j < i
            invariant
                j <= i < names.len(),
                forall|a: int| 0 <= a < j ==> (#[trigger] names[a])@ != names[i as int]@,
            decreases i - j,
        {
            if names[j] == names[i] {
                assert(!distinct_names(names@)) by {
                    assert(names[j as int]@ == names[i as int]@);
                }
                return false;
            }
            j += 1;
        }
        i += 1;
    }
    true
}

/// Pushing a name that `names` lacks adds it to the set and keeps the names
/// distinct.
proof fn lemma_name_set_push(names: Seq<AccountId>, name: AccountId)
    requires
        distinct_names(names),
        !name_set(names).contains(name@),
    ensures
        name_set(names.push(name)) == name_set(names).insert(name@),
        distinct_names(names.push(name)),
{
    let longer = names.push(name);
    assert forall|n: Seq<char>| name_set(longer).contains(n) <==> name_set(names).insert(
        name@,
    ).contains(n) by {
        if name_set(longer).contains(n) {
            let i = choose|i: int| 0 <= i < longer.len() && (#[trigger] longer[i])@ == n;
            if i < names.len() {
                assert(names[i]@ == n);
            }
        }
        if name_set(names).contains(n) {
            let i = choose|i: int| 0 <= i < names.len() && (#[trigger] names[i])@ == n;
            assert(longer[i]@ == n);
        }
        if n == name@ {
            assert(longer[names.len() as int]@ == n);
        }
    }
    assert(name_set(longer) =~= name_set(names).insert(name@));
    assert forall|i: int, j: int| 0 <= i < j < longer.len() implies (#[trigger] longer[i])@ != (
    #[trigger] longer[j])@ by {
        if j < names.len() {
            assert(names[i]@ != names[j]@);
        } else {
            assert(names[i]@ == longer[i]@);
        }
    }
}

/// Removing the name at `at` from distinct names takes it from the set and
/// keeps the names distinct.
proof fn lemma_name_set_remove(names: Seq<AccountId>, at: int)
    requires
        distinct_names(names),
        0 <= at < names.len(),
    ensures
        name_set(names.remove(at)) == name_set(names).remove(names[at]@),
        distinct_names(names.remove(at)),
{
    let shorter = names.remove(at);
    assert forall|n: Seq<char>| name_set(shorter).contains(n) <==> name_set(names).remove(
        names[at]@,
    ).contains(n) by {
        if name_set(shorter).contains(n) {
            let i = choose|i: int| 0 <= i < shorter.len() && (#[trigger] shorter[i])@ == n;
            if i < at {
                assert(names[i]@ == n);
                assert(names[i]@ != names[at]@);
            } else {
                assert(names[i + 1]@ == n);
                assert(names[at]@ != names[i + 1]@);
            }
        }
        if name_set(names).contains(n) && n != names[at]@ {
            let i = choose|i: int| 0 <= i < names.len() && (#[trigger] names[i])@ == n;
            if i < at {
                assert(shorter[i]@ == n);
            } else {
                assert(shorter[i - 1]@ == n);
            }
        }
    }
    assert(name_set(shorter) =~= name_set(names).remove(names[at]@));
    assert forall|i: int, j: int| 0 <= i < j < shorter.len() implies (#[trigger] shorter[i])@
        != (#[trigger] shorter[j])@ by {
        let a = if i < at { i } else { i + 1 };
        let b = if j < at { j } else { j + 1 };
        assert(names[a]@ != names[b]@);
    }
}

/// Looks for `who` among `names`: the place of the first such name.
fn find_name(names: &Vec<AccountId>, who: &AccountId) -> (found: Option<usize>)
    ensures
        match found {
            Some(at) => at < names.len() && names[at as int]@ == who@,
            None => !name_set(names@).contains(who@),
        },
{
    let mut i: usize = 0;
    while i < names.len()
        invariant
            i <= names.len(),
            forall|j: int| 0 <= j < i ==> (#[trigger] names[j])@ != who@,
        decreases names.len() - i,
    {
        if names[i] == *who {
            return Some(i);
        }
        i += 1;
    }
    None
}

} // verus!
