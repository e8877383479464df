//! The records that the ledger asks the host to log: a type tag and the
//! fields of the row that changed, numbers written out in decimal.

use crate::records::{DomainPublished, DomainPurchased, PublishedView, PurchasedView};
use crate::text::{decimal, decimal_text, signed_decimal, signed_decimal_text};
use vstd::prelude::*;

verus! {

/// The value of one field of an event.
#[derive(Debug)]
pub enum ParamValue {
    Text(String),
    Flag(bool),
    Number(i64),
}

/// What a [`ParamValue`] holds.
pub enum ParamView {
    Text(Seq<char>),
    Flag(bool),
    Number(i64),
}

impl View for ParamValue {
    type V = ParamView;

    open spec fn view(&self) -> ParamView {
        match self {
            ParamValue::Text(s) => ParamView::Text(s@),
            ParamValue::Flag(b) => ParamView::Flag(*b),
            ParamValue::Number(n) => ParamView::Number(*n),
        }
    }
}

impl PartialEq for ParamValue {
    fn eq(&self, other: &Self) -> (same: bool) {
        match self {
            ParamValue::Text(a) => match other {
                ParamValue::Text(b) => *a == *b,
                _ => false,
            },
            ParamValue::Flag(a) => match other {
                ParamValue::Flag(b) => *a == *b,
                _ => false,
            },
            ParamValue::Number(a) => match other {
                ParamValue::Number(b) => *a == *b,
                _ => false,
            },
        }
    }
}

impl vstd::std_specs::cmp::PartialEqSpecImpl for ParamValue {
    open spec fn obeys_eq_spec() -> bool {
        true
    }

    open spec fn eq_spec(&self, other: &Self) -> bool {
        self@ == other@
    }
}

/// One named field of an event.
#[derive(Debug)]
pub struct EventParam {
    pub name: String,
    pub value: ParamValue,
}

/// An event: its type tag and its fields, in the order they were written.
#[derive(Debug)]
pub struct Event {
    pub event_type: String,
    pub params: Vec<EventParam>,
}

/// What an [`Event`] holds.
pub struct EventView {
    pub event_type: Seq<char>,
    pub params: Seq<(Seq<char>, ParamView)>,
}

/// The names and values of `params`, in order.
pub open spec fn params_view(params: Seq<EventParam>) -> Seq<(Seq<char>, ParamView)> {
    Seq::new(params.len(), |i: int| (params[i].name@, params[i].value@))
}

impl View for Event {
    type V = EventView;

    open spec fn view(&self) -> EventView {
        EventView { event_type: self.event_type@, params: params_view(self.params@) }
    }
}

/// A field whose value is text.
pub open spec fn text_param(name: Seq<char>, value: Seq<char>) -> (Seq<char>, ParamView) {
    (name, ParamView::Text(value))
}

/// A field whose value is a truth value.
pub open spec fn flag_param(name: Seq<char>, value: bool) -> (Seq<char>, ParamView) {
    (name, ParamView::Flag(value))
}

/// The event of a newly published listing. The kind and the active flag are
/// written as a number and a truth value, all else as text.
pub open spec fn publish_event(row: PublishedView) -> EventView {
    EventView {
        event_type: "publish_domain"@,
        params: seq![
            text_param("id"@, signed_decimal(row.id as int)),
            text_param("domain"@, row.domain),
            text_param("user_seller"@, row.user_seller),
            text_param("price"@, decimal(row.price as nat)),
            ("post_type"@, ParamView::Number(1)),
            flag_param("is_active"@, true),
            text_param("date_time"@, decimal(row.date_time as nat)),
        ],
    }
}

/// The event of a listing that was put up again or changed, under the tag
/// `event_type`.
pub open spec fn listing_event(event_type: Seq<char>, row: PublishedView) -> EventView {
    EventView {
        event_type,
        params: seq![
            text_param("id"@, signed_decimal(row.id as int)),
            text_param("domain"@, row.domain),
            text_param("user_seller"@, row.user_seller),
            text_param("price"@, decimal(row.price as nat)),
            text_param("post_type"@, signed_decimal(row.post_type as int)),
            flag_param("is_active"@, row.is_active),
            text_param("date_time"@, decimal(row.date_time as nat)),
        ],
    }
}

/// The event of a listing put up for sale again by its owner.
pub open spec fn resell_event(row: PublishedView) -> EventView {
    listing_event("resell_domain"@, row)
}

/// The event of a listing changed by its seller.
pub open spec fn update_event(row: PublishedView) -> EventView {
    listing_event("update_domain"@, row)
}

/// The event of a purchase.
pub open spec fn buy_event(row: PurchasedView) -> EventView {
    EventView {
        event_type: "domain_buy"@,
        params: seq![
            text_param("id"@, signed_decimal(row.id as int)),
            text_param("domain"@, row.domain),
            text_param("user_seller"@, row.user_seller),
            text_param("owner_id"@, row.owner_id),
            text_param("purchase_price"@, decimal(row.purchase_price as nat)),
            text_param("post_type"@, signed_decimal(row.post_type as int)),
            flag_param("retired"@, row.retired),
            text_param("date_time"@, decimal(row.date_time as nat)),
        ],
    }
}

/// The event of a purchased domain withdrawn from resale by `owner` at
/// `date_time`.
pub open spec fn retire_event(id: i128, owner: Seq<char>, date_time: u64) -> EventView {
    EventView {
        event_type: "retired_domain"@,
        params: seq![
            text_param("id"@, signed_decimal(id as int)),
            text_param("owner_id"@, owner),
            flag_param("retired"@, true),
            text_param("date_time"@, decimal(date_time as nat)),
        ],
    }
}

/// The event of a listing taken down by `seller` at `date_time`.
pub open spec fn cancel_event(id: i128, seller: Seq<char>, date_time: u64) -> EventView {
    EventView {
        event_type: "cancel_domain"@,
        params: seq![
            text_param("id"@, signed_decimal(id as int)),
            text_param("user_seller"@, seller),
            text_param("date_time"@, decimal(date_time as nat)),
        ],
    }
}

fn text_field(name: &str, value: String) -> (param: EventParam)
    ensures
        (param.name@, param.value@) == text_param(name@, value@),
{
    EventParam { name: String::from_str(name), value: ParamValue::Text(value) }
}

fn flag_field(name: &str, value: bool) -> (param: EventParam)
    ensures
        (param.name@, param.value@) == flag_param(name@, value),
{
    EventParam { name: String::from_str(name), value: ParamValue::Flag(value) }
}

/// Builds the event of a newly published listing.
pub fn publish_record(row: &DomainPublished) -> (event: Event)
    ensures
        event@ == publish_event(row@),
{
    let mut params: Vec<EventParam> = Vec::new();
    params.push(text_field("id", signed_decimal_text(row.id)));
    params.push(text_field("domain", row.domain.clone()));
    params.push(text_field("user_seller", row.user_seller.clone()));
    params.push(text_field("price", decimal_text(row.price)));
    params.push(
        EventParam { name: String::from_str("post_type"), value: ParamValue::Number(1) },
    );
    params.push(flag_field("is_active", true));
    params.push(text_field("date_time", decimal_text(row.date_time as u128)));
    let event = Event { event_type: String::from_str("publish_domain"), params };
    assert(event@.params =~= publish_event(row@).params);
    event
}

fn listing_record(event_type: &str, row: &DomainPublished) -> (event: Event)
    ensures
        event@ == listing_event(event_type@, row@),
{
    let mut params: Vec<EventParam> = Vec::new();
    params.push(text_field("id", signed_decimal_text(row.id)));
    params.push(text_field("domain", row.domain.clone()));
    params.push(text_field("user_seller", row.user_seller.clone()));
    params.push(text_field("price", decimal_text(row.price)));
    params.push(text_field("post_type", signed_decimal_text(row.post_type as i128)));
    params.push(flag_field("is_active", row.is_active));
    params.push(text_field("date_time", decimal_text(row.date_time as u128)));
    let event = Event { event_type: String::from_str(event_type), params };
    assert(event@.params =~= listing_event(event_type@, row@).params);
    event
}

/// Builds the event of a listing put up for sale again.
pub fn resell_record(row: &DomainPublished) -> (event: Event)
    ensures
        event@ == resell_event(row@),
{
    listing_record("resell_domain", row)
}

/// Builds the event of a changed listing.
pub fn update_record(row: &DomainPublished) -> (event: Event)
    ensures
        event@ == update_event(row@),
{
    listing_record("update_domain", row)
}

/// Builds the event of a purchase.
pub fn buy_record(row: &DomainPurchased) -> (event: Event)
    ensures
        event@ == buy_event(row@),
{
    let mut params: Vec<EventParam> = Vec::new();
    params.push(text_field("id", signed_decimal_text(row.id)));
    params.push(text_field("domain", row.domain.clone()));
    params.push(text_field("user_seller", row.user_seller.clone()));
    params.push(text_field("owner_id", row.owner_id.clone()));
    params.push(text_field("purchase_price", decimal_text(row.purchase_price)));
    params.push(text_field("post_type", signed_decimal_text(row.post_type as i128)));
    params.push(flag_field("retired", row.retired));
    params.push(text_field("date_time", decimal_text(row.date_time as u128)));
    let event = Event { event_type: String::from_str("domain_buy"), params };
    assert(event@.params =~= buy_event(row@).params);
    event
}

/// Builds the event of a purchased domain withdrawn from resale.
pub fn retire_record(id: i128, owner: &String, date_time: u64) -> (event: Event)
    ensures
        event@ == retire_event(id, owner@, date_time),
{
    let mut params: Vec<EventParam> = Vec::new();
    params.push(text_field("id", signed_decimal_text(id)));
    params.push(text_field("owner_id", owner.clone()));
    params.push(flag_field("retired", true));
    params.push(text_field("date_time", decimal_text(date_time as u128)));
    let event = Event { event_type: String::from_str("retired_domain"), params };
    assert(event@.params =~= retire_event(id, owner@, date_time).params);
    event
}

/// Builds the event of a listing taken down.
pub fn cancel_record(id: i128, seller: &String, date_time: u64) -> (event: Event)
    ensures
        event@ == cancel_event(id, seller@, date_time),
{
    let mut params: Vec<EventParam> = Vec::new();
    params.push(text_field("id", signed_decimal_text(id)));
    params.push(text_field("user_seller", seller.clone()));
    params.push(text_field("date_time", decimal_text(date_time as u128)));
    let event = Event { event_type: String::from_str("cancel_domain"), params };
    assert(event@.params =~= cancel_event(id, seller@, date_time).params);
    event
}

} // verus!
