//! The event store model and its queries.
//!
//! The store is an append-only sequence of event rows, one row per delivery
//! attempt, ordered by creation time. Rows that retry the same logical event
//! share an `initial_attempt_id` (the first row's own `event_id`) and form a
//! delivery-attempt chain. Every query is scoped to a merchant: no filter
//! combination can return another tenant's events.

use vstd::prelude::*;

use crate::constraints::{EventListConstraintsInternal, FilterModel, GenericFilterModel};
use crate::seq_facts::{first_match_index, lemma_filter_first, lemma_filter_nonempty_has_match};
use crate::types::{
    EventClass, EventType, OutgoingWebhookRequestContent, OutgoingWebhookResponseContent,
    RequestModel, ResponseModel, WebhookDeliveryAttempt, WebhookEventsError,
};

verus! {

/// Default page size when a generic listing supplies no limit.
pub const DEFAULT_LIST_LIMIT: i64 = 100;

/// Ghost model of one stored event row.
pub struct EventModel {
    pub event_id: Seq<char>,
    pub merchant_id: Seq<char>,
    pub profile_id: Seq<char>,
    pub object_id: Seq<char>,
    pub event_type: EventType,
    pub event_class: EventClass,
    pub is_overall_delivery_successful: Option<bool>,
    pub initial_attempt_id: Seq<char>,
    pub created: int,
    pub delivery_attempt: Option<WebhookDeliveryAttempt>,
    pub request: RequestModel,
    pub response: ResponseModel,
}

/// One stored event row: one delivery attempt of one logical event.
pub struct Event {
    /// Unique, stable identifier of this row.
    pub event_id: String,
    /// The merchant that owns the event.
    pub merchant_id: String,
    /// The business profile the event belongs to.
    pub profile_id: String,
    /// The business object (payment id, refund id, ...) the event concerns.
    pub object_id: String,
    /// Fine-grained event type (object and status).
    pub event_type: EventType,
    /// Coarse event class (the kind of object).
    pub event_class: EventClass,
    /// Whether the webhook was ultimately delivered; absent while unknown.
    pub is_overall_delivery_successful: Option<bool>,
    /// The first attempt's `event_id`; equals this row's own `event_id` for
    /// the first attempt of a chain.
    pub initial_attempt_id: String,
    /// Creation time (integer timestamp).
    pub created: i64,
    /// Which kind of delivery attempt this row records.
    pub delivery_attempt: Option<WebhookDeliveryAttempt>,
    /// The request content sent.
    pub request: OutgoingWebhookRequestContent,
    /// The response content received, once the attempt completed.
    pub response: OutgoingWebhookResponseContent,
}

impl View for Event {
    type V = EventModel;

    open spec fn view(&self) -> EventModel {
        EventModel {
            event_id: self.event_id@,
            merchant_id: self.merchant_id@,
            profile_id: self.profile_id@,
            object_id: self.object_id@,
            event_type: self.event_type,
            event_class: self.event_class,
            is_overall_delivery_successful: self.is_overall_delivery_successful,
            initial_attempt_id: self.initial_attempt_id@,
            created: self.created as int,
            delivery_attempt: self.delivery_attempt,
            request: self.request@,
            response: self.response@,
        }
    }
}

impl Clone for Event {
    fn clone(&self) -> (r: Self)
        ensures
            r@ == self@,
    {
        Event {
            event_id: self.event_id.clone(),
            merchant_id: self.merchant_id.clone(),
            profile_id: self.profile_id.clone(),
            object_id: self.object_id.clone(),
            event_type: self.event_type,
            event_class: self.event_class,
            is_overall_delivery_successful: self.is_overall_delivery_successful,
            initial_attempt_id: self.initial_attempt_id.clone(),
            created: self.created,
            delivery_attempt: self.delivery_attempt,
            request: self.request.clone(),
            response: self.response.clone(),
        }
    }
}

/// The models of a sequence of event rows.
pub open spec fn events_model(v: Seq<Event>) -> Seq<EventModel> {
    v.map_values(|e: Event| e@)
}

/// Whether a row is the first attempt of its chain.
pub open spec fn is_initial(e: EventModel) -> bool {
    e.initial_attempt_id == e.event_id
}

/// Whether `root` is the initial attempt that `e` retries: it carries the
/// chain's identifier, belongs to the same merchant, profile and object,
/// and was created strictly earlier.
pub open spec fn chain_root_of(root: EventModel, e: EventModel) -> bool {
    &&& root.event_id == e.initial_attempt_id
    &&& is_initial(root)
    &&& root.merchant_id == e.merchant_id
    &&& root.profile_id == e.profile_id
    &&& root.object_id == e.object_id
    &&& root.created < e.created
}

/// Well-formedness of the stored sequence: row identifiers are unique, rows
/// are ordered by creation time, and every retry row is preceded by the
/// initial attempt it retries.
pub open spec fn store_wf(events: Seq<EventModel>) -> bool {
    &&& forall|i: int, j: int|
        0 <= i < j < events.len() ==> (#[trigger] events[i]).event_id != (
        #[trigger] events[j]).event_id
    &&& forall|i: int, j: int|
        0 <= i <= j < events.len() ==> (#[trigger] events[i]).created <= (
        #[trigger] events[j]).created
    &&& forall|i: int|
        0 <= i < events.len() && !is_initial(#[trigger] events[i]) ==> exists|j: int|
            0 <= j < i && #[trigger] chain_root_of(events[j], events[i])
}

/// Whether some row with this `event_id` exists under this merchant.
pub open spec fn located(events: Seq<EventModel>, merchant_id: Seq<char>, event_id: Seq<char>) -> bool {
    exists|i: int|
        0 <= i < events.len() && (#[trigger] events[i]).event_id == event_id
            && events[i].merchant_id == merchant_id
}

/// The index of the row with this `event_id` under this merchant (unique
/// when the store is well-formed).
pub open spec fn idx_of(events: Seq<EventModel>, merchant_id: Seq<char>, event_id: Seq<char>) -> int {
    choose|i: int|
        0 <= i < events.len() && (#[trigger] events[i]).event_id == event_id
            && events[i].merchant_id == merchant_id
}

/// Whether a row belongs to the delivery-attempt chain keyed by
/// `initial_attempt_id`, under the given merchant scope.
pub open spec fn in_chain(e: EventModel, initial_attempt_id: Seq<char>, merchant_id: Seq<char>) -> bool {
    e.initial_attempt_id == initial_attempt_id && e.merchant_id == merchant_id
}

/// The delivery-attempt chain keyed by `initial_attempt_id` under a merchant
/// scope: the matching rows in store order (ascending creation time).
pub open spec fn chain_model(
    events: Seq<EventModel>,
    initial_attempt_id: Seq<char>,
    merchant_id: Seq<char>,
) -> Seq<EventModel> {
    events.filter(|e: EventModel| in_chain(e, initial_attempt_id, merchant_id))
}

/// Every non-empty chain starts with its initial attempt: the first
/// element's `event_id` equals the chain's `initial_attempt_id`.
pub proof fn lemma_chain_first_is_initial(
    events: Seq<EventModel>,
    initial_attempt_id: Seq<char>,
    merchant_id: Seq<char>,
)
    requires
        store_wf(events),
        chain_model(events, initial_attempt_id, merchant_id).len() > 0,
    ensures
        chain_model(events, initial_attempt_id, merchant_id)[0].event_id == initial_attempt_id,
        is_initial(chain_model(events, initial_attempt_id, merchant_id)[0]),
{
    let pred = |e: EventModel| in_chain(e, initial_attempt_id, merchant_id);
    lemma_filter_nonempty_has_match(events, pred);
    let i0 = first_match_index(events, pred);
    if !is_initial(events[i0]) {
        let j = choose|j: int| 0 <= j < i0 && #[trigger] chain_root_of(events[j], events[i0]);
        assert(pred(events[j]));
        assert(false);
    }
    lemma_filter_first(events, pred, i0);
}

/// A chain is ordered by ascending creation time, as the store is.
pub proof fn lemma_chain_sorted(
    events: Seq<EventModel>,
    initial_attempt_id: Seq<char>,
    merchant_id: Seq<char>,
)
    requires
        store_wf(events),
    ensures
        ({
            let c = chain_model(events, initial_attempt_id, merchant_id);
            forall|i: int, j: int|
                0 <= i <= j < c.len() ==> (#[trigger] c[i]).created <= (#[trigger] c[j]).created
        }),
{
    let pred = |e: EventModel| in_chain(e, initial_attempt_id, merchant_id);
    lemma_filter_sorted_by_created(events, pred);
}

/// Filtering a creation-time-sorted sequence of rows keeps it sorted.
proof fn lemma_filter_sorted_by_created(events: Seq<EventModel>, pred: spec_fn(EventModel) -> bool)
    requires
        forall|i: int, j: int|
            0 <= i <= j < events.len() ==> (#[trigger] events[i]).created <= (
            #[trigger] events[j]).created,
    ensures
        ({
            let c = events.filter(pred);
            forall|i: int, j: int|
                0 <= i <= j < c.len() ==> (#[trigger] c[i]).created <= (#[trigger] c[j]).created
        }),
    decreases events.len(),
{
    reveal(Seq::filter);
    if events.len() > 0 {
        let rest = events.drop_last();
        let lastv = events.last();
        assert(forall|i: int, j: int|
            0 <= i <= j < rest.len() ==> (#[trigger] rest[i]).created <= (
            #[trigger] rest[j]).created);
        lemma_filter_sorted_by_created(rest, pred);
        let c_rest = rest.filter(pred);
        if pred(lastv) {
            let c = events.filter(pred);
            assert(c == c_rest.push(lastv));
            assert forall|i: int| 0 <= i < c_rest.len() implies (#[trigger] c_rest[i]).created
                <= lastv.created by {
                rest.lemma_filter_pred(pred, i);
                c_rest.lemma_index_contains(i);
                rest.lemma_filter_contains_rev(pred, c_rest[i]);
                let k = choose|k: int| 0 <= k < rest.len() && rest[k] == c_rest[i];
                assert(rest[k].created <= events[events.len() - 1].created);
            }
        }
    }
}

/// Ghost model of one listed event summary.
pub struct EventItemModel {
    pub event_id: Seq<char>,
    pub merchant_id: Seq<char>,
    pub profile_id: Seq<char>,
    pub object_id: Seq<char>,
    pub event_type: EventType,
    pub event_class: EventClass,
    pub is_delivery_successful: Option<bool>,
    pub initial_attempt_id: Seq<char>,
    pub created: int,
}

/// The summary a listing returns for one event row.
pub open spec fn item_of(e: EventModel) -> EventItemModel {
    EventItemModel {
        event_id: e.event_id,
        merchant_id: e.merchant_id,
        profile_id: e.profile_id,
        object_id: e.object_id,
        event_type: e.event_type,
        event_class: e.event_class,
        is_delivery_successful: e.is_overall_delivery_successful,
        initial_attempt_id: e.initial_attempt_id,
        created: e.created,
    }
}

/// The response body for each item when listing events.
#[derive(Debug)]
pub struct EventListItemResponse {
    /// The identifier of the event.
    pub event_id: String,
    /// The identifier of the merchant account.
    pub merchant_id: String,
    /// The identifier of the business profile.
    pub profile_id: String,
    /// The identifier of the object (payment id, refund id, ...).
    pub object_id: String,
    /// The type of the event: the object and its status.
    pub event_type: EventType,
    /// The class of the event: the kind of object.
    pub event_class: EventClass,
    /// Whether the webhook was ultimately delivered or not.
    pub is_delivery_successful: Option<bool>,
    /// The identifier of the initial delivery attempt; equals `event_id` for
    /// the initial delivery attempt itself.
    pub initial_attempt_id: String,
    /// Time at which the event was created (integer timestamp).
    pub created: i64,
}

impl View for EventListItemResponse {
    type V = EventItemModel;

    open spec fn view(&self) -> EventItemModel {
        EventItemModel {
            event_id: self.event_id@,
            merchant_id: self.merchant_id@,
            profile_id: self.profile_id@,
            object_id: self.object_id@,
            event_type: self.event_type,
            event_class: self.event_class,
            is_delivery_successful: self.is_delivery_successful,
            initial_attempt_id: self.initial_attempt_id@,
            created: self.created as int,
        }
    }
}

/// The models of a sequence of event summaries.
pub open spec fn items_model(v: Seq<EventListItemResponse>) -> Seq<EventItemModel> {
    v.map_values(|it: EventListItemResponse| it@)
}

impl Event {
    /// The summary of this row, for listing responses.
    pub fn list_item(&self) -> (r: EventListItemResponse)
        ensures
            r@ == item_of(self@),
    {
        EventListItemResponse {
            event_id: self.event_id.clone(),
            merchant_id: self.merchant_id.clone(),
            profile_id: self.profile_id.clone(),
            object_id: self.object_id.clone(),
            event_type: self.event_type,
            event_class: self.event_class,
            is_delivery_successful: self.is_overall_delivery_successful,
            initial_attempt_id: self.initial_attempt_id.clone(),
            created: self.created,
        }
    }
}

/// The response body of a list-events call.
pub struct TotalEventsResponse {
    /// The page of event summaries.
    pub events: Vec<EventListItemResponse>,
    /// Count of all matching events, ignoring pagination.
    pub total_count: i64,
}

impl TotalEventsResponse {
    /// Bundles a page of summaries with the pre-pagination total.
    pub fn new(total_count: i64, events: Vec<EventListItemResponse>) -> (r: Self)
        ensures
            r.total_count == total_count,
            r.events == events,
    {
        Self { events, total_count }
    }

    /// The merchant the listed events belong to, when any were listed.
    pub fn get_api_event_type(&self) -> (r: Option<&String>)
        ensures
            match r {
                Option::Some(m) => self.events@.len() > 0 && m@ == self.events@[0]@.merchant_id,
                Option::None => self.events@.len() == 0,
            },
    {
        if self.events.len() > 0 {
            Option::Some(&self.events[0].merchant_id)
        } else {
            Option::None
        }
    }
}

/// The response body for retrieving one event, with its full request and
/// response content.
pub struct EventRetrieveResponse {
    /// The summary of the event.
    pub event_information: EventListItemResponse,
    /// The request content (payload and headers) sent in the webhook.
    pub request: OutgoingWebhookRequestContent,
    /// The response content received for the webhook sent.
    pub response: OutgoingWebhookResponseContent,
    /// Which kind of delivery attempt the event represents.
    pub delivery_attempt: Option<WebhookDeliveryAttempt>,
}

impl EventRetrieveResponse {
    /// The merchant the retrieved event belongs to.
    pub fn get_api_event_type(&self) -> (r: Option<&String>)
        ensures
            r matches Option::Some(m) && m@ == self.event_information@.merchant_id,
    {
        Option::Some(&self.event_information.merchant_id)
    }
}

/// The append-only event store.
pub struct EventStore {
    events: Vec<Event>,
}

impl View for EventStore {
    type V = Seq<EventModel>;

    closed spec fn view(&self) -> Seq<EventModel> {
        events_model(self.events@)
    }
}

impl EventStore {
    /// Well-formedness: the stored rows satisfy [`store_wf`] and their
    /// number stays within the store's signed 64-bit counting range.
    pub open spec fn wf(&self) -> bool {
        &&& store_wf(self@)
        &&& self@.len() <= i64::MAX as nat
    }

    /// An empty store.
    pub fn new() -> (s: EventStore)
        ensures
            s@.len() == 0,
            s.wf(),
    {
        EventStore { events: Vec::new() }
    }

    /// How many rows the store holds.
    pub fn len(&self) -> (n: usize)
        ensures
            n == self@.len(),
    {
        self.events.len()
    }

    /// Appends one event row.
    ///
    /// The row must be new (fresh `event_id`), later than every stored row,
    /// and either an initial attempt or a retry whose initial attempt is
    /// already stored.
    pub fn append(&mut self, event: Event)
        requires
            old(self).wf(),
            old(self)@.len() < i64::MAX as nat,
            forall|i: int|
                0 <= i < old(self)@.len() ==> (#[trigger] old(self)@[i]).event_id
                    != event@.event_id,
            forall|i: int|
                0 <= i < old(self)@.len() ==> (#[trigger] old(self)@[i]).created < event@.created,
            is_initial(event@) || exists|j: int|
                0 <= j < old(self)@.len() && #[trigger] chain_root_of(old(self)@[j], event@),
        ensures
            final(self)@ == old(self)@.push(event@),
            final(self).wf(),
    {
        let ghost pre = self@;
        let ghost ev = event@;
        self.events.push(event);
        proof {
            assert forall|k: int| 0 <= k < self@.len() implies self@[k] == pre.push(ev)[k] by {
                if k < pre.len() {
                    assert(self.events@[k] == old(self).events@[k]);
                }
            }
            assert(self@ =~= pre.push(ev));
            assert forall|i: int, j: int| 0 <= i < j < self@.len() implies (
            #[trigger] self@[i]).event_id != (#[trigger] self@[j]).event_id by {
                if j < pre.len() {
                    assert(pre[i].event_id != pre[j].event_id);
                }
            }
            assert forall|i: int, j: int| 0 <= i <= j < self@.len() implies (
            #[trigger] self@[i]).created <= (#[trigger] self@[j]).created by {
                if j < pre.len() {
                    assert(pre[i].created <= pre[j].created);
                }
            }
            assert forall|i: int|
                0 <= i < self@.len() && !is_initial(#[trigger] self@[i]) implies exists|j: int|
                0 <= j < i && #[trigger] chain_root_of(self@[j], self@[i]) by {
                if i < pre.len() {
                    let j = choose|j: int| 0 <= j < i && #[trigger] chain_root_of(pre[j], pre[i]);
                    assert(chain_root_of(self@[j], self@[i]));
                } else {
                    let j = choose|j: int|
                        0 <= j < pre.len() && #[trigger] chain_root_of(pre[j], ev);
                    assert(chain_root_of(self@[j], self@[i]));
                }
            }
        }
    }

    /// All attempts of the chain keyed by `initial_attempt_id`, scoped to
    /// the merchant, in store order (ascending creation time).
    pub fn chain(&self, initial_attempt_id: &String, merchant_id: &String) -> (out: Vec<Event>)
        requires
            self.wf(),
        ensures
            events_model(out@) == chain_model(self@, initial_attempt_id@, merchant_id@),
    {
        let ghost qid = initial_attempt_id@;
        let ghost m = merchant_id@;
        let mut out: Vec<Event> = Vec::new();
        let mut i: usize = 0;
        proof {
            assert(self@.take(0) =~= Seq::<EventModel>::empty());
            crate::seq_facts::lemma_filter_none(
                self@.take(0),
                |e: EventModel| in_chain(e, qid, m),
            );
            assert(events_model(out@) =~= chain_model(self@.take(0), qid, m));
        }
        while i < self.events.len()
            invariant
                self.wf(),
                i <= self.events.len(),
                self@.len() == self.events@.len(),
                qid == initial_attempt_id@,
                m == merchant_id@,
                events_model(out@) == chain_model(self@.take(i as int), qid, m),
            decreases self.events.len() - i,
        {
            let e = &self.events[i];
            let ghost out_pre = out@;
            let is_member = e.initial_attempt_id.eq(initial_attempt_id) && e.merchant_id.eq(
                merchant_id,
            );
            proof {
                assert(self@[i as int] == self.events@[i as int]@);
                assert(is_member == in_chain(self@[i as int], qid, m));
            }
            if is_member {
                out.push(e.clone());
            }
            proof {
                crate::seq_facts::lemma_filter_take_step(
                    self@,
                    |e: EventModel| in_chain(e, qid, m),
                    i as int,
                );
                assert forall|j: int| 0 <= j < out@.len() implies events_model(out@)[j]
                    == chain_model(self@.take(i + 1), qid, m)[j] by {
                    if j < out_pre.len() {
                        assert(out@[j] == out_pre[j]);
                        assert(events_model(out_pre)[j] == chain_model(
                            self@.take(i as int),
                            qid,
                            m,
                        )[j]);
                    }
                }
                assert(events_model(out@).len() == chain_model(self@.take(i + 1), qid, m).len());
                assert(events_model(out@) =~= chain_model(self@.take(i + 1), qid, m));
            }
            i += 1;
        }
        proof {
            assert(self@.take(self@.len() as int) =~= self@);
        }
        out
    }

    /// The summaries of all attempts of the chain keyed by
    /// `initial_attempt_id`, scoped to the merchant, in ascending creation
    /// order.
    pub fn list_attempts(&self, merchant_id: &String, initial_attempt_id: &String) -> (out: Vec<
        EventListItemResponse,
    >)
        requires
            self.wf(),
        ensures
            ({
                let c = chain_model(self@, initial_attempt_id@, merchant_id@);
                &&& out@.len() == c.len()
                &&& (forall|k: int| 0 <= k < c.len() ==> items_model(out@)[k] == item_of(c[k]))
            }),
    {
        let ghost c = chain_model(self@, initial_attempt_id@, merchant_id@);
        let rows = self.chain(initial_attempt_id, merchant_id);
        let mut out: Vec<EventListItemResponse> = Vec::new();
        let mut k: usize = 0;
        while k < rows.len()
            invariant
                k <= rows.len(),
                events_model(rows@) == c,
                out@.len() == k,
                forall|j: int| 0 <= j < k ==> items_model(out@)[j] == item_of(c[j]),
            decreases rows.len() - k,
        {
            let it = rows[k].list_item();
            let ghost out_pre = out@;
            out.push(it);
            proof {
                assert(rows@[k as int]@ == c[k as int]);
                assert forall|j: int| 0 <= j < out@.len() implies items_model(out@)[j] == item_of(
                    c[j],
                ) by {
                    if j < out_pre.len() {
                        assert(out@[j] == out_pre[j]);
                        assert(items_model(out_pre)[j] == item_of(c[j]));
                    }
                }
            }
            k += 1;
        }
        out
    }
}

/// The ghost value of an optional profile scope.
pub open spec fn profile_view(p: Option<&String>) -> Option<Seq<char>> {
    match p {
        Option::Some(s) => Option::Some(s@),
        Option::None => Option::None,
    }
}

/// Whether a row matches a generic listing: merchant scope, optional profile
/// scope, and every supplied range or membership predicate, AND-combined.
/// The filter's `limit` and `offset` paginate and do not select.
pub open spec fn matches_generic(
    e: EventModel,
    merchant_id: Seq<char>,
    profile_id: Option<Seq<char>>,
    g: GenericFilterModel,
) -> bool {
    &&& e.merchant_id == merchant_id
    &&& (match profile_id {
        Option::Some(p) => e.profile_id == p,
        Option::None => true,
    })
    &&& (match g.created_after {
        Option::Some(t) => e.created >= t,
        Option::None => true,
    })
    &&& (match g.created_before {
        Option::Some(t) => e.created <= t,
        Option::None => true,
    })
    &&& (match g.event_classes {
        Option::Some(cs) => cs.contains(e.event_class),
        Option::None => true,
    })
    &&& (match g.event_types {
        Option::Some(ts) => ts.contains(e.event_type),
        Option::None => true,
    })
    &&& (match g.is_delivered {
        Option::Some(d) => e.is_overall_delivery_successful == Option::Some(d),
        Option::None => true,
    })
}

/// Whether a row matches an object-id lookup: merchant scope, optional
/// profile scope, and the object identifier.
pub open spec fn matches_object(
    e: EventModel,
    merchant_id: Seq<char>,
    profile_id: Option<Seq<char>>,
    object_id: Seq<char>,
) -> bool {
    &&& e.merchant_id == merchant_id
    &&& (match profile_id {
        Option::Some(p) => e.profile_id == p,
        Option::None => true,
    })
    &&& e.object_id == object_id
}

/// The rows a generic listing matches, in store order, before pagination.
pub open spec fn generic_matches(
    events: Seq<EventModel>,
    merchant_id: Seq<char>,
    profile_id: Option<Seq<char>>,
    g: GenericFilterModel,
) -> Seq<EventModel> {
    events.filter(|e: EventModel| matches_generic(e, merchant_id, profile_id, g))
}

/// The rows an object-id lookup matches, in store order.
pub open spec fn object_matches(
    events: Seq<EventModel>,
    merchant_id: Seq<char>,
    profile_id: Option<Seq<char>>,
    object_id: Seq<char>,
) -> Seq<EventModel> {
    events.filter(|e: EventModel| matches_object(e, merchant_id, profile_id, object_id))
}

/// The offset a generic listing applies: the supplied one, or zero.
pub open spec fn spec_effective_offset(g: GenericFilterModel) -> int {
    match g.offset {
        Option::Some(o) => o,
        Option::None => 0,
    }
}

/// The limit a generic listing applies: the supplied one, or the store's
/// default page size.
pub open spec fn spec_effective_limit(g: GenericFilterModel) -> int {
    match g.limit {
        Option::Some(l) => l,
        Option::None => DEFAULT_LIST_LIMIT as int,
    }
}

/// The number of rows a generic listing returns: what is left after the
/// offset, capped by the limit.
pub open spec fn spec_page_len(total: int, off: int, lim: int) -> int {
    if off >= total {
        0
    } else if total - off < lim {
        total - off
    } else {
        lim
    }
}

/// Whether a class set holds the given class.
fn contains_class(v: &Vec<EventClass>, c: EventClass) -> (r: bool)
    ensures
        r == v@.contains(c),
{
    let mut i: usize = 0;
    while i < v.len()
        invariant
            i <= v.len(),
            forall|j: int| 0 <= j < i ==> v@[j] != c,
        decreases v.len() - i,
    {
        if v[i] == c {
            return true;
        }
        i += 1;
    }
    false
}

/// Whether a type set holds the given type.
fn contains_type(v: &Vec<EventType>, t: EventType) -> (r: bool)
    ensures
        r == v@.contains(t),
{
    let mut i: usize = 0;
    while i < v.len()
        invariant
            i <= v.len(),
            forall|j: int| 0 <= j < i ==> v@[j] != t,
        decreases v.len() - i,
    {
        if v[i] == t {
            return true;
        }
        i += 1;
    }
    false
}

/// Evaluates every selecting predicate of a generic listing on one row.
fn event_matches_generic(
    e: &Event,
    merchant_id: &String,
    profile_id: Option<&String>,
    created_after: &Option<i64>,
    created_before: &Option<i64>,
    event_classes: &Option<Vec<EventClass>>,
    event_types: &Option<Vec<EventType>>,
    is_delivered: &Option<bool>,
) -> (r: bool)
    ensures
        r == matches_generic(
            e@,
            merchant_id@,
            profile_view(profile_id),
            (GenericFilterModel {
                created_after: crate::constraints::opt_int_view(*created_after),
                created_before: crate::constraints::opt_int_view(*created_before),
                limit: Option::None,
                offset: Option::None,
                event_classes: crate::constraints::opt_classes_view(*event_classes),
                event_types: crate::constraints::opt_types_view(*event_types),
                is_delivered: *is_delivered,
            }),
        ),
{
    let mut ok = e.merchant_id.eq(merchant_id);
    match profile_id {
        Option::Some(p) => {
            ok = ok && e.profile_id.eq(p);
        },
        Option::None => {},
    }
    match created_after {
        Option::Some(t) => {
            ok = ok && e.created >= *t;
        },
        Option::None => {},
    }
    match created_before {
        Option::Some(t) => {
            ok = ok && e.created <= *t;
        },
        Option::None => {},
    }
    match event_classes {
        Option::Some(cs) => {
            ok = ok && contains_class(cs, e.event_class);
        },
        Option::None => {},
    }
    match event_types {
        Option::Some(ts) => {
            ok = ok && contains_type(ts, e.event_type);
        },
        Option::None => {},
    }
    match is_delivered {
        Option::Some(d) => {
            ok = ok && (match e.is_overall_delivery_successful {
                Option::Some(x) => x == *d,
                Option::None => false,
            });
        },
        Option::None => {},
    }
    ok
}

impl EventStore {
    /// The row at one index.
    pub(crate) fn get(&self, i: usize) -> (e: &Event)
        requires
            i < self@.len(),
        ensures
            e@ == self@[i as int],
    {
        proof {
            assert(self@[i as int] == self.events@[i as int]@);
        }
        &self.events[i]
    }

    /// Replaces the row at one index.
    pub(crate) fn set_row(&mut self, i: usize, e: Event)
        requires
            i < old(self)@.len(),
        ensures
            final(self)@ == old(self)@.update(i as int, e@),
    {
        let ghost gev = e@;
        let ghost pre = self@;
        self.events[i] = e;
        proof {
            assert forall|k: int| 0 <= k < self@.len() implies self@[k] == pre.update(
                i as int,
                gev,
            )[k] by {
                if k != i {
                    assert(self.events@[k] == old(self).events@[k]);
                }
            }
            assert(self@ =~= pre.update(i as int, gev));
        }
    }

    /// The latest creation time among the stored rows — the last row's, as
    /// the store is ordered — if any: new rows must be created strictly
    /// later.
    pub fn latest_created(&self) -> (r: Option<i64>)
        requires
            self.wf(),
        ensures
            match r {
                Option::Some(c) => {
                    &&& self@.len() > 0
                    &&& c as int == self@[self@.len() - 1].created
                    &&& forall|i: int|
                        0 <= i < self@.len() ==> (#[trigger] self@[i]).created <= c as int
                },
                Option::None => self@.len() == 0,
            },
    {
        if self.events.len() == 0 {
            Option::None
        } else {
            let e = self.get(self.events.len() - 1);
            proof {
                assert(self@.len() == self.events@.len());
                assert forall|i: int| 0 <= i < self@.len() implies (#[trigger] self@[i]).created
                    <= self@[self@.len() - 1].created by {}
            }
            Option::Some(e.created)
        }
    }

    /// Whether any stored row carries this `event_id`, under any merchant:
    /// identifiers of new rows must be fresh.
    pub fn has_event_id(&self, event_id: &String) -> (r: bool)
        requires
            self.wf(),
        ensures
            r == exists|i: int|
                0 <= i < self@.len() && (#[trigger] self@[i]).event_id == event_id@,
    {
        let mut i: usize = 0;
        while i < self.events.len()
            invariant
                self.wf(),
                i <= self.events.len(),
                self@.len() == self.events@.len(),
                forall|j: int| 0 <= j < i ==> (#[trigger] self@[j]).event_id != event_id@,
            decreases self.events.len() - i,
        {
            let e = &self.events[i];
            if e.event_id.eq(event_id) {
                proof {
                    assert(self@[i as int] == self.events@[i as int]@);
                }
                return true;
            }
            proof {
                assert(self@[i as int] == self.events@[i as int]@);
            }
            i += 1;
        }
        false
    }

    /// The index of the row with this `event_id` under this merchant.
    pub(crate) fn find_index(&self, merchant_id: &String, event_id: &String) -> (r: Option<usize>)
        requires
            self.wf(),
        ensures
            match r {
                Option::Some(i) => {
                    &&& i < self@.len()
                    &&& self@[i as int].event_id == event_id@
                    &&& self@[i as int].merchant_id == merchant_id@
                    &&& i as int == idx_of(self@, merchant_id@, event_id@)
                    &&& located(self@, merchant_id@, event_id@)
                },
                Option::None => !located(self@, merchant_id@, event_id@),
            },
    {
        let mut i: usize = 0;
        while i < self.events.len()
            invariant
                self.wf(),
                i <= self.events.len(),
                self@.len() == self.events@.len(),
                forall|j: int|
                    0 <= j < i ==> !((#[trigger] self@[j]).event_id == event_id@
                        && self@[j].merchant_id == merchant_id@),
            decreases self.events.len() - i,
        {
            let e = &self.events[i];
            if e.event_id.eq(event_id) && e.merchant_id.eq(merchant_id) {
                proof {
                    assert(self@[i as int] == self.events@[i as int]@);
                    assert(located(self@, merchant_id@, event_id@));
                    let j = idx_of(self@, merchant_id@, event_id@);
                    if j < i as int {
                        assert(self@[j].event_id != self@[i as int].event_id);
                        assert(false);
                    }
                    if j > i as int {
                        assert(self@[i as int].event_id != self@[j].event_id);
                        assert(false);
                    }
                }
                return Option::Some(i);
            }
            proof {
                assert(self@[i as int] == self.events@[i as int]@);
            }
            i += 1;
        }
        Option::None
    }

    /// Retrieves one event with its full request and response content.
    ///
    /// Fails with `NotFound` when no row with this `event_id` exists under
    /// this merchant: absence and foreign ownership are indistinguishable.
    pub fn retrieve(&self, merchant_id: &String, event_id: &String) -> (r: Result<
        EventRetrieveResponse,
        WebhookEventsError,
    >)
        requires
            self.wf(),
        ensures
            r is Ok <==> located(self@, merchant_id@, event_id@),
            r matches Result::Err(e) ==> e == WebhookEventsError::NotFound,
            r matches Result::Ok(resp) ==> ({
                let ev = self@[idx_of(self@, merchant_id@, event_id@)];
                &&& resp.event_information@ == item_of(ev)
                &&& resp.request@ == ev.request
                &&& resp.response@ == ev.response
                &&& resp.delivery_attempt == ev.delivery_attempt
            }),
    {
        match self.find_index(merchant_id, event_id) {
            Option::Some(i) => {
                let e = &self.events[i];
                proof {
                    assert(self@[i as int] == self.events@[i as int]@);
                }
                Result::Ok(
                    EventRetrieveResponse {
                        event_information: e.list_item(),
                        request: e.request.clone(),
                        response: e.response.clone(),
                        delivery_attempt: e.delivery_attempt,
                    },
                )
            },
            Option::None => Result::Err(WebhookEventsError::NotFound),
        }
    }

    /// Lists events under a merchant scope with a resolved strategy.
    ///
    /// A generic filter AND-combines its predicates, orders newest-first,
    /// and applies the offset, then the limit; its total count ignores
    /// pagination. An object-id lookup returns every matching row in
    /// chronological order, unpaginated, and its total equals the number of
    /// rows returned. Every returned row belongs to the requesting merchant.
    pub fn list(
        &self,
        merchant_id: &String,
        profile_id: Option<&String>,
        filter: &EventListConstraintsInternal,
    ) -> (r: TotalEventsResponse)
        requires
            self.wf(),
            filter@ matches FilterModel::Generic(g) ==> ((g.limit matches Option::Some(l) ==> l
                >= 0) && (g.offset matches Option::Some(o) ==> o >= 0)),
        ensures
            filter@ matches FilterModel::Generic(g) ==> ({
                let ms = generic_matches(self@, merchant_id@, profile_view(profile_id), g);
                let off = spec_effective_offset(g);
                let n = spec_page_len(ms.len() as int, off, spec_effective_limit(g));
                &&& r.total_count as int == ms.len()
                &&& r.events@.len() == n
                &&& (forall|k: int|
                    0 <= k < n ==> items_model(r.events@)[k] == item_of(
                        ms[ms.len() - 1 - off - k],
                    ))
            }),
            filter@ matches FilterModel::ObjectId(oid) ==> ({
                let ms = object_matches(self@, merchant_id@, profile_view(profile_id), oid);
                &&& r.total_count as int == ms.len()
                &&& r.events@.len() == ms.len()
                &&& (forall|k: int| 0 <= k < ms.len() ==> items_model(r.events@)[k] == item_of(ms[k]))
            }),
            forall|k: int|
                0 <= k < r.events@.len() ==> (#[trigger] items_model(r.events@)[k]).merchant_id
                    == merchant_id@,
    {
        match filter {
            EventListConstraintsInternal::GenericFilter {
                created_after,
                created_before,
                limit,
                offset,
                event_classes,
                event_types,
                is_delivered,
            } => {
                let ghost g = filter@->Generic_0;
                let ghost pid = profile_view(profile_id);
                let ghost ms = generic_matches(self@, merchant_id@, pid, g);
                let mut matched: Vec<Event> = Vec::new();
                let mut i: usize = 0;
                proof {
                    assert(self@.take(0) =~= Seq::<EventModel>::empty());
                    crate::seq_facts::lemma_filter_none(
                        self@.take(0),
                        |e: EventModel| matches_generic(e, merchant_id@, pid, g),
                    );
                    assert(events_model(matched@) =~= generic_matches(
                        self@.take(0),
                        merchant_id@,
                        pid,
                        g,
                    ));
                }
                while i < self.events.len()
                    invariant
                        self.wf(),
                        i <= self.events.len(),
                        self@.len() == self.events@.len(),
                        pid == profile_view(profile_id),
                        g.created_after == crate::constraints::opt_int_view(*created_after),
                        g.created_before == crate::constraints::opt_int_view(*created_before),
                        g.event_classes == crate::constraints::opt_classes_view(*event_classes),
                        g.event_types == crate::constraints::opt_types_view(*event_types),
                        g.is_delivered == *is_delivered,
                        events_model(matched@) == generic_matches(
                            self@.take(i as int),
                            merchant_id@,
                            pid,
                            g,
                        ),
                    decreases self.events.len() - i,
                {
                    let e = &self.events[i];
                    let ghost matched_pre = matched@;
                    let ok = event_matches_generic(
                        e,
                        merchant_id,
                        profile_id,
                        created_after,
                        created_before,
                        event_classes,
                        event_types,
                        is_delivered,
                    );
                    proof {
                        assert(self@[i as int] == self.events@[i as int]@);
                        assert(ok == matches_generic(self@[i as int], merchant_id@, pid, g));
                    }
                    if ok {
                        matched.push(e.clone());
                    }
                    proof {
                        crate::seq_facts::lemma_filter_take_step(
                            self@,
                            |e: EventModel| matches_generic(e, merchant_id@, pid, g),
                            i as int,
                        );
                        assert forall|j: int| 0 <= j < matched@.len() implies events_model(
                            matched@,
                        )[j] == generic_matches(self@.take(i + 1), merchant_id@, pid, g)[j] by {
                            if j < matched_pre.len() {
                                assert(matched@[j] == matched_pre[j]);
                                assert(events_model(matched_pre)[j] == generic_matches(
                                    self@.take(i as int),
                                    merchant_id@,
                                    pid,
                                    g,
                                )[j]);
                            }
                        }
                        assert(events_model(matched@).len() == generic_matches(
                            self@.take(i + 1),
                            merchant_id@,
                            pid,
                            g,
                        ).len());
                        assert(events_model(matched@) =~= generic_matches(
                            self@.take(i + 1),
                            merchant_id@,
                            pid,
                            g,
                        ));
                    }
                    i += 1;
                }
                proof {
                    assert(self@.take(self@.len() as int) =~= self@);
                    assert(events_model(matched@) == ms);
                    self@.lemma_filter_len(
                        |e: EventModel| matches_generic(e, merchant_id@, pid, g),
                    );
                    assert(ms.len() <= self@.len());
                }
                let total_usize = matched.len();
                let total: i64 = total_usize as i64;
                let off: i64 = match offset {
                    Option::Some(o) => *o,
                    Option::None => 0,
                };
                let lim: i64 = match limit {
                    Option::Some(l) => *l,
                    Option::None => DEFAULT_LIST_LIMIT,
                };
                proof {
                    assert(off == spec_effective_offset(g));
                    assert(lim == spec_effective_limit(g));
                }
                let off_usize: usize = if off >= total {
                    total_usize
                } else {
                    off as usize
                };
                let avail_usize: usize = total_usize - off_usize;
                let lim_usize: usize = if lim > total {
                    total_usize
                } else {
                    lim as usize
                };
                let n_usize: usize = if lim_usize < avail_usize {
                    lim_usize
                } else {
                    avail_usize
                };
                proof {
                    assert(n_usize as int == spec_page_len(
                        ms.len() as int,
                        spec_effective_offset(g),
                        spec_effective_limit(g),
                    ));
                }
                let mut items: Vec<EventListItemResponse> = Vec::new();
                let mut k: usize = 0;
                while k < n_usize
                    invariant
                        k <= n_usize,
                        matched@.len() == total_usize,
                        events_model(matched@) == ms,
                        n_usize + off_usize <= total_usize || n_usize == 0,
                        n_usize == 0 || off_usize as int == spec_effective_offset(g),
                        items@.len() == k,
                        forall|j: int|
                            0 <= j < k ==> items_model(items@)[j] == item_of(
                                ms[ms.len() - 1 - off_usize - j],
                            ),
                    decreases n_usize - k,
                {
                    let idx: usize = total_usize - 1 - off_usize - k;
                    let it = matched[idx].list_item();
                    let ghost items_pre = items@;
                    items.push(it);
                    proof {
                        assert(matched@[idx as int]@ == ms[idx as int]);
                        assert forall|j: int| 0 <= j < items@.len() implies items_model(items@)[j]
                            == item_of(ms[ms.len() - 1 - off_usize - j]) by {
                            if j < items_pre.len() {
                                assert(items@[j] == items_pre[j]);
                                assert(items_model(items_pre)[j] == item_of(
                                    ms[ms.len() - 1 - off_usize - j],
                                ));
                            }
                        }
                    }
                    k += 1;
                }
                proof {
                    assert forall|k2: int|
                        0 <= k2 < items@.len() implies (#[trigger] items_model(
                        items@,
                    )[k2]).merchant_id == merchant_id@ by {
                        let idx_ms = ms.len() - 1 - off_usize - k2;
                        self@.lemma_filter_pred(
                            |e: EventModel| matches_generic(e, merchant_id@, pid, g),
                            idx_ms,
                        );
                    }
                }
                TotalEventsResponse { events: items, total_count: total }
            },
            EventListConstraintsInternal::ObjectIdFilter { object_id } => {
                let ghost oid = object_id@;
                let ghost pid = profile_view(profile_id);
                let ghost ms = object_matches(self@, merchant_id@, pid, oid);
                let mut matched: Vec<Event> = Vec::new();
                let mut i: usize = 0;
                proof {
                    assert(self@.take(0) =~= Seq::<EventModel>::empty());
                    crate::seq_facts::lemma_filter_none(
                        self@.take(0),
                        |e: EventModel| matches_object(e, merchant_id@, pid, oid),
                    );
                    assert(events_model(matched@) =~= object_matches(
                        self@.take(0),
                        merchant_id@,
                        pid,
                        oid,
                    ));
                }
                while i < self.events.len()
                    invariant
                        self.wf(),
                        i <= self.events.len(),
                        self@.len() == self.events@.len(),
                        pid == profile_view(profile_id),
                        oid == object_id@,
                        events_model(matched@) == object_matches(
                            self@.take(i as int),
                            merchant_id@,
                            pid,
                            oid,
                        ),
                    decreases self.events.len() - i,
                {
                    let e = &self.events[i];
                    let ghost matched_pre = matched@;
                    let mut ok = e.merchant_id.eq(merchant_id) && e.object_id.eq(object_id);
                    match profile_id {
                        Option::Some(p) => {
                            ok = ok && e.profile_id.eq(p);
                        },
                        Option::None => {},
                    }
                    proof {
                        assert(self@[i as int] == self.events@[i as int]@);
                        assert(ok == matches_object(self@[i as int], merchant_id@, pid, oid));
                    }
                    if ok {
                        matched.push(e.clone());
                    }
                    proof {
                        crate::seq_facts::lemma_filter_take_step(
                            self@,
                            |e: EventModel| matches_object(e, merchant_id@, pid, oid),
                            i as int,
                        );
                        assert forall|j: int| 0 <= j < matched@.len() implies events_model(
                            matched@,
                        )[j] == object_matches(self@.take(i + 1), merchant_id@, pid, oid)[j] by {
                            if j < matched_pre.len() {
                                assert(matched@[j] == matched_pre[j]);
                                assert(events_model(matched_pre)[j] == object_matches(
                                    self@.take(i as int),
                                    merchant_id@,
                                    pid,
                                    oid,
                                )[j]);
                            }
                        }
                        assert(events_model(matched@).len() == object_matches(
                            self@.take(i + 1),
                            merchant_id@,
                            pid,
                            oid,
                        ).len());
                        assert(events_model(matched@) =~= object_matches(
                            self@.take(i + 1),
                            merchant_id@,
                            pid,
                            oid,
                        ));
                    }
                    i += 1;
                }
                proof {
                    assert(self@.take(self@.len() as int) =~= self@);
                    assert(events_model(matched@) == ms);
                    self@.lemma_filter_len(
                        |e: EventModel| matches_object(e, merchant_id@, pid, oid),
                    );
                    assert(ms.len() <= self@.len());
                }
                let total: i64 = matched.len() as i64;
                let mut items: Vec<EventListItemResponse> = Vec::new();
                let mut k: usize = 0;
                while k < matched.len()
                    invariant
                        k <= matched.len(),
                        events_model(matched@) == ms,
                        items@.len() == k,
                        forall|j: int| 0 <= j < k ==> items_model(items@)[j] == item_of(ms[j]),
                    decreases matched.len() - k,
                {
                    let it = matched[k].list_item();
                    let ghost items_pre = items@;
                    items.push(it);
                    proof {
                        assert(matched@[k as int]@ == ms[k as int]);
                        assert forall|j: int| 0 <= j < items@.len() implies items_model(items@)[j]
                            == item_of(ms[j]) by {
                            if j < items_pre.len() {
                                assert(items@[j] == items_pre[j]);
                                assert(items_model(items_pre)[j] == item_of(ms[j]));
                            }
                        }
                    }
                    k += 1;
                }
                proof {
                    assert forall|k2: int|
                        0 <= k2 < items@.len() implies (#[trigger] items_model(
                        items@,
                    )[k2]).merchant_id == merchant_id@ by {
                        self@.lemma_filter_pred(
                            |e: EventModel| matches_object(e, merchant_id@, pid, oid),
                            k2,
                        );
                    }
                }
                TotalEventsResponse { events: items, total_count: total }
            },
        }
    }
}

} // verus!
