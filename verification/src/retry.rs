//! The retry coordinator: validates that a manual retry is permissible for
//! an event, records the scheduled attempt, and records its outcome, without
//! ever mutating prior attempts.
//!
//! A retry is validated against the chain's terminal (most recent) attempt:
//! `Pending` (a retry is already in flight) and `Delivered` (the event
//! already went out) are rejected with `InvalidState`; only a `Failed`
//! terminal attempt may be retried. The appended attempt replays the request
//! content of the chain's *initial* attempt, never that of a later retry.
//! Transport failures are not coordinator errors: they are recorded as a
//! `Failed` attempt and returned as the new row.

use vstd::prelude::*;

use crate::store::{
    chain_model, chain_root_of, idx_of, in_chain, is_initial, item_of, located, store_wf, Event,
    EventListItemResponse, EventModel, EventStore,
};
use crate::types::{
    attempt_status, spec_attempt_status, spec_is_completed, DeliveryStatus,
    OutgoingWebhookResponseContent, ResponseModel, WebhookDeliveryAttempt, WebhookEventsError,
};

verus! {

/// The chain key (`initial_attempt_id`) of the row that `event_id` names
/// under `merchant_id`.
pub open spec fn chain_key_of(
    events: Seq<EventModel>,
    merchant_id: Seq<char>,
    event_id: Seq<char>,
) -> Seq<char> {
    events[idx_of(events, merchant_id, event_id)].initial_attempt_id
}

/// The terminal (most recent) attempt of the chain keyed by
/// `initial_attempt_id`.
pub open spec fn terminal_of(
    events: Seq<EventModel>,
    initial_attempt_id: Seq<char>,
    merchant_id: Seq<char>,
) -> EventModel {
    chain_model(events, initial_attempt_id, merchant_id).last()
}

/// The delivery status of the chain's terminal attempt, which determines
/// whether a retry is permissible.
pub open spec fn terminal_status(
    events: Seq<EventModel>,
    initial_attempt_id: Seq<char>,
    merchant_id: Seq<char>,
) -> DeliveryStatus {
    spec_attempt_status(terminal_of(events, initial_attempt_id, merchant_id).response)
}

/// Whether a retry of the row `event_id` names is permissible: the row
/// exists under the merchant and its chain's terminal attempt failed.
pub open spec fn retry_allowed(
    events: Seq<EventModel>,
    merchant_id: Seq<char>,
    event_id: Seq<char>,
) -> bool {
    &&& located(events, merchant_id, event_id)
    &&& terminal_status(events, chain_key_of(events, merchant_id, event_id), merchant_id)
        == DeliveryStatus::Failed
}

/// The row a manual retry appends: a fresh identifier, the chain's key, the
/// initial attempt's request content replayed, and no outcome yet.
pub open spec fn manual_retry_event(
    root: EventModel,
    new_event_id: Seq<char>,
    created: int,
) -> EventModel {
    EventModel {
        event_id: new_event_id,
        merchant_id: root.merchant_id,
        profile_id: root.profile_id,
        object_id: root.object_id,
        event_type: root.event_type,
        event_class: root.event_class,
        is_overall_delivery_successful: Option::None,
        initial_attempt_id: root.event_id,
        created: created,
        delivery_attempt: Option::Some(WebhookDeliveryAttempt::ManualRetry),
        request: root.request,
        response: ResponseModel {
            body: Option::None,
            headers: Option::None,
            status_code: Option::None,
            error_message: Option::None,
        },
    }
}

/// A row after its outcome is recorded: the response fields are filled in,
/// once, and the overall delivery flag follows the outcome's status.
pub open spec fn completed_event(e: EventModel, outcome: ResponseModel) -> EventModel {
    EventModel {
        event_id: e.event_id,
        merchant_id: e.merchant_id,
        profile_id: e.profile_id,
        object_id: e.object_id,
        event_type: e.event_type,
        event_class: e.event_class,
        is_overall_delivery_successful: Option::Some(
            spec_attempt_status(outcome) == DeliveryStatus::Delivered,
        ),
        initial_attempt_id: e.initial_attempt_id,
        created: e.created,
        delivery_attempt: e.delivery_attempt,
        request: e.request,
        response: outcome,
    }
}

/// Replacing one row by a row that differs only in its recorded outcome
/// keeps the store well-formed.
proof fn lemma_wf_update_outcome(s: Seq<EventModel>, i: int, ev: EventModel)
    requires
        store_wf(s),
        0 <= i < s.len(),
        ev.event_id == s[i].event_id,
        ev.merchant_id == s[i].merchant_id,
        ev.profile_id == s[i].profile_id,
        ev.object_id == s[i].object_id,
        ev.initial_attempt_id == s[i].initial_attempt_id,
        ev.created == s[i].created,
    ensures
        store_wf(s.update(i, ev)),
{
    let s2 = s.update(i, ev);
    assert forall|a: int, b: int| 0 <= a < b < s2.len() implies (#[trigger] s2[a]).event_id != (
    #[trigger] s2[b]).event_id by {
        assert(s[a].event_id != s[b].event_id);
    }
    assert forall|a: int, b: int| 0 <= a <= b < s2.len() implies (#[trigger] s2[a]).created <= (
    #[trigger] s2[b]).created by {
        assert(s[a].created <= s[b].created);
    }
    assert forall|a: int|
        0 <= a < s2.len() && !is_initial(#[trigger] s2[a]) implies exists|j: int|
        0 <= j < a && #[trigger] chain_root_of(s2[j], s2[a]) by {
        assert(!is_initial(s[a]));
        let j = choose|j: int| 0 <= j < a && #[trigger] chain_root_of(s[j], s[a]);
        assert(chain_root_of(s2[j], s2[a]));
    }
}

impl EventStore {
    /// Validates a manual retry of the event `event_id` names and records
    /// the scheduled attempt.
    ///
    /// Fails with `NotFound` when no row with this `event_id` exists under
    /// this merchant (absence and foreign ownership are indistinguishable),
    /// and with `InvalidState` when the chain's terminal attempt is still
    /// pending or already delivered. Neither error changes the store. On
    /// success, exactly one new row is appended: it shares the chain's
    /// `initial_attempt_id`, carries a later timestamp and the *initial*
    /// attempt's request content, and is pending until
    /// [`EventStore::complete_retry`] records the transport's outcome.
    pub fn begin_retry(
        &mut self,
        merchant_id: &String,
        event_id: &String,
        new_event_id: String,
        created: i64,
    ) -> (r: Result<EventListItemResponse, WebhookEventsError>)
        requires
            old(self).wf(),
            old(self)@.len() < i64::MAX as nat,
            forall|i: int|
                0 <= i < old(self)@.len() ==> (#[trigger] old(self)@[i]).event_id
                    != new_event_id@,
            forall|i: int|
                0 <= i < old(self)@.len() ==> (#[trigger] old(self)@[i]).created < created as int,
        ensures
            final(self).wf(),
            r is Err ==> final(self)@ == old(self)@,
            r matches Result::Err(WebhookEventsError::NotFound) <==> !located(
                old(self)@,
                merchant_id@,
                event_id@,
            ),
            r matches Result::Err(WebhookEventsError::InvalidState) <==> (located(
                old(self)@,
                merchant_id@,
                event_id@,
            ) && terminal_status(
                old(self)@,
                chain_key_of(old(self)@, merchant_id@, event_id@),
                merchant_id@,
            ) != DeliveryStatus::Failed),
            r is Ok <==> retry_allowed(old(self)@, merchant_id@, event_id@),
            r matches Result::Ok(item) ==> ({
                let qid = chain_key_of(old(self)@, merchant_id@, event_id@);
                let root = chain_model(old(self)@, qid, merchant_id@)[0];
                let ev = manual_retry_event(root, new_event_id@, created as int);
                &&& final(self)@ == old(self)@.push(ev)
                &&& item@ == item_of(ev)
                &&& ev.initial_attempt_id == qid
                &&& ev.request == root.request
                &&& spec_attempt_status(ev.response) == DeliveryStatus::Pending
            }),
    {
        let fi = match self.find_index(merchant_id, event_id) {
            Option::Some(fi) => fi,
            Option::None => {
                return Result::Err(WebhookEventsError::NotFound);
            },
        };
        let ghost m = merchant_id@;
        let ghost qid = self@[fi as int].initial_attempt_id;
        let qid_string = self.get(fi).initial_attempt_id.clone();
        proof {
            assert(qid_string@ == qid);
            assert(qid == chain_key_of(self@, m, event_id@));
            self@.lemma_filter_contains(|e: EventModel| in_chain(e, qid, m), fi as int);
            assert(chain_model(self@, qid, m).contains(self@[fi as int]));
            assert(chain_model(self@, qid, m).len() > 0);
        }
        let ch = self.chain(&qid_string, merchant_id);
        proof {
            assert(ch@.len() == chain_model(self@, qid, m).len());
        }
        let terminal = &ch[ch.len() - 1];
        let status = attempt_status(&terminal.response);
        proof {
            assert(terminal@ == chain_model(self@, qid, m).last());
            assert(status == terminal_status(self@, qid, m));
        }
        match status {
            DeliveryStatus::Failed => {},
            _ => {
                return Result::Err(WebhookEventsError::InvalidState);
            },
        }
        let root = &ch[0];
        proof {
            crate::store::lemma_chain_first_is_initial(self@, qid, m);
            assert(root@ == chain_model(self@, qid, m)[0]);
        }
        let ghost gnid = new_event_id@;
        let new_event = Event {
            event_id: new_event_id,
            merchant_id: root.merchant_id.clone(),
            profile_id: root.profile_id.clone(),
            object_id: root.object_id.clone(),
            event_type: root.event_type,
            event_class: root.event_class,
            is_overall_delivery_successful: Option::None,
            initial_attempt_id: root.event_id.clone(),
            created,
            delivery_attempt: Option::Some(WebhookDeliveryAttempt::ManualRetry),
            request: root.request.clone(),
            response: OutgoingWebhookResponseContent::pending(),
        };
        let item = new_event.list_item();
        let ghost gev = new_event@;
        proof {
            assert(gev == manual_retry_event(chain_model(self@, qid, m)[0], gnid, created as int));
            let s = self@;
            let c = chain_model(s, qid, m);
            c.lemma_index_contains(0);
            s.lemma_filter_contains_rev(|e: EventModel| in_chain(e, qid, m), c[0]);
            let k = choose|k: int| 0 <= k < s.len() && s[k] == c[0];
            assert(chain_root_of(s[k], gev));
        }
        self.append(new_event);
        Result::Ok(item)
    }

    /// Records the transport's outcome on the pending attempt `event_id`
    /// names: its response fields are filled in, exactly once, and its
    /// overall delivery flag follows the outcome. No other row changes.
    ///
    /// Fails with `NotFound` when no such row exists under this merchant,
    /// and with `InvalidState` when the row is not pending (its outcome was
    /// already recorded). Neither error changes the store.
    pub fn complete_retry(
        &mut self,
        merchant_id: &String,
        event_id: &String,
        outcome: OutgoingWebhookResponseContent,
    ) -> (r: Result<EventListItemResponse, WebhookEventsError>)
        requires
            old(self).wf(),
            spec_is_completed(outcome@),
        ensures
            final(self).wf(),
            r is Err ==> final(self)@ == old(self)@,
            r matches Result::Err(WebhookEventsError::NotFound) <==> !located(
                old(self)@,
                merchant_id@,
                event_id@,
            ),
            r matches Result::Err(WebhookEventsError::InvalidState) <==> (located(
                old(self)@,
                merchant_id@,
                event_id@,
            ) && spec_attempt_status(
                old(self)@[idx_of(old(self)@, merchant_id@, event_id@)].response,
            ) != DeliveryStatus::Pending),
            r is Ok <==> (located(old(self)@, merchant_id@, event_id@) && spec_attempt_status(
                old(self)@[idx_of(old(self)@, merchant_id@, event_id@)].response,
            ) == DeliveryStatus::Pending),
            r matches Result::Ok(item) ==> ({
                let i = idx_of(old(self)@, merchant_id@, event_id@);
                let ev = completed_event(old(self)@[i], outcome@);
                &&& final(self)@ == old(self)@.update(i, ev)
                &&& item@ == item_of(ev)
            }),
    {
        let fi = match self.find_index(merchant_id, event_id) {
            Option::Some(fi) => fi,
            Option::None => {
                return Result::Err(WebhookEventsError::NotFound);
            },
        };
        let current = self.get(fi);
        let status = attempt_status(&current.response);
        match status {
            DeliveryStatus::Pending => {},
            _ => {
                return Result::Err(WebhookEventsError::InvalidState);
            },
        }
        let succeeded: Option<bool> = match attempt_status(&outcome) {
            DeliveryStatus::Delivered => Option::Some(true),
            DeliveryStatus::Failed => Option::Some(false),
            DeliveryStatus::Pending => Option::None,
        };
        let mut updated = self.get(fi).clone();
        updated.response = outcome;
        updated.is_overall_delivery_successful = succeeded;
        let item = updated.list_item();
        let ghost gev = updated@;
        proof {
            assert(gev == completed_event(self@[fi as int], gev.response));
            lemma_wf_update_outcome(self@, fi as int, gev);
        }
        self.set_row(fi, updated);
        Result::Ok(item)
    }

    /// Validates and records a manual retry whose transport outcome is
    /// already at hand: the synchronous composition of
    /// [`EventStore::begin_retry`] and [`EventStore::complete_retry`].
    ///
    /// On success exactly one new row is appended. It shares the chain's
    /// `initial_attempt_id`, carries a later timestamp and the *initial*
    /// attempt's request content, and records the given outcome — a failed
    /// delivery is data, not an error. `NotFound` and `InvalidState` are as
    /// in [`EventStore::begin_retry`]; neither changes the store.
    pub fn retry(
        &mut self,
        merchant_id: &String,
        event_id: &String,
        new_event_id: String,
        created: i64,
        outcome: OutgoingWebhookResponseContent,
    ) -> (r: Result<EventListItemResponse, WebhookEventsError>)
        requires
            old(self).wf(),
            old(self)@.len() < i64::MAX as nat,
            forall|i: int|
                0 <= i < old(self)@.len() ==> (#[trigger] old(self)@[i]).event_id
                    != new_event_id@,
            forall|i: int|
                0 <= i < old(self)@.len() ==> (#[trigger] old(self)@[i]).created < created as int,
            spec_is_completed(outcome@),
        ensures
            final(self).wf(),
            r is Err ==> final(self)@ == old(self)@,
            r matches Result::Err(WebhookEventsError::NotFound) <==> !located(
                old(self)@,
                merchant_id@,
                event_id@,
            ),
            r matches Result::Err(WebhookEventsError::InvalidState) <==> (located(
                old(self)@,
                merchant_id@,
                event_id@,
            ) && terminal_status(
                old(self)@,
                chain_key_of(old(self)@, merchant_id@, event_id@),
                merchant_id@,
            ) != DeliveryStatus::Failed),
            r is Ok <==> retry_allowed(old(self)@, merchant_id@, event_id@),
            r matches Result::Ok(item) ==> ({
                let qid = chain_key_of(old(self)@, merchant_id@, event_id@);
                let root = chain_model(old(self)@, qid, merchant_id@)[0];
                let ev = completed_event(
                    manual_retry_event(root, new_event_id@, created as int),
                    outcome@,
                );
                &&& final(self)@ == old(self)@.push(ev)
                &&& item@ == item_of(ev)
                &&& ev.initial_attempt_id == qid
                &&& ev.request == root.request
                &&& ev.created > root.created
            }),
    {
        let ghost pre = self@;
        let ghost m = merchant_id@;
        let nid = new_event_id.clone();
        let began = self.begin_retry(merchant_id, event_id, new_event_id, created);
        match began {
            Result::Err(e) => Result::Err(e),
            Result::Ok(_) => {
                let ghost qid = chain_key_of(pre, m, event_id@);
                let ghost root = chain_model(pre, qid, m)[0];
                let ghost sched = manual_retry_event(root, nid@, created as int);
                proof {
                    assert(located(pre, m, event_id@));
                    let fi0 = idx_of(pre, m, event_id@);
                    assert(in_chain(pre[fi0], qid, m));
                    pre.lemma_filter_contains(|e: EventModel| in_chain(e, qid, m), fi0);
                    assert(chain_model(pre, qid, m).contains(pre[fi0]));
                    assert(chain_model(pre, qid, m).len() > 0);
                    assert(self@ == pre.push(sched));
                    assert(self@[pre.len() as int] == sched);
                    assert(located(self@, m, nid@));
                    let j = idx_of(self@, m, nid@);
                    if j < pre.len() {
                        assert(pre[j].event_id != nid@);
                        assert(false);
                    }
                    assert(j == pre.len() as int);
                    assert(spec_attempt_status(self@[j].response) == DeliveryStatus::Pending);
                }
                let completed = self.complete_retry(merchant_id, &nid, outcome);
                match completed {
                    Result::Ok(item) => {
                        proof {
                            let ev = completed_event(sched, outcome@);
                            assert(pre.push(sched).update(pre.len() as int, ev) =~= pre.push(ev));
                            // the initial attempt was created strictly earlier
                            // than every stored row's successor, in particular
                            // than the new attempt
                            let c = chain_model(pre, qid, m);
                            c.lemma_index_contains(0);
                            pre.lemma_filter_contains_rev(
                                |e: EventModel| in_chain(e, qid, m),
                                c[0],
                            );
                            let k = choose|k: int| 0 <= k < pre.len() && pre[k] == c[0];
                            assert(pre[k].created < created as int);
                        }
                        Result::Ok(item)
                    },
                    Result::Err(e) => {
                        proof {
                            assert(false);
                        }
                        Result::Err(e)
                    },
                }
            },
        }
    }
}

/// Concurrent retries of one chain are serialized: once a retry has been
/// scheduled on a chain (one pending attempt appended, as
/// [`EventStore::begin_retry`] does), the chain's terminal attempt is
/// pending, so no retry of any event of that chain is permissible until the
/// outcome is recorded. By the retry contracts the second call is rejected
/// with `InvalidState` (or `NotFound`) and appends nothing: at most one new
/// attempt per chain is ever in flight.
pub proof fn lemma_concurrent_retry_excluded(
    pre: Seq<EventModel>,
    ev: EventModel,
    initial_attempt_id: Seq<char>,
    merchant_id: Seq<char>,
    event_id2: Seq<char>,
)
    requires
        in_chain(ev, initial_attempt_id, merchant_id),
        spec_attempt_status(ev.response) == DeliveryStatus::Pending,
    ensures
        terminal_status(pre.push(ev), initial_attempt_id, merchant_id) == DeliveryStatus::Pending,
        chain_key_of(pre.push(ev), merchant_id, event_id2) == initial_attempt_id
            ==> !retry_allowed(pre.push(ev), merchant_id, event_id2),
{
    let pred = |e: EventModel| in_chain(e, initial_attempt_id, merchant_id);
    Seq::lemma_filter_push(pre, ev, pred);
    let c = chain_model(pre.push(ev), initial_attempt_id, merchant_id);
    assert(c == chain_model(pre, initial_attempt_id, merchant_id).push(ev));
    assert(c.last() == ev);
}

} // verus!
