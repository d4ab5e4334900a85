use webhook_events::constraints::{EventListConstraints, EventListConstraintsInternal};
use webhook_events::requests::{
    EventListRequestInternal, WebhookDeliveryAttemptListRequestInternal,
    WebhookDeliveryRetryRequestInternal,
};
use webhook_events::store::{Event, EventStore, TotalEventsResponse};
use webhook_events::types::{
    attempt_status, DeliveryStatus, EventClass, EventType, OutgoingWebhookRequestContent,
    OutgoingWebhookResponseContent, Secret, WebhookDeliveryAttempt, WebhookEventsError,
};

fn request_content(body: &str) -> OutgoingWebhookRequestContent {
    OutgoingWebhookRequestContent {
        body: Secret::new(body.to_string()),
        headers: vec![(
            "content-type".to_string(),
            Secret::new("application/json".to_string()),
        )],
    }
}

fn response_delivered() -> OutgoingWebhookResponseContent {
    OutgoingWebhookResponseContent {
        body: Some(Secret::new("ok".to_string())),
        headers: None,
        status_code: Some(200),
        error_message: None,
    }
}

fn response_failed() -> OutgoingWebhookResponseContent {
    OutgoingWebhookResponseContent {
        body: None,
        headers: None,
        status_code: Some(500),
        error_message: None,
    }
}

fn response_transport_error() -> OutgoingWebhookResponseContent {
    OutgoingWebhookResponseContent {
        body: None,
        headers: None,
        status_code: None,
        error_message: Some("connection timed out".to_string()),
    }
}

#[allow(clippy::too_many_arguments)]
fn event(
    event_id: &str,
    merchant_id: &str,
    object_id: &str,
    created: i64,
    initial_attempt_id: &str,
    body: &str,
    response: OutgoingWebhookResponseContent,
) -> Event {
    let delivered = match attempt_status(&response) {
        DeliveryStatus::Pending => None,
        DeliveryStatus::Delivered => Some(true),
        DeliveryStatus::Failed => Some(false),
    };
    Event {
        event_id: event_id.to_string(),
        merchant_id: merchant_id.to_string(),
        profile_id: "prof_1".to_string(),
        object_id: object_id.to_string(),
        event_type: EventType::PaymentFailed,
        event_class: EventClass::Payments,
        is_overall_delivery_successful: delivered,
        initial_attempt_id: initial_attempt_id.to_string(),
        created,
        delivery_attempt: Some(if event_id == initial_attempt_id {
            WebhookDeliveryAttempt::InitialAttempt
        } else {
            WebhookDeliveryAttempt::ManualRetry
        }),
        request: request_content(body),
        response,
    }
}

fn constraints_with(object_id: Option<&str>) -> EventListConstraints {
    EventListConstraints {
        created_after: None,
        created_before: None,
        limit: None,
        offset: None,
        object_id: object_id.map(|s| s.to_string()),
        profile_id: None,
        event_classes: None,
        event_types: None,
        is_delivered: None,
    }
}

#[test]
fn object_id_takes_precedence_over_other_fields() {
    let mut c = constraints_with(Some("pay_123"));
    c.created_after = Some(1_000);
    c.limit = Some(10);
    c.event_classes = Some(vec![EventClass::Refunds]);
    let (resolved, profile) = c.resolve();
    match resolved {
        EventListConstraintsInternal::ObjectIdFilter { object_id } => {
            assert_eq!(object_id, "pay_123");
        }
        EventListConstraintsInternal::GenericFilter { .. } => {
            panic!("expected an object-id lookup");
        }
    }
    assert!(profile.is_none());
}

#[test]
fn generic_filter_preserves_fields_and_widens() {
    let mut c = constraints_with(None);
    c.created_after = Some(5);
    c.created_before = Some(9);
    c.limit = Some(10);
    c.offset = Some(20);
    c.event_classes = Some(vec![EventClass::Payments]);
    c.is_delivered = Some(true);
    c.profile_id = Some("prof_9".to_string());
    let (resolved, profile) = c.resolve();
    match resolved {
        EventListConstraintsInternal::GenericFilter {
            created_after,
            created_before,
            limit,
            offset,
            event_classes,
            event_types,
            is_delivered,
        } => {
            assert_eq!(created_after, Some(5));
            assert_eq!(created_before, Some(9));
            assert_eq!(limit, Some(10i64));
            assert_eq!(offset, Some(20i64));
            assert_eq!(event_classes, Some(vec![EventClass::Payments]));
            assert_eq!(event_types, None);
            assert_eq!(is_delivered, Some(true));
        }
        EventListConstraintsInternal::ObjectIdFilter { .. } => {
            panic!("expected a generic filter");
        }
    }
    assert_eq!(profile, Some("prof_9".to_string()));
}

#[test]
fn blank_object_id_is_treated_as_absent() {
    // every string that trims to empty is treated as an absent object id,
    // including the Unicode space characters beyond ASCII
    for blank in [
        "   \t",
        "\u{000B}",
        "\u{000C}\r\n",
        "\u{0085}",
        "\u{00A0}",
        "\u{1680}\u{2000}\u{200A}",
        "\u{2028}\u{2029}",
        "\u{202F}\u{205F}\u{3000}",
    ] {
        let mut c = constraints_with(Some(blank));
        c.limit = Some(3);
        let (resolved, _) = c.resolve();
        assert!(matches!(
            resolved,
            EventListConstraintsInternal::GenericFilter { limit: Some(3), .. }
        ));
        assert!(blank.trim().is_empty());
    }
    // a non-blank id keeps its surrounding characters as a literal key
    let c = constraints_with(Some(" pay_1 "));
    let (resolved, _) = c.resolve();
    assert!(matches!(
        resolved,
        EventListConstraintsInternal::ObjectIdFilter { object_id } if object_id == " pay_1 "
    ));
}

fn seeded_store() -> EventStore {
    let mut store = EventStore::new();
    store.append(event("evt_1", "m_a", "pay_1", 1, "evt_1", "b1", response_failed()));
    store.append(event("evt_2", "m_a", "pay_2", 2, "evt_2", "b2", response_delivered()));
    store.append(event("evt_3", "m_b", "pay_3", 3, "evt_3", "b3", response_failed()));
    store.append(event("evt_4", "m_a", "pay_4", 4, "evt_4", "b4", response_failed()));
    store.append(event("evt_5", "m_a", "pay_5", 5, "evt_5", "b5", response_delivered()));
    store
}

#[test]
fn generic_listing_is_newest_first_with_offset_and_limit() {
    let store = seeded_store();
    let filter = EventListConstraintsInternal::GenericFilter {
        created_after: None,
        created_before: None,
        limit: Some(2),
        offset: Some(1),
        event_classes: Some(vec![EventClass::Payments]),
        event_types: None,
        is_delivered: None,
    };
    let merchant = "m_a".to_string();
    let r = store.list(&merchant, None, &filter);
    assert_eq!(r.total_count, 4);
    let ids: Vec<&str> = r.events.iter().map(|e| e.event_id.as_str()).collect();
    assert_eq!(ids, vec!["evt_4", "evt_2"]);
}

#[test]
fn generic_listing_offset_past_end_returns_empty_page() {
    let store = seeded_store();
    let filter = EventListConstraintsInternal::GenericFilter {
        created_after: None,
        created_before: None,
        limit: Some(10),
        offset: Some(20),
        event_classes: Some(vec![EventClass::Payments]),
        event_types: None,
        is_delivered: None,
    };
    let merchant = "m_a".to_string();
    let r = store.list(&merchant, None, &filter);
    assert_eq!(r.total_count, 4);
    assert!(r.events.is_empty());
}

#[test]
fn listing_never_returns_another_merchants_events() {
    let store = seeded_store();
    let filter = EventListConstraintsInternal::GenericFilter {
        created_after: None,
        created_before: None,
        limit: None,
        offset: None,
        event_classes: None,
        event_types: None,
        is_delivered: None,
    };
    let merchant = "m_a".to_string();
    let r = store.list(&merchant, None, &filter);
    assert_eq!(r.total_count, 4);
    for item in &r.events {
        assert_eq!(item.merchant_id, "m_a");
    }
    // an object-id lookup under the wrong merchant finds nothing
    let object_filter = EventListConstraintsInternal::ObjectIdFilter {
        object_id: "pay_3".to_string(),
    };
    let r = store.list(&merchant, None, &object_filter);
    assert_eq!(r.total_count, 0);
    assert!(r.events.is_empty());
}

#[test]
fn time_range_and_delivery_filters_are_and_combined() {
    let store = seeded_store();
    let filter = EventListConstraintsInternal::GenericFilter {
        created_after: Some(2),
        created_before: Some(4),
        limit: None,
        offset: None,
        event_classes: None,
        event_types: None,
        is_delivered: Some(false),
    };
    let merchant = "m_a".to_string();
    let r = store.list(&merchant, None, &filter);
    assert_eq!(r.total_count, 1);
    assert_eq!(r.events[0].event_id, "evt_4");
}

fn store_with_chain() -> EventStore {
    // E1 failed, retried as E2, which failed too; an unrelated delivered
    // event sits in between.
    let mut store = EventStore::new();
    store.append(event("evt_a1", "m_a", "pay_9", 10, "evt_a1", "orig", response_failed()));
    store.append(event("evt_x", "m_a", "pay_0", 11, "evt_x", "other", response_delivered()));
    store.append(event("evt_a2", "m_a", "pay_9", 12, "evt_a1", "stale", response_failed()));
    store
}

#[test]
fn chain_starts_with_its_initial_attempt() {
    let store = store_with_chain();
    let qid = "evt_a1".to_string();
    let merchant = "m_a".to_string();
    let ch = store.chain(&qid, &merchant);
    assert_eq!(ch.len(), 2);
    assert_eq!(ch[0].event_id, "evt_a1");
    assert_eq!(ch[0].initial_attempt_id, "evt_a1");
    assert_eq!(ch[1].event_id, "evt_a2");
    assert!(ch[0].created < ch[1].created);
}

#[test]
fn object_id_listing_is_chronological_and_unpaginated() {
    let store = store_with_chain();
    let filter = EventListConstraintsInternal::ObjectIdFilter {
        object_id: "pay_9".to_string(),
    };
    let merchant = "m_a".to_string();
    let r = store.list(&merchant, None, &filter);
    assert_eq!(r.total_count, 2);
    let ids: Vec<&str> = r.events.iter().map(|e| e.event_id.as_str()).collect();
    assert_eq!(ids, vec!["evt_a1", "evt_a2"]);
}

#[test]
fn retry_of_failed_chain_appends_one_row_with_original_request() {
    let mut store = store_with_chain();
    let merchant = "m_a".to_string();
    let target = "evt_a2".to_string();
    let before = store.len();
    let item = store
        .retry(&merchant, &target, "evt_a3".to_string(), 20, response_failed())
        .expect("a failed terminal attempt may be retried");
    assert_eq!(store.len(), before + 1);
    assert_eq!(item.event_id, "evt_a3");
    assert_eq!(item.initial_attempt_id, "evt_a1");
    assert_eq!(item.created, 20);
    assert_eq!(item.is_delivery_successful, Some(false));
    // the replayed request is the *initial* attempt's, not the stale retry's
    let new_id = "evt_a3".to_string();
    let retrieved = store.retrieve(&merchant, &new_id).expect("appended row exists");
    assert_eq!(retrieved.request.body.expose(), "orig");
    assert_eq!(
        retrieved.delivery_attempt,
        Some(WebhookDeliveryAttempt::ManualRetry)
    );
}

#[test]
fn retry_of_delivered_event_is_invalid_and_appends_nothing() {
    let mut store = seeded_store();
    let merchant = "m_a".to_string();
    let target = "evt_2".to_string();
    let before = store.len();
    let r = store.retry(&merchant, &target, "evt_n".to_string(), 50, response_failed());
    assert_eq!(r.unwrap_err(), WebhookEventsError::InvalidState);
    assert_eq!(store.len(), before);
}

#[test]
fn retry_of_pending_event_is_invalid_and_appends_nothing() {
    let mut store = EventStore::new();
    store.append(event(
        "evt_p",
        "m_a",
        "pay_p",
        1,
        "evt_p",
        "b",
        OutgoingWebhookResponseContent::pending(),
    ));
    let merchant = "m_a".to_string();
    let target = "evt_p".to_string();
    let r = store.retry(&merchant, &target, "evt_q".to_string(), 2, response_failed());
    assert_eq!(r.unwrap_err(), WebhookEventsError::InvalidState);
    assert_eq!(store.len(), 1);
}

#[test]
fn retry_of_unknown_or_foreign_event_is_not_found() {
    let mut store = seeded_store();
    let merchant = "m_a".to_string();
    let missing = "evt_none".to_string();
    let r = store.retry(&merchant, &missing, "evt_n1".to_string(), 50, response_failed());
    assert_eq!(r.unwrap_err(), WebhookEventsError::NotFound);
    // another tenant's event yields the same error as a missing one
    let foreign = "evt_3".to_string();
    let r = store.retry(&merchant, &foreign, "evt_n2".to_string(), 51, response_failed());
    assert_eq!(r.unwrap_err(), WebhookEventsError::NotFound);
    assert_eq!(store.len(), 5);
}

#[test]
fn second_concurrent_retry_is_rejected_while_one_is_in_flight() {
    let mut store = store_with_chain();
    let merchant = "m_a".to_string();
    let target = "evt_a2".to_string();
    store
        .begin_retry(&merchant, &target, "evt_a3".to_string(), 20)
        .expect("first retry is permissible");
    assert_eq!(store.len(), 4);
    // the scheduled attempt is pending, so a second retry of the same chain
    // is rejected and appends nothing, whichever row it names
    let r = store.begin_retry(&merchant, &target, "evt_a4".to_string(), 21);
    assert_eq!(r.unwrap_err(), WebhookEventsError::InvalidState);
    let initial = "evt_a1".to_string();
    let r = store.begin_retry(&merchant, &initial, "evt_a4".to_string(), 21);
    assert_eq!(r.unwrap_err(), WebhookEventsError::InvalidState);
    assert_eq!(store.len(), 4);
    // once the outcome is recorded, a failed outcome may be retried again
    let scheduled = "evt_a3".to_string();
    let item = store
        .complete_retry(&merchant, &scheduled, response_transport_error())
        .expect("the scheduled attempt was pending");
    assert_eq!(item.is_delivery_successful, Some(false));
    assert_eq!(store.len(), 4);
    let r = store.begin_retry(&merchant, &target, "evt_a4".to_string(), 22);
    assert!(r.is_ok());
    assert_eq!(store.len(), 5);
}

#[test]
fn transport_failure_is_recorded_as_data_not_error() {
    let mut store = store_with_chain();
    let merchant = "m_a".to_string();
    let target = "evt_a1".to_string();
    let item = store
        .retry(&merchant, &target, "evt_a3".to_string(), 20, response_transport_error())
        .expect("a transport failure is a successful retry call");
    assert_eq!(item.is_delivery_successful, Some(false));
    let new_id = "evt_a3".to_string();
    let retrieved = store.retrieve(&merchant, &new_id).unwrap();
    assert_eq!(retrieved.response.status_code, None);
    assert_eq!(
        retrieved.response.error_message.as_deref(),
        Some("connection timed out")
    );
}

#[test]
fn successful_retry_marks_delivery_successful() {
    let mut store = store_with_chain();
    let merchant = "m_a".to_string();
    let target = "evt_a2".to_string();
    let item = store
        .retry(&merchant, &target, "evt_a3".to_string(), 20, response_delivered())
        .unwrap();
    assert_eq!(item.is_delivery_successful, Some(true));
}

#[test]
fn retrieve_reports_not_found_for_missing_and_foreign_events() {
    let store = seeded_store();
    let merchant = "m_a".to_string();
    let missing = "evt_zz".to_string();
    assert!(matches!(
        store.retrieve(&merchant, &missing),
        Err(WebhookEventsError::NotFound)
    ));
    let foreign = "evt_3".to_string();
    assert!(matches!(
        store.retrieve(&merchant, &foreign),
        Err(WebhookEventsError::NotFound)
    ));
    let present = "evt_1".to_string();
    let found = store.retrieve(&merchant, &present).unwrap();
    assert_eq!(found.event_information.event_id, "evt_1");
    assert_eq!(found.request.body.expose(), "b1");
}

#[test]
fn attempt_status_follows_the_recorded_response() {
    assert_eq!(
        attempt_status(&OutgoingWebhookResponseContent::pending()),
        DeliveryStatus::Pending
    );
    assert_eq!(attempt_status(&response_delivered()), DeliveryStatus::Delivered);
    assert_eq!(attempt_status(&response_failed()), DeliveryStatus::Failed);
    assert_eq!(
        attempt_status(&response_transport_error()),
        DeliveryStatus::Failed
    );
    // a success status accompanied by an error message is a failure
    let mixed = OutgoingWebhookResponseContent {
        body: None,
        headers: None,
        status_code: Some(200),
        error_message: Some("tls handshake failed".to_string()),
    };
    assert_eq!(attempt_status(&mixed), DeliveryStatus::Failed);
}

#[test]
fn secrets_expose_their_value_only_through_the_typed_accessor() {
    let s = Secret::new("whsec_SECRET-REDACTED".to_string());
    assert_eq!(s.expose(), "whsec_SECRET-REDACTED");
    assert_eq!(s.masked(), "** redacted **");
}

#[test]
fn error_messages_are_stable_and_carry_no_data() {
    assert_eq!(WebhookEventsError::NotFound.message(), "event not found");
    assert_eq!(
        WebhookEventsError::InvalidState.message(),
        "event cannot be retried in its current state"
    );
}

#[test]
fn responses_expose_their_merchant_scope() {
    let store = seeded_store();
    let filter = EventListConstraintsInternal::GenericFilter {
        created_after: None,
        created_before: None,
        limit: None,
        offset: None,
        event_classes: None,
        event_types: None,
        is_delivered: None,
    };
    let merchant = "m_a".to_string();
    let listed = store.list(&merchant, None, &filter);
    assert_eq!(listed.get_api_event_type(), Some(&"m_a".to_string()));
    let empty = TotalEventsResponse::new(0, Vec::new());
    assert_eq!(empty.get_api_event_type(), None);
    let present = "evt_1".to_string();
    let retrieved = store.retrieve(&merchant, &present).unwrap();
    assert_eq!(retrieved.get_api_event_type(), Some(&"m_a".to_string()));

    let list_req = EventListRequestInternal {
        merchant_id: "m_a".to_string(),
        constraints: constraints_with(None),
    };
    assert_eq!(list_req.get_api_event_type(), Some(&"m_a".to_string()));
    let attempts_req = WebhookDeliveryAttemptListRequestInternal {
        merchant_id: "m_a".to_string(),
        initial_attempt_id: "evt_1".to_string(),
    };
    assert_eq!(attempts_req.get_api_event_type(), Some(&"m_a".to_string()));
    let retry_req = WebhookDeliveryRetryRequestInternal {
        merchant_id: "m_a".to_string(),
        event_id: "evt_1".to_string(),
    };
    assert_eq!(retry_req.get_api_event_type(), Some(&"m_a".to_string()));
}

#[test]
fn list_attempts_returns_summaries_in_chain_order() {
    let store = store_with_chain();
    let merchant = "m_a".to_string();
    let qid = "evt_a1".to_string();
    let attempts = store.list_attempts(&merchant, &qid);
    assert_eq!(attempts.len(), 2);
    assert_eq!(attempts[0].event_id, "evt_a1");
    assert_eq!(attempts[1].event_id, "evt_a2");
    assert!(attempts.iter().all(|a| a.initial_attempt_id == "evt_a1"));
    // scoped: another merchant sees nothing of this chain
    let other = "m_b".to_string();
    assert!(store.list_attempts(&other, &qid).is_empty());
}
