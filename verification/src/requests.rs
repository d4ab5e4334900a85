//! Request bundles the routing layer hands to the engine, pairing a merchant
//! scope with the operation's input. Each exposes the merchant identifier it
//! is scoped to, for API-event accounting.

use vstd::prelude::*;

use crate::constraints::EventListConstraints;

verus! {

/// A list-events request: a merchant scope and the caller's constraints.
pub struct EventListRequestInternal {
    pub merchant_id: String,
    pub constraints: EventListConstraints,
}

impl EventListRequestInternal {
    /// The merchant this request is scoped to.
    pub fn get_api_event_type(&self) -> (r: Option<&String>)
        ensures
            r matches Option::Some(m) && m@ == self.merchant_id@,
    {
        Option::Some(&self.merchant_id)
    }
}

/// A list-delivery-attempts request: a merchant scope and the chain key.
pub struct WebhookDeliveryAttemptListRequestInternal {
    pub merchant_id: String,
    pub initial_attempt_id: String,
}

impl WebhookDeliveryAttemptListRequestInternal {
    /// The merchant this request is scoped to.
    pub fn get_api_event_type(&self) -> (r: Option<&String>)
        ensures
            r matches Option::Some(m) && m@ == self.merchant_id@,
    {
        Option::Some(&self.merchant_id)
    }
}

/// A retry request: a merchant scope and the event to retry.
pub struct WebhookDeliveryRetryRequestInternal {
    pub merchant_id: String,
    pub event_id: String,
}

impl WebhookDeliveryRetryRequestInternal {
    /// The merchant this request is scoped to.
    pub fn get_api_event_type(&self) -> (r: Option<&String>)
        ensures
            r matches Option::Some(m) && m@ == self.merchant_id@,
    {
        Option::Some(&self.merchant_id)
    }
}

} // verus!
