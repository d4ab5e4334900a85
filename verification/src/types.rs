//! Plain data types shared by the filter resolver, the event store and the
//! retry coordinator: event classification enums, sensitive payload wrappers,
//! webhook request/response content, and their ghost models.

use vstd::prelude::*;

verus! {

/// Coarse classification of an event: the kind of business object it
/// concerns.
#[derive(Clone, Copy, Debug, PartialEq, Eq, Structural)]
pub enum EventClass {
    Payments,
    Refunds,
    Disputes,
    Mandates,
}

/// Fine-grained event type: the object kind together with the status change
/// that triggered the webhook.
#[derive(Clone, Copy, Debug, PartialEq, Eq, Structural)]
pub enum EventType {
    PaymentSucceeded,
    PaymentFailed,
    PaymentProcessing,
    PaymentCancelled,
    ActionRequired,
    RefundSucceeded,
    RefundFailed,
    DisputeOpened,
    DisputeWon,
    DisputeLost,
    MandateActive,
    MandateRevoked,
}

/// Which kind of delivery attempt an event row records.
#[derive(Clone, Copy, Debug, PartialEq, Eq, Structural)]
pub enum WebhookDeliveryAttempt {
    InitialAttempt,
    AutomaticRetry,
    ManualRetry,
}

/// Delivery status of a single attempt, derived from its recorded response.
///
/// `Pending` means the attempt is still in flight: no status code and no
/// error message have been recorded yet. A scheduled retry is externally
/// visible as `Pending` until its outcome is known.
#[derive(Clone, Copy, Debug, PartialEq, Eq, Structural)]
pub enum DeliveryStatus {
    Pending,
    Delivered,
    Failed,
}

/// Errors of the retry coordinator.
///
/// `NotFound` covers both "no such event" and "owned by another merchant":
/// the two are deliberately indistinguishable so that the error never leaks
/// whether another tenant's event exists. `InvalidState` rejects a retry
/// whose chain's terminal attempt is still pending or already delivered.
#[derive(Clone, Copy, Debug, PartialEq, Eq, Structural)]
pub enum WebhookEventsError {
    NotFound,
    InvalidState,
}

impl WebhookEventsError {
    /// A short, stable description that is safe to surface to callers: it
    /// carries no identifiers and no payload data.
    pub fn message(&self) -> (m: String)
        ensures
            *self == WebhookEventsError::NotFound ==> m@ == ("event not found")@,
            *self == WebhookEventsError::InvalidState ==> m@ == (
            "event cannot be retried in its current state")@,
    {
        match self {
            WebhookEventsError::NotFound => "event not found".to_owned(),
            WebhookEventsError::InvalidState => {
                "event cannot be retried in its current state".to_owned()
            },
        }
    }
}

/// A sensitive string: webhook payloads and header values.
///
/// The wrapped value can be reached only through the typed accessor
/// [`Secret::expose`]; the only rendered form this type offers is the fixed
/// marker returned by [`Secret::masked`], so the secret cannot end up in a
/// log line or an error message by accident.
pub struct Secret {
    inner: String,
}

impl View for Secret {
    type V = Seq<char>;

    closed spec fn view(&self) -> Seq<char> {
        self.inner@
    }
}

impl Secret {
    /// Wraps a sensitive value.
    pub fn new(value: String) -> (s: Secret)
        ensures
            s@ == value@,
    {
        Secret { inner: value }
    }

    /// The wrapped value. This is the only way to read it back.
    pub fn expose(&self) -> (v: &str)
        ensures
            v@ == self@,
    {
        self.inner.as_str()
    }

    /// A fixed redaction marker, independent of the wrapped value.
    pub fn masked(&self) -> (m: String)
        ensures
            m@ == ("** redacted **")@,
    {
        "** redacted **".to_owned()
    }
}

impl Clone for Secret {
    fn clone(&self) -> (r: Self)
        ensures
            r@ == self@,
    {
        Secret { inner: self.inner.clone() }
    }
}

/// Ghost model of a request's content: the payload characters and the header
/// name/value pairs, with the secrecy wrappers erased.
pub struct RequestModel {
    pub body: Seq<char>,
    pub headers: Seq<(Seq<char>, Seq<char>)>,
}

/// Ghost model of a recorded response. All three of `body`, `status_code`
/// and `error_message` are simultaneously absent exactly while the attempt
/// has not completed.
pub struct ResponseModel {
    pub body: Option<Seq<char>>,
    pub headers: Option<Seq<(Seq<char>, Seq<char>)>>,
    pub status_code: Option<u16>,
    pub error_message: Option<Seq<char>>,
}

/// The header pairs as ghost character sequences.
pub open spec fn headers_model(h: Seq<(String, Secret)>) -> Seq<(Seq<char>, Seq<char>)> {
    h.map_values(|p: (String, Secret)| (p.0@, p.1@))
}

/// The request information (payload and headers) sent in a webhook.
pub struct OutgoingWebhookRequestContent {
    /// The request payload sent in the webhook. Sensitive.
    pub body: Secret,
    /// The request headers sent in the webhook; the values are sensitive.
    pub headers: Vec<(String, Secret)>,
}

impl View for OutgoingWebhookRequestContent {
    type V = RequestModel;

    open spec fn view(&self) -> RequestModel {
        RequestModel { body: self.body@, headers: headers_model(self.headers@) }
    }
}

/// Clones a header list, preserving its model.
fn clone_headers(h: &Vec<(String, Secret)>) -> (r: Vec<(String, Secret)>)
    ensures
        headers_model(r@) == headers_model(h@),
{
    let mut out: Vec<(String, Secret)> = Vec::new();
    let mut i: usize = 0;
    proof {
        assert(headers_model(out@) =~= headers_model(h@.take(0)));
    }
    while i < h.len()
        invariant
            i <= h.len(),
            out@.len() == i,
            headers_model(out@) == headers_model(h@.take(i as int)),
        decreases h.len() - i,
    {
        let name = h[i].0.clone();
        let value = h[i].1.clone();
        let ghost gname = name@;
        let ghost gvalue = value@;
        let ghost out_pre = out@;
        out.push((name, value));
        proof {
            assert(out@[i as int].0@ == gname && out@[i as int].1@ == gvalue);
            assert(gname == h@[i as int].0@ && gvalue == h@[i as int].1@);
            assert forall|j: int| 0 <= j < i + 1 implies headers_model(out@)[j] == headers_model(
                h@.take(i + 1),
            )[j] by {
                if j < i {
                    assert(out@[j] == out_pre[j]);
                    assert(headers_model(out_pre)[j] == headers_model(h@.take(i as int))[j]);
                    assert(h@.take(i as int)[j] == h@[j]);
                    assert(h@.take(i + 1)[j] == h@[j]);
                } else {
                    assert(out@[j].0@ == h@[j].0@ && out@[j].1@ == h@[j].1@);
                }
            }
            assert(headers_model(out@) =~= headers_model(h@.take(i + 1)));
        }
        i += 1;
    }
    proof {
        assert(h@.take(h@.len() as int) =~= h@);
        assert(headers_model(out@) == headers_model(h@));
    }
    out
}

impl Clone for OutgoingWebhookRequestContent {
    fn clone(&self) -> (r: Self)
        ensures
            r@ == self@,
    {
        OutgoingWebhookRequestContent {
            body: self.body.clone(),
            headers: clone_headers(&self.headers),
        }
    }
}

/// The response information (payload, headers, status code, error message)
/// received for a webhook sent.
pub struct OutgoingWebhookResponseContent {
    /// The response payload received for the webhook sent. Sensitive.
    pub body: Option<Secret>,
    /// The response headers received; the values are sensitive.
    pub headers: Option<Vec<(String, Secret)>>,
    /// The HTTP status code for the webhook sent.
    pub status_code: Option<u16>,
    /// Error message recorded when the webhook could not be delivered.
    pub error_message: Option<String>,
}

impl View for OutgoingWebhookResponseContent {
    type V = ResponseModel;

    open spec fn view(&self) -> ResponseModel {
        ResponseModel {
            body: match self.body {
                Option::Some(b) => Option::Some(b@),
                Option::None => Option::None,
            },
            headers: match self.headers {
                Option::Some(h) => Option::Some(headers_model(h@)),
                Option::None => Option::None,
            },
            status_code: self.status_code,
            error_message: match self.error_message {
                Option::Some(e) => Option::Some(e@),
                Option::None => Option::None,
            },
        }
    }
}

impl Clone for OutgoingWebhookResponseContent {
    fn clone(&self) -> (r: Self)
        ensures
            r@ == self@,
    {
        let body = match &self.body {
            Option::Some(b) => Option::Some(b.clone()),
            Option::None => Option::None,
        };
        let headers = match &self.headers {
            Option::Some(h) => Option::Some(clone_headers(h)),
            Option::None => Option::None,
        };
        let error_message = match &self.error_message {
            Option::Some(e) => Option::Some(e.clone()),
            Option::None => Option::None,
        };
        OutgoingWebhookResponseContent {
            body,
            headers,
            status_code: self.status_code,
            error_message,
        }
    }
}

impl OutgoingWebhookResponseContent {
    /// The response of an attempt whose outcome is not known yet.
    pub fn pending() -> (r: OutgoingWebhookResponseContent)
        ensures
            r@ == (ResponseModel {
                body: Option::None,
                headers: Option::None,
                status_code: Option::None,
                error_message: Option::None,
            }),
    {
        OutgoingWebhookResponseContent {
            body: Option::None,
            headers: Option::None,
            status_code: Option::None,
            error_message: Option::None,
        }
    }
}

/// Whether an HTTP status code counts as a successful delivery.
pub open spec fn spec_is_success_status(code: u16) -> bool {
    200 <= code < 300
}

/// The delivery status an attempt's recorded response denotes: `Pending`
/// while neither a status code nor an error message has been recorded,
/// `Delivered` on a success status code with no error message, `Failed`
/// otherwise (non-success status, or a transport error message).
pub open spec fn spec_attempt_status(r: ResponseModel) -> DeliveryStatus {
    match r.status_code {
        Option::Some(code) => {
            if r.error_message is None && spec_is_success_status(code) {
                DeliveryStatus::Delivered
            } else {
                DeliveryStatus::Failed
            }
        },
        Option::None => {
            if r.error_message is Some {
                DeliveryStatus::Failed
            } else {
                DeliveryStatus::Pending
            }
        },
    }
}

/// Whether the response records a finished attempt (success or failure).
pub open spec fn spec_is_completed(r: ResponseModel) -> bool {
    spec_attempt_status(r) != DeliveryStatus::Pending
}

/// Computes the delivery status denoted by a recorded response.
pub fn attempt_status(r: &OutgoingWebhookResponseContent) -> (s: DeliveryStatus)
    ensures
        s == spec_attempt_status(r@),
{
    let has_error = r.error_message.is_some();
    match r.status_code {
        Option::Some(code) => {
            if !has_error && 200 <= code && code < 300 {
                DeliveryStatus::Delivered
            } else {
                DeliveryStatus::Failed
            }
        },
        Option::None => {
            if has_error {
                DeliveryStatus::Failed
            } else {
                DeliveryStatus::Pending
            }
        },
    }
}

} // verus!
