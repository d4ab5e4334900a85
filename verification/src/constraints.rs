//! The filter resolver: turns a caller's raw constraint set into exactly one
//! of two mutually exclusive lookup strategies.
//!
//! A present, non-blank `object_id` always wins: the query becomes a precise
//! object-id lookup and every other field is discarded. Otherwise every
//! supplied field is carried through unchanged into a generic range filter,
//! with `limit` and `offset` widened from the public 16-bit range to the
//! store's signed 64-bit range. The resolver is total: no combination of
//! optional fields is an error.

use vstd::prelude::*;
use vstd::string::StrSliceExecFns;

use crate::types::{EventClass, EventType};

verus! {

/// Whether a character counts as blank when deciding if an `object_id` is
/// effectively absent: the Unicode White_Space set, the characters that
/// trimming a string removes.
pub open spec fn spec_is_space(c: char) -> bool {
    let n = c as int;
    ||| (0x09 <= n && n <= 0x0D)
    ||| n == 0x20
    ||| n == 0x85
    ||| n == 0xA0
    ||| n == 0x1680
    ||| (0x2000 <= n && n <= 0x200A)
    ||| n == 0x2028
    ||| n == 0x2029
    ||| n == 0x202F
    ||| n == 0x205F
    ||| n == 0x3000
}

/// Whether a string trims to nothing: it holds no non-blank character.
pub open spec fn spec_is_blank(s: Seq<char>) -> bool {
    forall|i: int| 0 <= i < s.len() ==> spec_is_space(s[i])
}

/// True when `s` trims to the empty string, i.e. when an identifier field
/// holding it is to be treated as absent.
pub fn is_blank(s: &str) -> (r: bool)
    ensures
        r == spec_is_blank(s@),
{
    let len = s.unicode_len();
    let mut i: usize = 0;
    while i < len
        invariant
            len == s@.len(),
            i <= len,
            forall|j: int| 0 <= j < i ==> spec_is_space(s@[j]),
        decreases len - i,
    {
        let c = s.get_char(i);
        let n = c as u32;
        let ws = (0x09 <= n && n <= 0x0D) || n == 0x20 || n == 0x85 || n == 0xA0 || n == 0x1680
            || (0x2000 <= n && n <= 0x200A) || n == 0x2028 || n == 0x2029 || n == 0x202F || n
            == 0x205F || n == 0x3000;
        proof {
            assert(n as int == c as int);
            assert(ws == spec_is_space(s@[i as int]));
        }
        if !ws {
            return false;
        }
        i += 1;
    }
    true
}

/// The constraints to apply when filtering events, as supplied by the
/// caller. Creation times are integer timestamps (seconds).
pub struct EventListConstraints {
    /// Keep only events created at or after this time.
    pub created_after: Option<i64>,
    /// Keep only events created at or before this time.
    pub created_before: Option<i64>,
    /// Include at most this many events.
    pub limit: Option<u16>,
    /// Skip this many matching events first.
    pub offset: Option<u16>,
    /// Keep only events associated with this business object (a payment id,
    /// a refund id, and so on). Takes precedence over every other field.
    pub object_id: Option<String>,
    /// Keep only events associated with this business profile.
    pub profile_id: Option<String>,
    /// Keep only events of these classes.
    pub event_classes: Option<Vec<EventClass>>,
    /// Keep only events of these types.
    pub event_types: Option<Vec<EventType>>,
    /// Keep only events whose overall delivery-success flag equals this.
    pub is_delivered: Option<bool>,
}

/// One of the two mutually exclusive, resolved lookup strategies.
pub enum EventListConstraintsInternal {
    /// A range query over every field the caller supplied.
    GenericFilter {
        created_after: Option<i64>,
        created_before: Option<i64>,
        limit: Option<i64>,
        offset: Option<i64>,
        event_classes: Option<Vec<EventClass>>,
        event_types: Option<Vec<EventType>>,
        is_delivered: Option<bool>,
    },
    /// A precise lookup by business-object identifier.
    ObjectIdFilter { object_id: String },
}

/// Ghost model of a resolved generic filter.
pub struct GenericFilterModel {
    pub created_after: Option<int>,
    pub created_before: Option<int>,
    pub limit: Option<int>,
    pub offset: Option<int>,
    pub event_classes: Option<Seq<EventClass>>,
    pub event_types: Option<Seq<EventType>>,
    pub is_delivered: Option<bool>,
}

/// Ghost model of a resolved strategy.
pub enum FilterModel {
    Generic(GenericFilterModel),
    ObjectId(Seq<char>),
}

/// The ghost value of an optional 64-bit field.
pub open spec fn opt_int_view(v: Option<i64>) -> Option<int> {
    match v {
        Option::Some(t) => Option::Some(t as int),
        Option::None => Option::None,
    }
}

/// The ghost value of an optional event-class set.
pub open spec fn opt_classes_view(v: Option<Vec<EventClass>>) -> Option<Seq<EventClass>> {
    match v {
        Option::Some(cs) => Option::Some(cs@),
        Option::None => Option::None,
    }
}

/// The ghost value of an optional event-type set.
pub open spec fn opt_types_view(v: Option<Vec<EventType>>) -> Option<Seq<EventType>> {
    match v {
        Option::Some(ts) => Option::Some(ts@),
        Option::None => Option::None,
    }
}

impl View for EventListConstraintsInternal {
    type V = FilterModel;

    open spec fn view(&self) -> FilterModel {
        match self {
            EventListConstraintsInternal::GenericFilter {
                created_after,
                created_before,
                limit,
                offset,
                event_classes,
                event_types,
                is_delivered,
            } => FilterModel::Generic(
                GenericFilterModel {
                    created_after: opt_int_view(*created_after),
                    created_before: opt_int_view(*created_before),
                    limit: opt_int_view(*limit),
                    offset: opt_int_view(*offset),
                    event_classes: opt_classes_view(*event_classes),
                    event_types: opt_types_view(*event_types),
                    is_delivered: *is_delivered,
                },
            ),
            EventListConstraintsInternal::ObjectIdFilter { object_id } => FilterModel::ObjectId(
                object_id@,
            ),
        }
    }
}

/// Whether the constraints carry an effective (present and non-blank)
/// object id, which then takes precedence over everything else.
pub open spec fn spec_has_object_id(c: EventListConstraints) -> bool {
    match c.object_id {
        Option::Some(o) => !spec_is_blank(o@),
        Option::None => false,
    }
}

/// `limit`/`offset` widening from the public 16-bit range to the store's
/// signed 64-bit range: widening only, never truncating.
pub open spec fn spec_widen_u16(v: Option<u16>) -> Option<i64> {
    match v {
        Option::Some(x) => Option::Some(x as i64),
        Option::None => Option::None,
    }
}

impl EventListConstraints {
    /// Resolves the raw constraints into exactly one lookup strategy, plus
    /// the separately tracked profile scope.
    ///
    /// A present, non-blank `object_id` always yields the object-id lookup
    /// and every other field is discarded; otherwise a generic filter
    /// carries every supplied field through unchanged (limit and offset
    /// widened). A blank `object_id` is treated as absent, not as a literal
    /// match. The resolver is total.
    pub fn resolve(self) -> (r: (EventListConstraintsInternal, Option<String>))
        ensures
            r.1 == self.profile_id,
            spec_has_object_id(self) ==> r.0 == (EventListConstraintsInternal::ObjectIdFilter {
                object_id: self.object_id->Some_0,
            }),
            !spec_has_object_id(self) ==> r.0 == (EventListConstraintsInternal::GenericFilter {
                created_after: self.created_after,
                created_before: self.created_before,
                limit: spec_widen_u16(self.limit),
                offset: spec_widen_u16(self.offset),
                event_classes: self.event_classes,
                event_types: self.event_types,
                is_delivered: self.is_delivered,
            }),
    {
        let EventListConstraints {
            created_after,
            created_before,
            limit,
            offset,
            object_id,
            profile_id,
            event_classes,
            event_types,
            is_delivered,
        } = self;
        match object_id {
            Option::Some(o) => {
                if !is_blank(o.as_str()) {
                    return (EventListConstraintsInternal::ObjectIdFilter { object_id: o }, profile_id);
                }
                let limit_wide: Option<i64> = match limit {
                    Option::Some(l) => Option::Some(l as i64),
                    Option::None => Option::None,
                };
                let offset_wide: Option<i64> = match offset {
                    Option::Some(x) => Option::Some(x as i64),
                    Option::None => Option::None,
                };
                (
                    EventListConstraintsInternal::GenericFilter {
                        created_after,
                        created_before,
                        limit: limit_wide,
                        offset: offset_wide,
                        event_classes,
                        event_types,
                        is_delivered,
                    },
                    profile_id,
                )
            },
            Option::None => {
                let limit_wide: Option<i64> = match limit {
                    Option::Some(l) => Option::Some(l as i64),
                    Option::None => Option::None,
                };
                let offset_wide: Option<i64> = match offset {
                    Option::Some(x) => Option::Some(x as i64),
                    Option::None => Option::None,
                };
                (
                    EventListConstraintsInternal::GenericFilter {
                        created_after,
                        created_before,
                        limit: limit_wide,
                        offset: offset_wide,
                        event_classes,
                        event_types,
                        is_delivered,
                    },
                    profile_id,
                )
            },
        }
    }
}

} // verus!
