//! Events of the watched stream: references, resolved details, and the
//! reports emitted for details whose recipient matches the watched identity.

use vstd::prelude::*;
use crate::identity::{copy_bytes, same_identity, Identity};

verus! {

/// An opaque handle to one event, as emitted by the subscription. It carries
/// no payload; resolving it yields the full [`EventDetail`].
#[derive(Debug, PartialEq, Eq)]
pub struct EventRef {
    pub id: Vec<u8>,
}

impl View for EventRef {
    type V = Seq<u8>;

    open spec fn view(&self) -> Seq<u8> {
        self.id@
    }
}

impl Clone for EventRef {
    fn clone(&self) -> (r: Self)
        ensures
            r@ == self@,
    {
        EventRef { id: copy_bytes(&self.id) }
    }
}

/// The resolved record for one reference: its identifier, the originator,
/// the recipient (absent for some events), and the magnitude carried.
/// The magnitude is an opaque value: the watcher reports it but never
/// interprets it.
#[derive(Debug, PartialEq, Eq)]
pub struct EventDetail {
    pub id: Vec<u8>,
    pub originator: Identity,
    pub recipient: Option<Identity>,
    pub magnitude: Vec<u8>,
}

/// The mathematical value of an [`EventDetail`].
pub struct DetailModel {
    pub id: Seq<u8>,
    pub originator: Seq<u8>,
    pub recipient: Option<Seq<u8>>,
    pub magnitude: Seq<u8>,
}

impl View for EventDetail {
    type V = DetailModel;

    open spec fn view(&self) -> DetailModel {
        DetailModel {
            id: self.id@,
            originator: self.originator@,
            recipient: match self.recipient {
                Option::Some(r) => Option::Some(r@),
                Option::None => Option::None,
            },
            magnitude: self.magnitude@,
        }
    }
}

impl Clone for EventDetail {
    fn clone(&self) -> (r: Self)
        ensures
            r@ == self@,
    {
        EventDetail {
            id: copy_bytes(&self.id),
            originator: self.originator.clone(),
            recipient: match &self.recipient {
                Option::Some(r) => Option::Some(r.clone()),
                Option::None => Option::None,
            },
            magnitude: copy_bytes(&self.magnitude),
        }
    }
}

/// The record surfaced to the reporting sink for one matching event.
#[derive(Debug, PartialEq, Eq)]
pub struct Report {
    pub event_id: Vec<u8>,
    pub originator: Identity,
    pub recipient: Identity,
    pub magnitude: Vec<u8>,
}

/// The mathematical value of a [`Report`].
pub struct ReportModel {
    pub event_id: Seq<u8>,
    pub originator: Seq<u8>,
    pub recipient: Seq<u8>,
    pub magnitude: Seq<u8>,
}

impl View for Report {
    type V = ReportModel;

    open spec fn view(&self) -> ReportModel {
        ReportModel {
            event_id: self.event_id@,
            originator: self.originator@,
            recipient: self.recipient@,
            magnitude: self.magnitude@,
        }
    }
}

/// The relevance predicate: a detail is relevant exactly when its recipient
/// is present and equals the watched identity, byte for byte.
pub open spec fn is_match(d: DetailModel, target: Seq<u8>) -> bool {
    d.recipient matches Option::Some(r) && r == target
}

/// The report owed for a matching detail: its fields are the detail's, and
/// the recipient is the watched identity itself.
pub open spec fn report_of(d: DetailModel, target: Seq<u8>) -> ReportModel {
    ReportModel {
        event_id: d.id,
        originator: d.originator,
        recipient: target,
        magnitude: d.magnitude,
    }
}

/// Applies the relevance predicate to a resolved detail: exactly one report,
/// with the detail's fields, when the recipient equals the watched identity;
/// no report otherwise (including when the recipient is absent).
pub fn filter_detail(d: EventDetail, target: &Identity) -> (r: Option<Report>)
    ensures
        is_match(d@, target@) ==> (r matches Option::Some(rep) && rep@ == report_of(d@, target@)),
        !is_match(d@, target@) ==> r is None,
{
    match d.recipient {
        Option::Some(rec) => {
            if same_identity(&rec, target) {
                Option::Some(Report {
                    event_id: d.id,
                    originator: d.originator,
                    recipient: rec,
                    magnitude: d.magnitude,
                })
            } else {
                Option::None
            }
        },
        Option::None => Option::None,
    }
}

} // verus!
