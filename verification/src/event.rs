//! The immutable event payload and its framing.
//!
//! An `EventEnvelope` wraps a domain event with the identity of its
//! aggregate, a version number, caller metadata and the commit timestamp.
//! For a given aggregate the stored envelopes carry the dense version
//! sequence `1..=len`, which `crate::store::wf_entry` states.

use vstd::prelude::*;

use crate::string_map::StringMap;

verus! {

/// A domain event: an immutable, past-tense fact. Events are plain values;
/// `clone_event` must reproduce the value exactly, and `event_type` gives the
/// stable name under which the event appears in audit output.
pub trait Event: Sized {
    spec fn event_type_spec(&self) -> Seq<char>;

    fn event_type(&self) -> (r: String)
        ensures
            r@ == self.event_type_spec(),
    ;

    fn clone_event(&self) -> (r: Self)
        ensures
            r == *self,
    ;
}

/// An event plus its framing.
#[derive(Debug)]
pub struct EventEnvelope<E> {
    pub event_id: String,
    /// The id of the aggregate instance.
    pub aggregate_id: String,
    /// The version number for an aggregate instance; versions of one
    /// aggregate are dense and start at 1.
    pub version: usize,
    /// Event payload.
    pub payload: E,
    /// Additional metadata.
    pub metadata: StringMap<String>,
    /// Milliseconds since the UNIX epoch, captured from the context at commit.
    pub at: i64,
}

/// Envelope equality up to the representation of the metadata map: all
/// framing fields and the payload agree, and the metadata maps agree as maps
/// and entry for entry.
pub open spec fn env_like<E>(a: EventEnvelope<E>, b: EventEnvelope<E>) -> bool {
    &&& a.event_id == b.event_id
    &&& a.aggregate_id == b.aggregate_id
    &&& a.version == b.version
    &&& a.payload == b.payload
    &&& a.metadata@ == b.metadata@
    &&& a.metadata.entries() == b.metadata.entries()
    &&& a.at == b.at
}

/// `env_like`, sequence-wide.
pub open spec fn envs_like<E>(a: Seq<EventEnvelope<E>>, b: Seq<EventEnvelope<E>>) -> bool {
    a.len() == b.len() && forall|i: int| 0 <= i < a.len() ==> env_like(#[trigger] a[i], b[i])
}

/// The payloads of a sequence of envelopes, in order.
pub open spec fn payloads_of<E>(evs: Seq<EventEnvelope<E>>) -> Seq<E> {
    evs.map_values(|e: EventEnvelope<E>| e.payload)
}

impl<E: Event> EventEnvelope<E> {
    /// A copy that is `env_like` the original.
    pub fn clone_env(&self) -> (r: Self)
        ensures
            env_like(r, *self),
            r.metadata.wf() == self.metadata.wf(),
    {
        EventEnvelope {
            event_id: self.event_id.clone(),
            aggregate_id: self.aggregate_id.clone(),
            version: self.version,
            payload: self.payload.clone_event(),
            metadata: self.metadata.duplicate(),
            at: self.at,
        }
    }
}

/// A copy of a whole envelope sequence, `env_like` element for element.
pub fn clone_envelopes<E: Event>(evs: &Vec<EventEnvelope<E>>) -> (r: Vec<EventEnvelope<E>>)
    ensures
        envs_like(r@, evs@),
        forall|i: int| 0 <= i < r@.len() ==> #[trigger] r@[i].metadata.wf() == evs@[i].metadata.wf(),
{
    let n = evs.len();
    let mut r: Vec<EventEnvelope<E>> = Vec::new();
    let mut i: usize = 0;
    while i < n
        invariant
            n == evs@.len(),
            0 <= i <= n,
            r@.len() == i,
            forall|j: int| 0 <= j < i ==> env_like(#[trigger] r@[j], evs@[j]),
            forall|j: int| 0 <= j < i ==> #[trigger] r@[j].metadata.wf() == evs@[j].metadata.wf(),
        decreases n - i,
    {
        r.push(evs[i].clone_env());
        i = i + 1;
    }
    r
}

} // verus!
