//! The storage port the event store is built on.
//!
//! The port separates reads (no session) from mutations (session-scoped): a
//! caller opens a session, stages writes in it, then either closes it, which
//! commits every staged write at once, or aborts it, which discards them.
//! The port is abstracted by two maps: `snapshots`, the snapshot table keyed
//! by aggregate id, and `journal`, the per-aggregate envelope sequences.
//!
//! `wf_entry` is the version-density invariant: for one aggregate the stored
//! envelopes carry versions `1..=len` in order, with no gaps and no
//! duplicates. The lemmas at the end of this module state the laws a commit
//! built on this port enjoys: density is preserved, a raced commit must
//! conflict, and distinct aggregates do not disturb each other.

use vstd::prelude::*;

use crate::aggregate::Aggregate;
use crate::errors::CqrsError;
use crate::event::{env_like, envs_like, EventEnvelope};
use crate::snapshot::Snapshot;

verus! {

/// Snapshot equality up to the representation of the state.
pub open spec fn snap_like<A: Aggregate>(a: Snapshot<A>, b: Snapshot<A>) -> bool {
    &&& a.aggregate_id == b.aggregate_id
    &&& a.state.model() == b.state.model()
    &&& a.version == b.version
}

/// Version density of one aggregate's envelopes: position `i` holds version
/// `i + 1` and names the aggregate.
pub open spec fn wf_entry<E>(id: Seq<char>, evs: Seq<EventEnvelope<E>>) -> bool {
    forall|i: int|
        0 <= i < evs.len() ==> (#[trigger] evs[i]).version == i + 1 && evs[i].aggregate_id@ == id
}

/// Version density, journal-wide.
pub open spec fn wf_journal<E>(j: Map<Seq<char>, Seq<EventEnvelope<E>>>) -> bool {
    forall|id: Seq<char>| #[trigger] j.dom().contains(id) ==> wf_entry(id, j[id])
}

/// The envelopes of one aggregate; an id the journal does not hold has none.
pub open spec fn events_at<E>(
    j: Map<Seq<char>, Seq<EventEnvelope<E>>>,
    id: Seq<char>,
) -> Seq<EventEnvelope<E>> {
    if j.dom().contains(id) {
        j[id]
    } else {
        Seq::empty()
    }
}

/// Every envelope of the batch names the given aggregate.
pub open spec fn batch_for<E>(evs: Seq<EventEnvelope<E>>, id: Seq<char>) -> bool {
    forall|i: int| 0 <= i < evs.len() ==> (#[trigger] evs[i]).aggregate_id@ == id
}

/// The envelopes of one aggregate, as a filter predicate.
pub open spec fn by_aggregate<E>(id: Seq<char>) -> spec_fn(EventEnvelope<E>) -> bool {
    |e: EventEnvelope<E>| e.aggregate_id@ == id
}

/// The envelopes past a version, as a filter predicate.
pub open spec fn above_version<E>(version: int) -> spec_fn(EventEnvelope<E>) -> bool {
    |e: EventEnvelope<E>| e.version > version
}

/// Both at once.
pub open spec fn by_aggregate_above<E>(id: Seq<char>, version: int) -> spec_fn(
    EventEnvelope<E>,
) -> bool {
    |e: EventEnvelope<E>| e.aggregate_id@ == id && e.version > version
}

/// What a commit builds: the envelopes extend one aggregate's journal with
/// the given payloads in order, versions continuing densely from `base`, all
/// carrying the same metadata map and the same timestamp, and a 36-character
/// generated event id.
pub open spec fn built_envelopes<E>(
    envs: Seq<EventEnvelope<E>>,
    id: Seq<char>,
    base: int,
    payloads: Seq<E>,
    meta: Map<Seq<char>, String>,
    at: i64,
) -> bool {
    &&& envs.len() == payloads.len()
    &&& forall|i: int|
        0 <= i < envs.len() ==> {
            let e = #[trigger] envs[i];
            &&& e.aggregate_id@ == id
            &&& e.version == base + i + 1
            &&& e.payload == payloads[i]
            &&& e.metadata@ == meta
            &&& e.metadata.wf()
            &&& e.at == at
            &&& e.event_id@.len() == 36
        }
}

/// A filter that rejects every element gives the empty sequence.
pub proof fn lemma_filter_none<T>(s: Seq<T>, p: spec_fn(T) -> bool)
    requires
        forall|i: int| 0 <= i < s.len() ==> !p(#[trigger] s[i]),
    ensures
        s.filter(p) == Seq::<T>::empty(),
    decreases s.len(),
{
    reveal(Seq::filter);
    if s.len() > 0 {
        lemma_filter_none(s.drop_last(), p);
    }
}

/// Filtering twice is filtering by the conjunction.
pub proof fn lemma_filter_filter<T>(
    s: Seq<T>,
    p: spec_fn(T) -> bool,
    q: spec_fn(T) -> bool,
    both: spec_fn(T) -> bool,
)
    requires
        forall|x: T| #[trigger] both(x) == (p(x) && q(x)),
    ensures
        s.filter(p).filter(q) == s.filter(both),
    decreases s.len(),
{
    reveal(Seq::filter);
    if s.len() == 0 {
    } else {
        lemma_filter_filter(s.drop_last(), p, q, both);
        if p(s.last()) {
            assert(s.filter(p) == s.drop_last().filter(p).push(s.last()));
            assert(s.filter(p).drop_last() =~= s.drop_last().filter(p));
            assert(s.filter(p).last() == s.last());
        } else {
            assert(s.filter(p) == s.drop_last().filter(p));
        }
    }
}

/// Appending a batch envelope by envelope: each goes to the end of its own
/// aggregate's sequence, in batch order.
pub open spec fn apply_batch<E>(
    j: Map<Seq<char>, Seq<EventEnvelope<E>>>,
    evs: Seq<EventEnvelope<E>>,
) -> Map<Seq<char>, Seq<EventEnvelope<E>>>
    decreases evs.len(),
{
    if evs.len() == 0 {
        j
    } else {
        let j2 = apply_batch(j, evs.drop_last());
        let id = evs.last().aggregate_id@;
        j2.insert(id, events_at(j2, id).push(evs.last()))
    }
}

/// The slice of a sequence that a 1-based page holds.
pub open spec fn page_slice<T>(s: Seq<T>, page: int, page_size: int) -> Seq<T> {
    let start = if (page - 1) * page_size <= s.len() {
        (page - 1) * page_size
    } else {
        s.len() as int
    };
    let end = if start + page_size <= s.len() {
        start + page_size
    } else {
        s.len() as int
    };
    s.subrange(start, end)
}

/// The session-scoped persistence primitives the event store consumes.
///
/// `inv` is the implementation's own well-formedness; `reliable` says that
/// every operation of this storage succeeds, which the reference in-memory
/// implementation guarantees and a fallible backend does not.
pub trait EventStoreStorage<A: Aggregate>: Sized {
    type Session;

    spec fn inv(&self) -> bool;

    spec fn reliable(&self) -> bool;

    spec fn snapshots(&self) -> Map<Seq<char>, Snapshot<A>>;

    spec fn journal(&self) -> Map<Seq<char>, Seq<EventEnvelope<A::Event>>>;

    /// The writes staged in a session, in staging order.
    spec fn pending_events(s: &Self::Session) -> Seq<EventEnvelope<A::Event>>;

    /// The snapshot upsert staged in a session, if any.
    spec fn pending_snapshot(s: &Self::Session) -> Option<Snapshot<A>>;

    /// Open a session. A fresh session stages nothing.
    fn start_session(&self) -> (r: Result<Self::Session, CqrsError>)
        requires
            self.inv(),
        ensures
            self.reliable() ==> r is Ok,
            r matches Ok(s) ==> Self::pending_events(&s).len() == 0 && Self::pending_snapshot(&s)
                is None,
    ;

    /// Commit the session: every staged write is applied at once, or, on
    /// failure, none is.
    fn close_session(&mut self, session: Self::Session) -> (r: Result<(), CqrsError>)
        requires
            old(self).inv(),
        ensures
            final (self).inv(),
            final (self).reliable() == old(self).reliable(),
            old(self).reliable() ==> r is Ok,
            r is Ok ==> final (self).journal() == apply_batch(
                old(self).journal(),
                Self::pending_events(&session),
            ) && final (self).snapshots() == match Self::pending_snapshot(&session) {
                Some(sn) => old(self).snapshots().insert(sn.aggregate_id@, sn),
                None => old(self).snapshots(),
            },
            r is Err ==> final (self).journal() == old(self).journal() && final (self).snapshots()
                == old(self).snapshots(),
    ;

    /// Roll the session back: nothing staged in it is applied.
    fn abort_session(&self, session: Self::Session) -> (r: Result<(), CqrsError>)
        requires
            self.inv(),
        ensures
            self.reliable() ==> r is Ok,
    ;

    /// Read the snapshot of one aggregate, outside any session.
    fn fetch_snapshot(&self, aggregate_id: &str) -> (r: Result<Option<Snapshot<A>>, CqrsError>)
        requires
            self.inv(),
        ensures
            self.reliable() ==> r is Ok,
            r matches Ok(o) ==> match o {
                Some(s) => self.snapshots().dom().contains(aggregate_id@) && snap_like(
                    s,
                    self.snapshots()[aggregate_id@],
                ),
                None => !self.snapshots().dom().contains(aggregate_id@),
            },
    ;

    /// All envelopes of one aggregate, by version ascending.
    fn fetch_all_events(&self, aggregate_id: &str) -> (r: Result<
        Vec<EventEnvelope<A::Event>>,
        CqrsError,
    >)
        requires
            self.inv(),
        ensures
            self.reliable() ==> r is Ok,
            r matches Ok(v) ==> envs_like(v@, events_at(self.journal(), aggregate_id@)),
    ;

    /// The envelopes of one aggregate with `version > version`, by version
    /// ascending.
    fn fetch_events_from_version(&self, aggregate_id: &str, version: usize) -> (r: Result<
        Vec<EventEnvelope<A::Event>>,
        CqrsError,
    >)
        requires
            self.inv(),
        ensures
            self.reliable() ==> r is Ok,
            r matches Ok(v) ==> envs_like(
                v@,
                events_at(self.journal(), aggregate_id@).filter(above_version(version as int)),
            ),
    ;

    /// One 1-based page of an aggregate's envelopes, with the total count.
    fn fetch_events_paged(&self, aggregate_id: &str, page: usize, page_size: usize) -> (r: Result<
        (Vec<EventEnvelope<A::Event>>, usize),
        CqrsError,
    >)
        requires
            self.inv(),
            page >= 1,
        ensures
            self.reliable() ==> r is Ok,
            r matches Ok(p) ==> p.1 == events_at(self.journal(), aggregate_id@).len() && envs_like(
                p.0@,
                page_slice(
                    events_at(self.journal(), aggregate_id@),
                    page as int,
                    page_size as int,
                ),
            ),
    ;

    /// The envelope with the highest version for the aggregate, read under
    /// the session's lock so that concurrent commits serialize on it.
    fn fetch_latest_event(&self, aggregate: &A, session: &Self::Session) -> (r: Result<
        Option<EventEnvelope<A::Event>>,
        CqrsError,
    >)
        requires
            self.inv(),
        ensures
            self.reliable() ==> r is Ok,
            r matches Ok(o) ==> match o {
                Some(e) => events_at(self.journal(), A::model_id(aggregate.model())).len() > 0
                    && env_like(
                    e,
                    events_at(self.journal(), A::model_id(aggregate.model())).last(),
                ),
                None => events_at(self.journal(), A::model_id(aggregate.model())).len() == 0,
            },
    ;

    /// Stage an append of the given envelopes.
    fn save_events(&self, events: Vec<EventEnvelope<A::Event>>, session: Self::Session) -> (r:
        Result<Self::Session, CqrsError>)
        requires
            self.inv(),
        ensures
            self.reliable() ==> r is Ok,
            r matches Ok(s2) ==> Self::pending_events(&s2) == Self::pending_events(&session)
                + events@ && Self::pending_snapshot(&s2) == Self::pending_snapshot(&session),
    ;

    /// Stage a snapshot upsert of the aggregate at the given version.
    fn save_snapshot(&self, aggregate: &A, version: usize, session: Self::Session) -> (r: Result<
        Self::Session,
        CqrsError,
    >)
        requires
            self.inv(),
        ensures
            self.reliable() ==> r is Ok,
            r matches Ok(s2) ==> Self::pending_events(&s2) == Self::pending_events(&session) && (
            Self::pending_snapshot(&s2) matches Some(sn) && sn.aggregate_id@ == A::model_id(
                aggregate.model(),
            ) && sn.state.model() == aggregate.model() && sn.version == version),
    ;
}

/// A batch for one aggregate lands whole at the end of that aggregate's
/// sequence and nowhere else.
pub proof fn lemma_apply_batch_single<E>(
    j: Map<Seq<char>, Seq<EventEnvelope<E>>>,
    id: Seq<char>,
    evs: Seq<EventEnvelope<E>>,
)
    requires
        batch_for(evs, id),
        evs.len() > 0,
    ensures
        apply_batch(j, evs) == j.insert(id, events_at(j, id) + evs),
    decreases evs.len(),
{
    if evs.len() == 1 {
        assert(evs.drop_last().len() == 0);
        assert(apply_batch(j, evs.drop_last()) == j);
        assert(evs.last().aggregate_id@ == id);
        assert(apply_batch(j, evs) == j.insert(id, events_at(j, id).push(evs.last())));
        assert(events_at(j, id).push(evs.last()) =~= events_at(j, id) + evs);
    } else {
        lemma_apply_batch_single(j, id, evs.drop_last());
        let j2 = apply_batch(j, evs.drop_last());
        assert(j2 == j.insert(id, events_at(j, id) + evs.drop_last()));
        assert(events_at(j2, id) == events_at(j, id) + evs.drop_last());
        assert(events_at(j2, id).push(evs.last()) =~= events_at(j, id) + evs);
        assert(j2.insert(id, events_at(j2, id).push(evs.last())) =~= j.insert(
            id,
            events_at(j, id) + evs,
        ));
    }
}

/// Version density: in a well-formed journal the envelopes of any aggregate
/// carry exactly the versions `1..=len`, in order, with no duplicates.
pub proof fn lemma_version_density<E>(j: Map<Seq<char>, Seq<EventEnvelope<E>>>, id: Seq<char>)
    requires
        wf_journal(j),
    ensures
        forall|i: int|
            0 <= i < events_at(j, id).len() ==> (#[trigger] events_at(j, id)[i]).version == i + 1,
        forall|v: int|
            1 <= v <= events_at(j, id).len() ==> (#[trigger] events_at(j, id)[v - 1]).version == v,
        forall|i: int, k: int|
            0 <= i < k < events_at(j, id).len() ==> events_at(j, id)[i].version != events_at(
                j,
                id,
            )[k].version,
{
}

/// Appending the next dense batch of one aggregate keeps the whole journal
/// well-formed.
pub proof fn lemma_append_preserves_density<E>(
    j: Map<Seq<char>, Seq<EventEnvelope<E>>>,
    id: Seq<char>,
    batch: Seq<EventEnvelope<E>>,
)
    requires
        wf_journal(j),
        batch_for(batch, id),
        forall|i: int|
            0 <= i < batch.len() ==> (#[trigger] batch[i]).version == events_at(j, id).len() + i
                + 1,
    ensures
        wf_journal(j.insert(id, events_at(j, id) + batch)),
{
    let merged = events_at(j, id) + batch;
    assert(wf_entry(id, merged)) by {
        assert forall|i: int| 0 <= i < merged.len() implies (#[trigger] merged[i]).version == i + 1
            && merged[i].aggregate_id@ == id by {
            if i < events_at(j, id).len() {
                assert(merged[i] == events_at(j, id)[i]);
            } else {
                assert(merged[i] == batch[i - events_at(j, id).len()]);
            }
        }
    }
}

/// Optimistic concurrency: once a commit has appended at least one envelope,
/// the aggregate's length has moved, so a second commit that observed the
/// old length cannot find its expected version again.
pub proof fn lemma_optimistic_concurrency<E>(
    j: Map<Seq<char>, Seq<EventEnvelope<E>>>,
    id: Seq<char>,
    batch: Seq<EventEnvelope<E>>,
)
    requires
        batch.len() >= 1,
    ensures
        events_at(j.insert(id, events_at(j, id) + batch), id).len() != events_at(j, id).len(),
{
}

/// Cross-aggregate independence: a commit on one aggregate leaves the
/// envelopes of every other aggregate exactly as they were.
pub proof fn lemma_cross_aggregate_independence<E>(
    j: Map<Seq<char>, Seq<EventEnvelope<E>>>,
    id: Seq<char>,
    batch: Seq<EventEnvelope<E>>,
    other: Seq<char>,
)
    requires
        other != id,
    ensures
        events_at(j.insert(id, events_at(j, id) + batch), other) == events_at(j, other),
{
}

} // verus!
