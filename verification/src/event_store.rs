//! Snapshot-plus-tail reconstruction and the commit protocol, built on an
//! abstract storage port.
//!
//! `EventStoreImpl` keeps the pair of tables consistent: the journal of
//! every aggregate is dense (`wf_journal`), and wherever a snapshot exists
//! its state is the fold of that aggregate's whole journal and its version
//! is the journal's length (`snapshots_consistent`). `commit` is the heart:
//! inside one session it locks the tail, enforces expected-version equality,
//! appends the new envelopes and upserts the snapshot, all atomically.

use vstd::prelude::*;

use crate::aggregate::{fold_model, lemma_fold_preserves_id, Aggregate};
use crate::context::CqrsContext;
use crate::errors::{
    spec_is_aggregate_already_exists, spec_is_aggregate_not_found, spec_is_concurrency_error,
    spec_is_database_error, CqrsError,
};
use crate::event::{clone_envelopes, envs_like, payloads_of, Event, EventEnvelope};
use crate::snapshot::Snapshot;
use crate::store::{
    above_version, built_envelopes, by_aggregate, events_at, lemma_apply_batch_single,
    lemma_append_preserves_density, lemma_filter_none, page_slice, snap_like, wf_entry, wf_journal,
    EventStoreStorage,
};
use crate::string_map::StringMap;

verus! {

/// Wherever a snapshot exists, it is the fold of the aggregate's whole
/// journal at the journal's length; and an aggregate with any envelope has a
/// snapshot.
pub open spec fn snapshots_consistent<A: Aggregate>(
    snaps: Map<Seq<char>, Snapshot<A>>,
    j: Map<Seq<char>, Seq<EventEnvelope<A::Event>>>,
) -> bool {
    &&& forall|id: Seq<char>|
        #[trigger] snaps.dom().contains(id) ==> {
            let s = snaps[id];
            &&& s.aggregate_id@ == id
            &&& s.version == events_at(j, id).len()
            &&& fold_model::<A>(
                A::with_id_model(A::default_model(), id),
                payloads_of(events_at(j, id)),
            ) == Some(s.state.model())
        }
    &&& forall|id: Seq<char>|
        #[trigger] events_at(j, id).len() > 0 ==> snaps.dom().contains(id)
}

/// Snapshot equivalence: wherever a snapshot exists in a consistent store,
/// its state is the fold of the aggregate's whole journal onto the default
/// state stamped with its id, and its version is the journal's length.
pub proof fn lemma_snapshot_equivalence<A: Aggregate>(
    snaps: Map<Seq<char>, Snapshot<A>>,
    j: Map<Seq<char>, Seq<EventEnvelope<A::Event>>>,
    id: Seq<char>,
)
    requires
        snapshots_consistent::<A>(snaps, j),
        snaps.dom().contains(id),
    ensures
        fold_model::<A>(A::with_id_model(A::default_model(), id), payloads_of(events_at(j, id)))
            == Some(snaps[id].state.model()),
        snaps[id].version == events_at(j, id).len(),
{
}

/// A storage with no snapshot and no envelope anywhere satisfies both store
/// invariants; it is how a fresh store starts.
pub proof fn lemma_empty_store_consistent<A: Aggregate>(
    snaps: Map<Seq<char>, Snapshot<A>>,
    j: Map<Seq<char>, Seq<EventEnvelope<A::Event>>>,
)
    requires
        snaps == Map::<Seq<char>, Snapshot<A>>::empty(),
        forall|id: Seq<char>|
            #[trigger] events_at(j, id) == Seq::<EventEnvelope<A::Event>>::empty(),
    ensures
        wf_journal(j),
        snapshots_consistent::<A>(snaps, j),
{
    assert forall|id: Seq<char>| #[trigger] j.dom().contains(id) implies wf_entry(id, j[id]) by {
        assert(events_at(j, id) == j[id]);
    }
}

/// The event store over a storage port `P`.
pub struct EventStoreImpl<A: Aggregate, P: EventStoreStorage<A>> {
    persist: P,
    _marker: core::marker::PhantomData<A>,
}

impl<A: Aggregate, P: EventStoreStorage<A>> EventStoreImpl<A, P> {
    /// The two tables are consistent and the storage is in shape.
    pub open spec fn inv(&self) -> bool {
        &&& self.persist_ref().inv()
        &&& wf_journal(self.journal())
        &&& snapshots_consistent::<A>(self.snapshots(), self.journal())
    }

    pub closed spec fn persist_ref(&self) -> &P {
        &self.persist
    }

    pub open spec fn journal(&self) -> Map<Seq<char>, Seq<EventEnvelope<A::Event>>> {
        self.persist_ref().journal()
    }

    pub open spec fn snapshots(&self) -> Map<Seq<char>, Snapshot<A>> {
        self.persist_ref().snapshots()
    }

    pub open spec fn reliable(&self) -> bool {
        self.persist_ref().reliable()
    }

    pub fn new(persist: P) -> (r: Self)
        requires
            persist.inv(),
            wf_journal(persist.journal()),
            snapshots_consistent::<A>(persist.snapshots(), persist.journal()),
        ensures
            r.inv(),
            r.journal() == persist.journal(),
            r.snapshots() == persist.snapshots(),
            r.reliable() == persist.reliable(),
    {
        EventStoreImpl { persist, _marker: core::marker::PhantomData }
    }

    /// Read the snapshot of one aggregate.
    pub fn load_snapshot(&self, aggregate_id: &str) -> (r: Result<Option<Snapshot<A>>, CqrsError>)
        requires
            self.inv(),
        ensures
            self.reliable() ==> r is Ok,
            r matches Ok(o) ==> match o {
                Some(s) => self.snapshots().dom().contains(aggregate_id@) && snap_like(
                    s,
                    self.snapshots()[aggregate_id@],
                ),
                None => !self.snapshots().dom().contains(aggregate_id@),
            },
    {
        self.persist.fetch_snapshot(aggregate_id)
    }

    /// All envelopes of one aggregate, by version ascending.
    pub fn load_events(&self, aggregate_id: &str) -> (r: Result<
        Vec<EventEnvelope<A::Event>>,
        CqrsError,
    >)
        requires
            self.inv(),
        ensures
            self.reliable() ==> r is Ok,
            r matches Ok(v) ==> envs_like(v@, events_at(self.journal(), aggregate_id@)),
    {
        self.persist.fetch_all_events(aggregate_id)
    }

    /// The envelopes of one aggregate past the given version.
    pub fn load_events_from_version(&self, aggregate_id: &str, version: usize) -> (r: Result<
        Vec<EventEnvelope<A::Event>>,
        CqrsError,
    >)
        requires
            self.inv(),
        ensures
            self.reliable() ==> r is Ok,
            r matches Ok(v) ==> envs_like(
                v@,
                events_at(self.journal(), aggregate_id@).filter(above_version(version as int)),
            ),
    {
        self.persist.fetch_events_from_version(aggregate_id, version)
    }

    /// One 1-based page of an aggregate's envelopes, with the total count.
    pub fn load_events_paged(&self, aggregate_id: &str, page: usize, page_size: usize) -> (r:
        Result<(Vec<EventEnvelope<A::Event>>, usize), CqrsError>)
        requires
            self.inv(),
            page >= 1,
        ensures
            self.reliable() ==> r is Ok,
            r matches Ok(p) ==> p.1 == events_at(self.journal(), aggregate_id@).len() && envs_like(
                p.0@,
                page_slice(
                    events_at(self.journal(), aggregate_id@),
                    page as int,
                    page_size as int,
                ),
            ),
    {
        self.persist.fetch_events_paged(aggregate_id, page, page_size)
    }

    /// The default state stamped with a fresh id, at version 0. Refused when
    /// the id already has a snapshot or any envelope: a create is a one-shot.
    pub fn initialize_aggregate(&self, aggregate_id: &str) -> (r: Result<(A, usize), CqrsError>)
        requires
            self.inv(),
        ensures
            r matches Ok(p) ==> {
                &&& !self.snapshots().dom().contains(aggregate_id@)
                &&& events_at(self.journal(), aggregate_id@).len() == 0
                &&& p.0.model() == A::with_id_model(A::default_model(), aggregate_id@)
                &&& p.1 == 0usize
            },
            (self.snapshots().dom().contains(aggregate_id@) || events_at(
                self.journal(),
                aggregate_id@,
            ).len() > 0) ==> !(r is Ok),
            self.reliable() && (self.snapshots().dom().contains(aggregate_id@) || events_at(
                self.journal(),
                aggregate_id@,
            ).len() > 0) ==> (r matches Err(e) && spec_is_aggregate_already_exists(e)),
            self.reliable() && !self.snapshots().dom().contains(aggregate_id@) && events_at(
                self.journal(),
                aggregate_id@,
            ).len() == 0 ==> r is Ok,
    {
        let maybe_snapshot = self.load_snapshot(aggregate_id)?;
        if maybe_snapshot.is_some() {
            return Err(CqrsError::aggregate_already_exists("Aggregate already exists".to_owned()));
        }
        let existing = self.persist.fetch_all_events(aggregate_id)?;
        if existing.len() > 0 {
            return Err(CqrsError::aggregate_already_exists("Aggregate already exists".to_owned()));
        }
        let state = A::default_state().with_aggregate_id(aggregate_id.to_owned());
        Ok((state, 0))
    }

    /// Load the snapshot and fold the tail past it. The state returned is
    /// the fold of the aggregate's whole journal onto the default state, at
    /// the journal's length, however many snapshots were taken meanwhile.
    pub fn load_aggregate(&self, aggregate_id: &str) -> (r: Result<(A, usize), CqrsError>)
        requires
            self.inv(),
        ensures
            r matches Ok(p) ==> {
                &&& self.snapshots().dom().contains(aggregate_id@)
                &&& Some(p.0.model()) == fold_model::<A>(
                    A::with_id_model(A::default_model(), aggregate_id@),
                    payloads_of(events_at(self.journal(), aggregate_id@)),
                )
                &&& p.1 == events_at(self.journal(), aggregate_id@).len()
            },
            self.reliable() && !self.snapshots().dom().contains(aggregate_id@) ==> (r matches Err(
                e,
            ) && spec_is_aggregate_not_found(e)),
            self.reliable() && self.snapshots().dom().contains(aggregate_id@) ==> r is Ok,
    {
        let maybe_snapshot = self.load_snapshot(aggregate_id)?;
        let snapshot = match maybe_snapshot {
            Some(s) => s,
            None => {
                return Err(CqrsError::aggregate_not_found("Aggregate not found".to_owned()));
            },
        };
        let Snapshot { aggregate_id: _sid, state, version } = snapshot;
        let tail = self.persist.fetch_events_from_version(aggregate_id, version)?;
        proof {
            let entry = events_at(self.journal(), aggregate_id@);
            assert(wf_entry(aggregate_id@, entry));
            assert(version == entry.len());
            assert forall|i: int| 0 <= i < entry.len() implies !above_version::<A::Event>(
                version as int,
            )(#[trigger] entry[i]) by {
                assert(entry[i].version == i + 1);
            }
            lemma_filter_none(entry, above_version::<A::Event>(version as int));
            assert(tail@.len() == 0);
        }
        // The commit path writes a snapshot with every commit, so the tail
        // past an up-to-date snapshot is empty (the proof above shows it);
        // the fold below replays whatever tail the storage handed back.
        let mut agg = state;
        let ghost m0 = agg.model();
        let mut latest_version = version;
        let mut i: usize = 0;
        let n = tail.len();
        while i < n
            invariant
                n == tail@.len(),
                n == 0,
                agg.model() == m0,
                latest_version == version,
            decreases n - i,
        {
            let env = &tail[i];
            match agg.apply(env.payload.clone_event()) {
                Ok(()) => {},
                Err(e) => {
                    return Err(e);
                },
            }
            latest_version = env.version;
            i = i + 1;
        }
        proof {
            assert(self.snapshots().dom().contains(aggregate_id@));
            let stored = self.snapshots()[aggregate_id@];
            assert(stored.version == events_at(self.journal(), aggregate_id@).len());
            assert(fold_model::<A>(
                A::with_id_model(A::default_model(), aggregate_id@),
                payloads_of(events_at(self.journal(), aggregate_id@)),
            ) == Some(stored.state.model()));
        }
        Ok((agg, latest_version))
    }

    /// The commit protocol: lock the tail inside a fresh session, enforce
    /// expected-version equality, append the envelopes built from `events`,
    /// upsert the snapshot, and close the session so that journal and
    /// snapshot land together. Any failure aborts the session and leaves
    /// both tables untouched; a version mismatch is reported as exactly a
    /// concurrency error.
    pub fn commit(
        &mut self,
        events: Vec<A::Event>,
        aggregate: &A,
        metadata: StringMap<String>,
        version: usize,
        context: &CqrsContext,
    ) -> (r: Result<Vec<EventEnvelope<A::Event>>, CqrsError>)
        requires
            old(self).inv(),
            metadata.wf(),
            version == events_at(
                old(self).journal(),
                A::model_id(aggregate.model()),
            ).len() ==> fold_model::<A>(
                A::with_id_model(A::default_model(), A::model_id(aggregate.model())),
                payloads_of(events_at(old(self).journal(), A::model_id(aggregate.model())))
                    + events@,
            ) == Some(aggregate.model()),
        ensures
            final (self).inv(),
            final (self).reliable() == old(self).reliable(),
            r is Err ==> final (self).journal() == old(self).journal() && final (self).snapshots()
                == old(self).snapshots(),
            old(self).reliable() && (r matches Err(e) && spec_is_concurrency_error(e)) ==> version
                != events_at(old(self).journal(), A::model_id(aggregate.model())).len(),
            version != events_at(old(self).journal(), A::model_id(aggregate.model())).len() ==> !(r
                is Ok),
            old(self).reliable() && version != events_at(
                old(self).journal(),
                A::model_id(aggregate.model()),
            ).len() ==> (r matches Err(e) && spec_is_concurrency_error(e)),
            old(self).reliable() && version == events_at(
                old(self).journal(),
                A::model_id(aggregate.model()),
            ).len() && version + events@.len() <= usize::MAX ==> r is Ok,
            old(self).reliable() && version == events_at(
                old(self).journal(),
                A::model_id(aggregate.model()),
            ).len() && version + events@.len() > usize::MAX ==> (r matches Err(e)
                && spec_is_database_error(e)),
            r matches Ok(envs) ==> {
                let id = A::model_id(aggregate.model());
                let j0 = old(self).journal();
                let j1 = final (self).journal();
                let n = events@.len() as int;
                &&& version == events_at(j0, id).len()
                &&& built_envelopes(
                    envs@,
                    id,
                    version as int,
                    events@,
                    metadata@,
                    context.now_spec(),
                )
                &&& events_at(j1, id).len() == version + n
                &&& events_at(j1, id).take(version as int) == events_at(j0, id)
                &&& built_envelopes(
                    events_at(j1, id).skip(version as int),
                    id,
                    version as int,
                    events@,
                    metadata@,
                    context.now_spec(),
                )
                &&& envs_like(envs@, events_at(j1, id).skip(version as int))
                &&& forall|k: Seq<char>| k != id ==> #[trigger] events_at(j1, k) == events_at(
                    j0,
                    k,
                )
                &&& final (self).snapshots().dom() == old(self).snapshots().dom().insert(id)
                &&& final (self).snapshots()[id].aggregate_id@ == id
                &&& final (self).snapshots()[id].version == version + n
                &&& final (self).snapshots()[id].state.model() == aggregate.model()
                &&& forall|k: Seq<char>|
                    k != id && old(self).snapshots().dom().contains(k)
                        ==> #[trigger] final (self).snapshots()[k] == old(self).snapshots()[k]
            },
    {
        let ghost id = A::model_id(aggregate.model());
        let ghost j0 = self.journal();
        let session = match self.persist.start_session() {
            Ok(s) => s,
            Err(e) => {
                return Err(e);
            },
        };
        let latest = match self.persist.fetch_latest_event(aggregate, &session) {
            Ok(l) => l,
            Err(e) => {
                let _ = self.persist.abort_session(session);
                return Err(e);
            },
        };
        let latest_version = match &latest {
            Some(e) => e.version,
            None => 0,
        };
        proof {
            assert(wf_entry(id, events_at(j0, id)));
            match latest {
                Some(e) => {
                    assert(e.version == events_at(j0, id).last().version);
                    assert(events_at(j0, id).last() == events_at(j0, id)[events_at(
                        j0,
                        id,
                    ).len() - 1]);
                },
                None => {},
            }
            assert(latest_version == events_at(j0, id).len());
        }
        if version != latest_version {
            let _ = self.persist.abort_session(session);
            return Err(CqrsError::concurrency_error("Version conflict".to_owned()));
        }
        if events.len() > usize::MAX - version {
            let _ = self.persist.abort_session(session);
            return Err(CqrsError::database_error("The journal is full".to_owned()));
        }
        let n = events.len();
        let mut envelopes: Vec<EventEnvelope<A::Event>> = Vec::new();
        let mut i: usize = 0;
        while i < n
            invariant
                n == events@.len(),
                0 <= i <= n,
                version + n <= usize::MAX,
                envelopes@.len() == i,
                metadata.wf(),
                built_envelopes(
                    envelopes@,
                    A::model_id(aggregate.model()),
                    version as int,
                    events@.take(i as int),
                    metadata@,
                    context.now_spec(),
                ),
            decreases n - i,
        {
            let env = EventEnvelope {
                event_id: context.next_uuid(),
                aggregate_id: aggregate.aggregate_id(),
                version: version + i + 1,
                payload: events[i].clone_event(),
                metadata: metadata.duplicate(),
                at: context.now(),
            };
            envelopes.push(env);
            proof {
                assert(events@.take(i + 1).drop_last() =~= events@.take(i as int));
                assert(events@.take(i + 1)[i as int] == events@[i as int]);
            }
            i = i + 1;
        }
        proof {
            assert(events@.take(n as int) =~= events@);
        }
        let committed = clone_envelopes(&envelopes);
        let session = match self.persist.save_events(envelopes, session) {
            Ok(s) => s,
            Err(e) => {
                return Err(e);
            },
        };
        let next_version = version + n;
        let session = match self.persist.save_snapshot(aggregate, next_version, session) {
            Ok(s) => s,
            Err(e) => {
                return Err(e);
            },
        };
        let ghost pending = P::pending_events(&session);
        let ghost pending_snap = P::pending_snapshot(&session);
        match self.persist.close_session(session) {
            Ok(()) => {},
            Err(e) => {
                return Err(e);
            },
        }
        proof {
            let j1 = self.journal();
            let sn = pending_snap->0;
            if pending.len() > 0 {
                lemma_apply_batch_single(j0, id, pending);
            }
            assert(events_at(j1, id) =~= events_at(j0, id) + pending);
            assert(payloads_of(events_at(j0, id) + pending) =~= payloads_of(events_at(j0, id))
                + events@);
            lemma_append_preserves_density(j0, id, pending);
            assert(wf_journal(j1)) by {
                if pending.len() > 0 {
                } else {
                    assert(j1 =~= j0);
                }
            }
            assert forall|k: Seq<char>| k != id implies #[trigger] events_at(j1, k) == events_at(
                j0,
                k,
            ) by {
                if pending.len() > 0 {
                } else {
                    assert(j1 =~= j0);
                }
            }
            assert(self.snapshots() == old(self).snapshots().insert(id, sn));
            assert(self.snapshots().dom() =~= old(self).snapshots().dom().insert(id));
            assert(snapshots_consistent::<A>(self.snapshots(), j1)) by {
                assert forall|k: Seq<char>| #[trigger]
                    self.snapshots().dom().contains(k) implies {
                    let s = self.snapshots()[k];
                    &&& s.aggregate_id@ == k
                    &&& s.version == events_at(j1, k).len()
                    &&& fold_model::<A>(
                        A::with_id_model(A::default_model(), k),
                        payloads_of(events_at(j1, k)),
                    ) == Some(s.state.model())
                } by {
                    if k == id {
                    } else {
                        assert(events_at(j1, k) == events_at(j0, k));
                    }
                }
                assert forall|k: Seq<char>| #[trigger]
                    events_at(j1, k).len() > 0 implies self.snapshots().dom().contains(k) by {
                    if k != id {
                        assert(events_at(j1, k) == events_at(j0, k));
                    }
                }
            }
            assert(events_at(j1, id).take(version as int) =~= events_at(j0, id));
            assert(events_at(j1, id).skip(version as int) =~= pending);
        }
        Ok(committed)
    }
}

} // verus!
