//! The in-memory reference implementation of the storage port.
//!
//! The journal is one append-only log of envelopes, as a journal table would
//! be; an aggregate's sequence is the log filtered by its id. The snapshot
//! table is a map keyed by aggregate id. A session stages its writes and
//! `close_session` applies them all at once, so an aborted or dropped
//! session leaves the store untouched.

use vstd::prelude::*;

use crate::aggregate::Aggregate;
use crate::errors::CqrsError;
use crate::event::{envs_like, EventEnvelope};
use crate::snapshot::Snapshot;
use crate::store::{
    above_version, apply_batch, by_aggregate, by_aggregate_above, events_at, lemma_filter_filter,
    EventStoreStorage,
};
use crate::string_map::StringMap;

verus! {

/// A session of the in-memory store: the staged writes themselves.
pub struct InMemorySession<A: Aggregate> {
    pending_events: Vec<EventEnvelope<A::Event>>,
    pending_snapshot: Option<Snapshot<A>>,
}

/// The in-memory store: an append-only envelope log and a snapshot table.
pub struct InMemoryPersist<A: Aggregate> {
    snapshots: StringMap<Snapshot<A>>,
    log: Vec<EventEnvelope<A::Event>>,
}

impl<A: Aggregate> InMemoryPersist<A> {
    pub fn new() -> (r: Self)
        ensures
            r.inv(),
            r.reliable(),
            r.snapshots() == Map::<Seq<char>, Snapshot<A>>::empty(),
            forall|id: Seq<char>|
                #[trigger] events_at(r.journal(), id) == Seq::<EventEnvelope<A::Event>>::empty(),
    {
        let r = InMemoryPersist { snapshots: StringMap::new(), log: Vec::new() };
        proof {
            reveal(Seq::filter);
            assert forall|id: Seq<char>| #[trigger] events_at(r.journal(), id) == Seq::<
                EventEnvelope<A::Event>,
            >::empty() by {
                assert(r.log@.filter(by_aggregate::<A::Event>(id)) =~= Seq::<
                    EventEnvelope<A::Event>,
                >::empty());
            }
        }
        r
    }
}

impl<A: Aggregate> Default for InMemoryPersist<A> {
    fn default() -> (r: Self)
        ensures
            r.inv(),
            r.reliable(),
            r.snapshots() == Map::<Seq<char>, Snapshot<A>>::empty(),
            forall|id: Seq<char>|
                #[trigger] events_at(r.journal(), id) == Seq::<EventEnvelope<A::Event>>::empty(),
    {
        InMemoryPersist::new()
    }
}

impl<A: Aggregate> EventStoreStorage<A> for InMemoryPersist<A> {
    type Session = InMemorySession<A>;

    closed spec fn inv(&self) -> bool {
        self.snapshots.wf()
    }

    closed spec fn reliable(&self) -> bool {
        true
    }

    closed spec fn snapshots(&self) -> Map<Seq<char>, Snapshot<A>> {
        self.snapshots@
    }

    closed spec fn journal(&self) -> Map<Seq<char>, Seq<EventEnvelope<A::Event>>> {
        Map::new(
            |id: Seq<char>| true,
            |id: Seq<char>| self.log@.filter(by_aggregate::<A::Event>(id)),
        )
    }

    closed spec fn pending_events(s: &InMemorySession<A>) -> Seq<EventEnvelope<A::Event>> {
        s.pending_events@
    }

    closed spec fn pending_snapshot(s: &InMemorySession<A>) -> Option<Snapshot<A>> {
        s.pending_snapshot
    }

    fn start_session(&self) -> (r: Result<InMemorySession<A>, CqrsError>) {
        Ok(InMemorySession { pending_events: Vec::new(), pending_snapshot: None })
    }

    fn close_session(&mut self, session: InMemorySession<A>) -> (r: Result<(), CqrsError>) {
        let ghost all = session.pending_events@;
        let ghost j0 = self.journal();
        let InMemorySession { pending_events, pending_snapshot } = session;
        let mut evs = pending_events;
        let ghost mut consumed: Seq<EventEnvelope<A::Event>> = Seq::empty();
        while evs.len() > 0
            invariant
                self.inv(),
                self.snapshots == old(self).snapshots,
                all =~= consumed + evs@,
                j0 == old(self).journal(),
                self.journal() == apply_batch(j0, consumed),
            decreases evs.len(),
        {
            let e = evs.remove(0);
            let ghost pre_log = self.log@;
            let ghost pre_j = self.journal();
            let ghost eid = e.aggregate_id@;
            self.log.push(e);
            proof {
                let post_log = self.log@;
                assert(post_log == pre_log.push(e));
                reveal(Seq::filter);
                assert(post_log.drop_last() =~= pre_log);
                assert(post_log.last() == e);
                assert forall|id: Seq<char>| true implies #[trigger] self.journal()[id] == (
                if id == eid {
                    events_at(pre_j, id).push(e)
                } else {
                    pre_j[id]
                }) by {
                    if id == eid {
                        assert(by_aggregate::<A::Event>(id)(e));
                        assert(post_log.filter(by_aggregate::<A::Event>(id)) == pre_log.filter(
                            by_aggregate::<A::Event>(id),
                        ).push(e));
                    } else {
                        assert(!by_aggregate::<A::Event>(id)(e));
                        assert(post_log.filter(by_aggregate::<A::Event>(id)) == pre_log.filter(
                            by_aggregate::<A::Event>(id),
                        ));
                    }
                }
                assert(self.journal() =~= pre_j.insert(eid, events_at(pre_j, eid).push(e)));
                let consumed2 = consumed.push(e);
                assert(consumed2.drop_last() =~= consumed);
                assert(apply_batch(j0, consumed2) == self.journal());
                consumed = consumed2;
                assert(all =~= consumed + evs@);
            }
        }
        proof {
            assert(consumed =~= all);
        }
        match pending_snapshot {
            Some(sn) => {
                let key = sn.aggregate_id.clone();
                self.snapshots.insert(key, sn);
            },
            None => {},
        }
        Ok(())
    }

    fn abort_session(&self, session: InMemorySession<A>) -> (r: Result<(), CqrsError>) {
        Ok(())
    }

    fn fetch_snapshot(&self, aggregate_id: &str) -> (r: Result<Option<Snapshot<A>>, CqrsError>) {
        let key = aggregate_id.to_owned();
        match self.snapshots.get(&key) {
            Some(s) => Ok(Some(s.clone_snap())),
            None => Ok(None),
        }
    }

    fn fetch_all_events(&self, aggregate_id: &str) -> (r: Result<
        Vec<EventEnvelope<A::Event>>,
        CqrsError,
    >) {
        let key = aggregate_id.to_owned();
        let n = self.log.len();
        let mut out: Vec<EventEnvelope<A::Event>> = Vec::new();
        let mut i: usize = 0;
        while i < n
            invariant
                n == self.log@.len(),
                0 <= i <= n,
                key@ == aggregate_id@,
                envs_like(
                    out@,
                    self.log@.take(i as int).filter(by_aggregate::<A::Event>(aggregate_id@)),
                ),
            decreases n - i,
        {
            let ghost p = by_aggregate::<A::Event>(aggregate_id@);
            let e = &self.log[i];
            proof {
                reveal(Seq::filter);
                assert(self.log@.take(i + 1).drop_last() =~= self.log@.take(i as int));
                assert(self.log@.take(i + 1).last() == self.log@[i as int]);
            }
            if e.aggregate_id == key {
                let ghost pre = out@;
                out.push(e.clone_env());
                proof {
                    reveal(Seq::filter);
                    let f1 = self.log@.take(i + 1).filter(p);
                    let f0 = self.log@.take(i as int).filter(p);
                    assert(p(self.log@[i as int]));
                    assert(f1 == f0.push(self.log@[i as int]));
                    assert forall|j: int| 0 <= j < out@.len() implies crate::event::env_like(
                        #[trigger] out@[j],
                        f1[j],
                    ) by {
                        if j < pre.len() {
                            assert(out@[j] == pre[j] && f1[j] == f0[j]);
                        }
                    }
                }
            } else {
                proof {
                    reveal(Seq::filter);
                    assert(!p(self.log@[i as int]));
                    assert(self.log@.take(i + 1).filter(p) == self.log@.take(i as int).filter(p));
                }
            }
            i = i + 1;
        }
        proof {
            assert(self.log@.take(n as int) =~= self.log@);
        }
        Ok(out)
    }

    fn fetch_events_from_version(&self, aggregate_id: &str, version: usize) -> (r: Result<
        Vec<EventEnvelope<A::Event>>,
        CqrsError,
    >) {
        let key = aggregate_id.to_owned();
        let n = self.log.len();
        let mut out: Vec<EventEnvelope<A::Event>> = Vec::new();
        let mut i: usize = 0;
        while i < n
            invariant
                n == self.log@.len(),
                0 <= i <= n,
                key@ == aggregate_id@,
                envs_like(
                    out@,
                    self.log@.take(i as int).filter(
                        by_aggregate_above::<A::Event>(aggregate_id@, version as int),
                    ),
                ),
            decreases n - i,
        {
            let ghost p = by_aggregate_above::<A::Event>(aggregate_id@, version as int);
            let e = &self.log[i];
            proof {
                reveal(Seq::filter);
                assert(self.log@.take(i + 1).drop_last() =~= self.log@.take(i as int));
                assert(self.log@.take(i + 1).last() == self.log@[i as int]);
            }
            if e.aggregate_id == key && e.version > version {
                let ghost pre = out@;
                out.push(e.clone_env());
                proof {
                    reveal(Seq::filter);
                    let f1 = self.log@.take(i + 1).filter(p);
                    let f0 = self.log@.take(i as int).filter(p);
                    assert(p(self.log@[i as int]));
                    assert(f1 == f0.push(self.log@[i as int]));
                    assert forall|j: int| 0 <= j < out@.len() implies crate::event::env_like(
                        #[trigger] out@[j],
                        f1[j],
                    ) by {
                        if j < pre.len() {
                            assert(out@[j] == pre[j] && f1[j] == f0[j]);
                        }
                    }
                }
            } else {
                proof {
                    reveal(Seq::filter);
                    assert(!p(self.log@[i as int]));
                    assert(self.log@.take(i + 1).filter(p) == self.log@.take(i as int).filter(p));
                }
            }
            i = i + 1;
        }
        proof {
            assert(self.log@.take(n as int) =~= self.log@);
            lemma_filter_filter(
                self.log@,
                by_aggregate::<A::Event>(aggregate_id@),
                above_version::<A::Event>(version as int),
                by_aggregate_above::<A::Event>(aggregate_id@, version as int),
            );
        }
        Ok(out)
    }

    fn fetch_events_paged(&self, aggregate_id: &str, page: usize, page_size: usize) -> (r: Result<
        (Vec<EventEnvelope<A::Event>>, usize),
        CqrsError,
    >) {
        let all = self.fetch_all_events(aggregate_id)?;
        let total = all.len();
        let start = match (page - 1).checked_mul(page_size) {
            Some(s) => {
                if s <= total {
                    s
                } else {
                    total
                }
            },
            None => total,
        };
        let end = match start.checked_add(page_size) {
            Some(e) => {
                if e <= total {
                    e
                } else {
                    total
                }
            },
            None => total,
        };
        let ghost target = events_at(self.journal(), aggregate_id@);
        let mut out: Vec<EventEnvelope<A::Event>> = Vec::new();
        let mut i: usize = start;
        while i < end
            invariant
                start <= i <= end <= all@.len(),
                envs_like(out@, all@.subrange(start as int, i as int)),
                all@.len() == target.len(),
                forall|k: int|
                    0 <= k < all@.len() ==> crate::event::env_like(#[trigger] all@[k], target[k]),
            decreases end - i,
        {
            let ghost pre = out@;
            out.push(all[i].clone_env());
            proof {
                assert(all@.subrange(start as int, i + 1).drop_last() =~= all@.subrange(
                    start as int,
                    i as int,
                ));
                let s1 = all@.subrange(start as int, i + 1);
                assert(s1.last() == all@[i as int]);
                assert forall|j: int| 0 <= j < out@.len() implies crate::event::env_like(
                    #[trigger] out@[j],
                    s1[j],
                ) by {
                    if j < pre.len() {
                        assert(out@[j] == pre[j] && s1[j] == all@.subrange(
                            start as int,
                            i as int,
                        )[j]);
                    }
                }
            }
            i = i + 1;
        }
        Ok((out, total))
    }

    fn fetch_latest_event(&self, aggregate: &A, session: &InMemorySession<A>) -> (r: Result<
        Option<EventEnvelope<A::Event>>,
        CqrsError,
    >) {
        let key = aggregate.aggregate_id();
        let n = self.log.len();
        let mut latest: Option<usize> = None;
        let mut i: usize = 0;
        while i < n
            invariant
                n == self.log@.len(),
                0 <= i <= n,
                key@ == A::model_id(aggregate.model()),
                match latest {
                    Some(mi) => mi < i && self.log@.take(i as int).filter(
                        by_aggregate::<A::Event>(key@),
                    ).len() > 0 && self.log@.take(i as int).filter(by_aggregate::<A::Event>(key@)).last()
                        == self.log@[mi as int],
                    None => self.log@.take(i as int).filter(by_aggregate::<A::Event>(key@)).len()
                        == 0,
                },
            decreases n - i,
        {
            let ghost p = by_aggregate::<A::Event>(key@);
            let e = &self.log[i];
            proof {
                reveal(Seq::filter);
                assert(self.log@.take(i + 1).drop_last() =~= self.log@.take(i as int));
                assert(self.log@.take(i + 1).last() == self.log@[i as int]);
            }
            if e.aggregate_id == key {
                latest = Some(i);
                proof {
                    reveal(Seq::filter);
                    assert(p(self.log@[i as int]));
                    assert(self.log@.take(i + 1).filter(p) == self.log@.take(i as int).filter(
                        p,
                    ).push(self.log@[i as int]));
                }
            } else {
                proof {
                    reveal(Seq::filter);
                    assert(!p(self.log@[i as int]));
                    assert(self.log@.take(i + 1).filter(p) == self.log@.take(i as int).filter(p));
                }
            }
            i = i + 1;
        }
        proof {
            assert(self.log@.take(n as int) =~= self.log@);
        }
        match latest {
            Some(mi) => Ok(Some(self.log[mi].clone_env())),
            None => Ok(None),
        }
    }

    fn save_events(&self, events: Vec<EventEnvelope<A::Event>>, session: InMemorySession<A>) -> (r:
        Result<InMemorySession<A>, CqrsError>) {
        let InMemorySession { pending_events, pending_snapshot } = session;
        let mut pending = pending_events;
        let mut incoming = events;
        pending.append(&mut incoming);
        Ok(InMemorySession { pending_events: pending, pending_snapshot })
    }

    fn save_snapshot(&self, aggregate: &A, version: usize, session: InMemorySession<A>) -> (r:
        Result<InMemorySession<A>, CqrsError>) {
        let InMemorySession { pending_events, pending_snapshot } = session;
        let snapshot = Snapshot {
            aggregate_id: aggregate.aggregate_id(),
            state: aggregate.clone_state(),
            version,
        };
        Ok(InMemorySession { pending_events, pending_snapshot: Some(snapshot) })
    }
}

} // verus!
