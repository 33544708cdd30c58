//! A dispatcher that records the envelopes it receives in memory, keyed by
//! the aggregate id it was called with. Useful for tests and simple
//! applications; it can also be built in a failing mode, which records
//! nothing and reports a failure on every delivery, to exercise dispatcher
//! isolation.

use vstd::prelude::*;

use crate::aggregate::Aggregate;
use crate::context::CqrsContext;
use crate::denormalizer::Dispatcher;
use crate::errors::CqrsError;
use crate::event::{clone_envelopes, env_like, envs_like, Event, EventEnvelope};
use crate::string_map::StringMap;

verus! {

/// The deliveries keyed to one aggregate id, as a filter predicate.
pub open spec fn keyed_to<E>(id: Seq<char>) -> spec_fn((String, EventEnvelope<E>)) -> bool {
    |p: (String, EventEnvelope<E>)| p.0@ == id
}

/// A simple in-memory dispatcher that stores events in memory.
pub struct InMemoryDispatcher<A: Aggregate> {
    log: Vec<(String, EventEnvelope<A::Event>)>,
    fail: bool,
}

impl<A: Aggregate> InMemoryDispatcher<A> {
    /// The envelopes delivered under one aggregate id, in delivery order.
    pub closed spec fn received_at(&self, id: Seq<char>) -> Seq<EventEnvelope<A::Event>> {
        self.log@.filter(keyed_to::<A::Event>(id)).map_values(
            |p: (String, EventEnvelope<A::Event>)| p.1,
        )
    }

    /// Whether this dispatcher refuses every delivery.
    pub closed spec fn fail_spec(&self) -> bool {
        self.fail
    }

    /// A recording dispatcher.
    pub fn new() -> (r: Self)
        ensures
            !r.fail_spec(),
            forall|id: Seq<char>| #[trigger] r.received_at(id) =~= Seq::<
                EventEnvelope<A::Event>,
            >::empty(),
    {
        let r = InMemoryDispatcher { log: Vec::new(), fail: false };
        proof {
            reveal(Seq::filter);
            assert forall|id: Seq<char>| #[trigger] r.received_at(id) =~= Seq::<
                EventEnvelope<A::Event>,
            >::empty() by {
                assert(r.log@.filter(keyed_to::<A::Event>(id)) =~= Seq::<
                    (String, EventEnvelope<A::Event>),
                >::empty());
            }
        }
        r
    }

    /// A dispatcher that fails every delivery and records nothing.
    pub fn failing() -> (r: Self)
        ensures
            r.fail_spec(),
    {
        InMemoryDispatcher { log: Vec::new(), fail: true }
    }

    /// The recorded envelopes for one aggregate.
    pub fn get_events(&self, aggregate_id: &str) -> (r: Vec<EventEnvelope<A::Event>>)
        ensures
            envs_like(r@, self.received_at(aggregate_id@)),
    {
        let key = aggregate_id.to_owned();
        let ghost pred = keyed_to::<A::Event>(aggregate_id@);
        let n = self.log.len();
        let mut out: Vec<EventEnvelope<A::Event>> = Vec::new();
        let mut i: usize = 0;
        while i < n
            invariant
                n == self.log@.len(),
                0 <= i <= n,
                key@ == aggregate_id@,
                pred == keyed_to::<A::Event>(aggregate_id@),
                envs_like(
                    out@,
                    self.log@.take(i as int).filter(pred).map_values(
                        |p: (String, EventEnvelope<A::Event>)| p.1,
                    ),
                ),
            decreases n - i,
        {
            let p = &self.log[i];
            proof {
                reveal(Seq::filter);
                assert(self.log@.take(i + 1).drop_last() =~= self.log@.take(i as int));
                assert(self.log@.take(i + 1).last() == self.log@[i as int]);
            }
            if p.0 == key {
                let ghost pre = out@;
                out.push(p.1.clone_env());
                proof {
                    let f = |q: (String, EventEnvelope<A::Event>)| q.1;
                    let f1 = self.log@.take(i + 1).filter(pred).map_values(f);
                    let f0 = self.log@.take(i as int).filter(pred).map_values(f);
                    assert(pred(self.log@[i as int]));
                    assert(self.log@.take(i + 1).filter(pred) == self.log@.take(i as int).filter(
                        pred,
                    ).push(self.log@[i as int]));
                    assert(f1 =~= f0.push(self.log@[i as int].1));
                    assert forall|j: int| 0 <= j < out@.len() implies env_like(
                        #[trigger] out@[j],
                        f1[j],
                    ) by {
                        if j < pre.len() {
                            assert(out@[j] == pre[j] && f1[j] == f0[j]);
                        }
                    }
                }
            } else {
                proof {
                    assert(!pred(self.log@[i as int]));
                    assert(self.log@.take(i + 1).filter(pred) == self.log@.take(i as int).filter(
                        pred,
                    ));
                }
            }
            i = i + 1;
        }
        proof {
            assert(self.log@.take(n as int) =~= self.log@);
        }
        out
    }

    /// Every delivery so far, grouped by aggregate id: each held key maps to
    /// the envelopes delivered under it, in delivery order, and an id with no
    /// delivery is not held.
    pub fn get_all_events(&self) -> (r: StringMap<Vec<EventEnvelope<A::Event>>>)
        ensures
            r.wf(),
            forall|id: Seq<char>| #[trigger]
                r@.dom().contains(id) ==> self.received_at(id).len() > 0 && envs_like(
                    r@[id]@,
                    self.received_at(id),
                ),
            forall|id: Seq<char>|
                #![trigger self.received_at(id)]
                self.received_at(id).len() > 0 ==> r@.dom().contains(id),
    {
        let ghost f = |p: (String, EventEnvelope<A::Event>)| p.1;
        let n = self.log.len();
        let mut out: StringMap<Vec<EventEnvelope<A::Event>>> = StringMap::new();
        let mut i: usize = 0;
        while i < n
            invariant
                n == self.log@.len(),
                0 <= i <= n,
                out.wf(),
                f == (|p: (String, EventEnvelope<A::Event>)| p.1),
                forall|id: Seq<char>| #[trigger]
                    out@.dom().contains(id) ==> self.log@.take(i as int).filter(
                        keyed_to::<A::Event>(id),
                    ).map_values(f).len() > 0 && envs_like(
                        out@[id]@,
                        self.log@.take(i as int).filter(keyed_to::<A::Event>(id)).map_values(f),
                    ),
                forall|id: Seq<char>|
                    #![trigger keyed_to::<A::Event>(id)]
                    self.log@.take(i as int).filter(keyed_to::<A::Event>(id)).map_values(f).len()
                        > 0 ==> out@.dom().contains(id),
            decreases n - i,
        {
            let p = &self.log[i];
            let key = p.0.clone();
            let env = p.1.clone_env();
            let ghost pre_out = out;
            let next: Vec<EventEnvelope<A::Event>> = match out.get(&key) {
                Some(cur) => {
                    let mut v = clone_envelopes(cur);
                    v.push(env);
                    v
                },
                None => {
                    let mut v: Vec<EventEnvelope<A::Event>> = Vec::new();
                    v.push(env);
                    v
                },
            };
            out.insert(key, next);
            proof {
                reveal(Seq::filter);
                assert(self.log@.take(i + 1).drop_last() =~= self.log@.take(i as int));
                assert(self.log@.take(i + 1).last() == self.log@[i as int]);
                assert(out@ == pre_out@.insert(key@, next));
                assert forall|id: Seq<char>| #[trigger]
                    out@.dom().contains(id) implies self.log@.take(i + 1).filter(
                    keyed_to::<A::Event>(id),
                ).map_values(f).len() > 0 && envs_like(
                    out@[id]@,
                    self.log@.take(i + 1).filter(keyed_to::<A::Event>(id)).map_values(f),
                ) by {
                    let kp = keyed_to::<A::Event>(id);
                    let prev = self.log@.take(i as int).filter(kp).map_values(f);
                    if id == key@ {
                        assert(kp(self.log@[i as int]));
                        assert(self.log@.take(i + 1).filter(kp) == self.log@.take(
                            i as int,
                        ).filter(kp).push(self.log@[i as int]));
                        let cur_seq = self.log@.take(i + 1).filter(kp).map_values(f);
                        assert(cur_seq =~= prev.push(self.log@[i as int].1));
                        assert(out@[id] == next);
                        if pre_out@.dom().contains(id) {
                            assert(envs_like(pre_out@[id]@, prev));
                        } else {
                            assert(prev.len() == 0);
                        }
                        assert(env_like(env, self.log@[i as int].1));
                        assert forall|j: int| 0 <= j < next@.len() implies env_like(
                            #[trigger] next@[j],
                            cur_seq[j],
                        ) by {
                            if j < next@.len() - 1 {
                                assert(env_like(next@[j], pre_out@[id]@[j]));
                                assert(env_like(pre_out@[id]@[j], prev[j]));
                            } else {
                                assert(next@[j] == env);
                            }
                        }
                    } else {
                        assert(!kp(self.log@[i as int]));
                        assert(self.log@.take(i + 1).filter(kp) == self.log@.take(i as int).filter(
                            kp,
                        ));
                        assert(pre_out@.dom().contains(id) && out@[id] == pre_out@[id]);
                    }
                }
                assert forall|id: Seq<char>|
                    self.log@.take(i + 1).filter(#[trigger] keyed_to::<A::Event>(id)).map_values(
                        f,
                    ).len() > 0 implies out@.dom().contains(id) by {
                    let kp = keyed_to::<A::Event>(id);
                    if id == key@ {
                    } else {
                        assert(!kp(self.log@[i as int]));
                        assert(self.log@.take(i + 1).filter(kp) == self.log@.take(i as int).filter(
                            kp,
                        ));
                    }
                }
            }
            i = i + 1;
        }
        proof {
            assert(self.log@.take(n as int) =~= self.log@);
            assert forall|id: Seq<char>| #[trigger]
                out@.dom().contains(id) implies self.received_at(id).len() > 0 && envs_like(
                out@[id]@,
                self.received_at(id),
            ) by {
                assert(self.received_at(id) == self.log@.take(n as int).filter(
                    keyed_to::<A::Event>(id),
                ).map_values(f));
            }
            assert forall|id: Seq<char>|
                #![trigger self.received_at(id)]
                self.received_at(id).len() > 0 implies out@.dom().contains(id) by {
                assert(self.received_at(id) == self.log@.take(n as int).filter(
                    keyed_to::<A::Event>(id),
                ).map_values(f));
            }
        }
        out
    }

    /// Drop everything recorded so far.
    pub fn clear(&mut self)
        ensures
            final (self).fail_spec() == old(self).fail_spec(),
            forall|id: Seq<char>| #[trigger] final (self).received_at(id) =~= Seq::<
                EventEnvelope<A::Event>,
            >::empty(),
    {
        self.log = Vec::new();
        proof {
            reveal(Seq::filter);
            assert forall|id: Seq<char>| #[trigger] self.received_at(id) =~= Seq::<
                EventEnvelope<A::Event>,
            >::empty() by {
                assert(self.log@.filter(keyed_to::<A::Event>(id)) =~= Seq::<
                    (String, EventEnvelope<A::Event>),
                >::empty());
            }
        }
    }
}

impl<A: Aggregate> Dispatcher<A> for InMemoryDispatcher<A> {
    open spec fn ready(&self) -> bool {
        true
    }

    /// A failing dispatcher reports an error and records nothing; a
    /// recording one accepts, appends a copy of every envelope under the
    /// given id, and leaves every other id untouched.
    open spec fn dispatched(
        pre: Self,
        post: Self,
        aggregate_id: Seq<char>,
        events: Seq<EventEnvelope<A::Event>>,
        outcome: Result<(), CqrsError>,
    ) -> bool {
        if pre.fail_spec() {
            &&& post == pre
            &&& outcome is Err
        } else {
            &&& outcome is Ok
            &&& !post.fail_spec()
            &&& post.received_at(aggregate_id).len() == pre.received_at(aggregate_id).len()
                + events.len()
            &&& post.received_at(aggregate_id).take(pre.received_at(aggregate_id).len() as int)
                == pre.received_at(aggregate_id)
            &&& envs_like(
                post.received_at(aggregate_id).skip(pre.received_at(aggregate_id).len() as int),
                events,
            )
            &&& forall|k: Seq<char>|
                k != aggregate_id ==> #[trigger] post.received_at(k) == pre.received_at(k)
        }
    }

    fn dispatch(
        &mut self,
        aggregate_id: &str,
        events: &Vec<EventEnvelope<A::Event>>,
        context: &CqrsContext,
    ) -> (r: Result<(), CqrsError>) {
        if self.fail {
            return Err(CqrsError::user_error("Dispatcher failure".to_owned()));
        }
        let ghost orig = *self;
        let ghost pred = keyed_to::<A::Event>(aggregate_id@);
        let n = events.len();
        let mut i: usize = 0;
        while i < n
            invariant
                n == events@.len(),
                0 <= i <= n,
                !self.fail,
                !orig.fail,
                self.received_at(aggregate_id@).len() == orig.received_at(aggregate_id@).len() + i,
                self.received_at(aggregate_id@).take(
                    orig.received_at(aggregate_id@).len() as int,
                ) == orig.received_at(aggregate_id@),
                envs_like(
                    self.received_at(aggregate_id@).skip(
                        orig.received_at(aggregate_id@).len() as int,
                    ),
                    events@.take(i as int),
                ),
                forall|k: Seq<char>|
                    k != aggregate_id@ ==> #[trigger] self.received_at(k) == orig.received_at(k),
            decreases n - i,
        {
            let entry = (aggregate_id.to_owned(), events[i].clone_env());
            let ghost pre_log = self.log@;
            let ghost pre_self = *self;
            self.log.push(entry);
            proof {
                reveal(Seq::filter);
                assert(self.log@.drop_last() =~= pre_log);
                assert(self.log@.last() == (entry.0, entry.1));
                let f = |q: (String, EventEnvelope<A::Event>)| q.1;
                assert forall|k: Seq<char>| true implies #[trigger] self.received_at(k) == (
                if k == aggregate_id@ {
                    pre_self.received_at(k).push(entry.1)
                } else {
                    pre_self.received_at(k)
                }) by {
                    let kp = keyed_to::<A::Event>(k);
                    if k == aggregate_id@ {
                        assert(kp((entry.0, entry.1)));
                        assert(self.log@.filter(kp) == pre_log.filter(kp).push(
                            (entry.0, entry.1),
                        ));
                        assert(self.log@.filter(kp).map_values(f) =~= pre_log.filter(
                            kp,
                        ).map_values(f).push(entry.1));
                    } else {
                        assert(!kp((entry.0, entry.1)));
                        assert(self.log@.filter(kp) == pre_log.filter(kp));
                    }
                }
                let base = orig.received_at(aggregate_id@).len() as int;
                assert(self.received_at(aggregate_id@).take(base) =~= pre_self.received_at(
                    aggregate_id@,
                ).take(base));
                assert(self.received_at(aggregate_id@).skip(base) =~= pre_self.received_at(
                    aggregate_id@,
                ).skip(base).push(entry.1));
                assert(events@.take(i + 1).drop_last() =~= events@.take(i as int));
                assert(env_like(entry.1, events@[i as int]));
                assert forall|j: int|
                    0 <= j < self.received_at(aggregate_id@).skip(base).len() implies env_like(
                    #[trigger] self.received_at(aggregate_id@).skip(base)[j],
                    events@.take(i + 1)[j],
                ) by {
                    if j < i {
                        assert(self.received_at(aggregate_id@).skip(base)[j]
                            == pre_self.received_at(aggregate_id@).skip(base)[j]);
                        assert(events@.take(i + 1)[j] == events@.take(i as int)[j]);
                    }
                }
            }
            i = i + 1;
        }
        proof {
            assert(events@.take(n as int) =~= events@);
        }
        Ok(())
    }
}

} // verus!
