//! The reference dispatcher: it projects committed envelopes into read-side
//! views through a storage port.
//!
//! For each envelope the dispatcher loads the view row the envelope names,
//! scoped to the committing aggregate, lets the view absorb the envelope,
//! and saves the result if it changed. `project_events` is the mathematical
//! statement of that loop.

use vstd::prelude::*;

use crate::aggregate::Aggregate;
use crate::context::CqrsContext;
use crate::denormalizer::{Dispatcher, ViewProjection};
use crate::errors::CqrsError;
use crate::event::EventEnvelope;
use crate::read::storage::{parent_matches, HasId, Storage, ViewQuery};

verus! {

/// One projection step: the row the envelope names (absent when there is
/// none in the parent's scope) absorbs the envelope, and the result, if any,
/// is stored under its own id.
pub open spec fn project_event<A: Aggregate, V: ViewProjection<A> + HasId>(
    views: Map<Seq<char>, V>,
    parent: Option<Seq<char>>,
    e: EventEnvelope<A::Event>,
) -> Map<Seq<char>, V> {
    let vid = V::view_id_spec(&e);
    let prev = if views.dom().contains(vid) && parent_matches::<V>(views[vid], parent) {
        Some(views[vid])
    } else {
        None
    };
    match V::update_spec(prev, &e) {
        Some(next) => views.insert(next.id_spec(), next),
        None => views,
    }
}

/// For a child-scoped view type, every row the projection can produce names
/// its parent; an aggregate-scoped type satisfies this vacuously. Under this
/// condition a reliable storage accepts every save the dispatcher issues.
pub open spec fn child_rows_parented<A: Aggregate, V: ViewProjection<A> + HasId>() -> bool {
    V::parent_field_spec() is Some ==> forall|prev: Option<V>, e: EventEnvelope<A::Event>|
        (#[trigger] V::update_spec(prev, &e)) matches Some(next) ==> next.parent_id_spec() is Some
}

/// The projection loop over a whole commit, first envelope first.
pub open spec fn project_events<A: Aggregate, V: ViewProjection<A> + HasId>(
    views: Map<Seq<char>, V>,
    parent: Option<Seq<char>>,
    evs: Seq<EventEnvelope<A::Event>>,
) -> Map<Seq<char>, V>
    decreases evs.len(),
{
    if evs.len() == 0 {
        views
    } else {
        project_event::<A, V>(
            project_events::<A, V>(views, parent, evs.drop_last()),
            parent,
            evs.last(),
        )
    }
}

/// A dispatcher that projects envelopes into one view type through one
/// read-side storage.
pub struct ViewDispatcher<
    A: Aggregate,
    V: ViewProjection<A> + HasId,
    Q: ViewQuery<V>,
    S: Storage<V, Q>,
> {
    storage: S,
    _marker: core::marker::PhantomData<(A, V, Q)>,
}

impl<
    A: Aggregate,
    V: ViewProjection<A> + HasId,
    Q: ViewQuery<V>,
    S: Storage<V, Q>,
> ViewDispatcher<A, V, Q, S> {
    pub closed spec fn storage_views(&self) -> Map<Seq<char>, V> {
        self.storage.views()
    }

    pub closed spec fn storage_spec(&self) -> S {
        self.storage
    }

    pub fn new(storage: S) -> (r: Self)
        requires
            storage.inv(),
        ensures
            r.ready(),
            r.storage_views() == storage.views(),
            r.storage_spec() == storage,
    {
        ViewDispatcher { storage, _marker: core::marker::PhantomData }
    }

    /// The storage behind this dispatcher, for the query side.
    pub fn storage(&self) -> (r: &S)
        requires
            self.ready(),
        ensures
            *r == self.storage_spec(),
            r.inv(),
    {
        &self.storage
    }
}

impl<
    A: Aggregate,
    V: ViewProjection<A> + HasId,
    Q: ViewQuery<V>,
    S: Storage<V, Q>,
> Dispatcher<A> for ViewDispatcher<A, V, Q, S> {
    closed spec fn ready(&self) -> bool {
        self.storage.inv()
    }

    /// On a reported success, the storage moved through the projection loop
    /// for every envelope; a reported failure projected a prefix of them and
    /// left the rest unapplied. A reliable storage whose child rows all name
    /// their parent never fails.
    open spec fn dispatched(
        pre: Self,
        post: Self,
        aggregate_id: Seq<char>,
        events: Seq<EventEnvelope<A::Event>>,
        outcome: Result<(), CqrsError>,
    ) -> bool {
        &&& outcome is Ok ==> post.storage_views() == project_events::<A, V>(
            pre.storage_views(),
            Some(aggregate_id),
            events,
        )
        &&& pre.storage_spec().reliable() && child_rows_parented::<A, V>() ==> outcome is Ok
        &&& outcome is Err ==> exists|k: int|
            0 <= k <= events.len() && post.storage_views() == project_events::<A, V>(
                pre.storage_views(),
                Some(aggregate_id),
                #[trigger] events.take(k),
            )
    }

    fn dispatch(
        &mut self,
        aggregate_id: &str,
        events: &Vec<EventEnvelope<A::Event>>,
        context: &CqrsContext,
    ) -> (r: Result<(), CqrsError>) {
        let ghost orig_views = self.storage.views();
        let ghost orig_reliable = self.storage.reliable();
        let n = events.len();
        let mut i: usize = 0;
        while i < n
            invariant
                n == events@.len(),
                0 <= i <= n,
                self.storage.inv(),
                orig_views == old(self).storage_views(),
                orig_reliable == old(self).storage_spec().reliable(),
                self.storage.reliable() == orig_reliable,
                self.storage.views() == project_events::<A, V>(
                    orig_views,
                    Some(aggregate_id@),
                    events@.take(i as int),
                ),
            decreases n - i,
        {
            let e = &events[i];
            let view_id = V::view_id(e);
            let found = match self.storage.find_by_id(Some(aggregate_id), view_id.as_str(), context) {
                Ok(o) => o,
                Err(err) => {
                    proof {
                        assert(!orig_reliable);
                        let k = i as int;
                        assert(0 <= k <= events@.len() && self.storage.views()
                            == project_events::<A, V>(
                            orig_views,
                            Some(aggregate_id@),
                            events@.take(k),
                        ));
                    }
                    return Err(err);
                },
            };
            let ghost pre_views = self.storage.views();
            match V::update(found, e) {
                Some(next) => {
                    match self.storage.save(next, context) {
                        Ok(()) => {},
                        Err(err) => {
                            proof {
                                if orig_reliable {
                                    assert(V::parent_field_spec() is Some
                                        && next.parent_id_spec() is None);
                                    assert(V::update_spec(found, e) matches Some(nx)
                                        && nx.parent_id_spec() is None);
                                    assert(!child_rows_parented::<A, V>());
                                }
                                let k = i as int;
                                assert(0 <= k <= events@.len() && self.storage.views()
                                    == project_events::<A, V>(
                                    orig_views,
                                    Some(aggregate_id@),
                                    events@.take(k),
                                ));
                            }
                            return Err(err);
                        },
                    }
                },
                None => {},
            }
            proof {
                assert(events@.take(i + 1).drop_last() =~= events@.take(i as int));
                assert(events@.take(i + 1).last() == events@[i as int]);
                assert(self.storage.views() == project_event::<A, V>(
                    pre_views,
                    Some(aggregate_id@),
                    events@[i as int],
                ));
            }
            i = i + 1;
        }
        proof {
            assert(events@.take(n as int) =~= events@);
        }
        Ok(())
    }
}

} // verus!
