//! An adapter that re-serves aggregate snapshots through the read-side
//! interface, for read-through latest-state queries. Its `save` is
//! unsupported: snapshots are written by the commit path alone.

use vstd::prelude::*;

use crate::aggregate::Aggregate;
use crate::context::CqrsContext;
use crate::errors::CqrsError;
use crate::read::paged::Paged;
use crate::read::storage::{
    opt_id_view, row_pred, slice_rows, Storage, StorageError, ViewQuery,
};
use crate::snapshot::Snapshot;

verus! {

/// The states a snapshot sequence holds, in order.
pub open spec fn states_of<A: Aggregate>(s: Seq<Snapshot<A>>) -> Seq<A> {
    s.map_values(|x: Snapshot<A>| x.state)
}

/// A read port over a stored snapshot table, answering with the states the
/// snapshots hold.
pub struct FromSnapshotStorage<
    A: Aggregate,
    Q: ViewQuery<Snapshot<A>>,
    S: Storage<Snapshot<A>, Q>,
> {
    inner: S,
    _marker: core::marker::PhantomData<(A, Q)>,
}

impl<A: Aggregate, Q: ViewQuery<Snapshot<A>>, S: Storage<Snapshot<A>, Q>> FromSnapshotStorage<
    A,
    Q,
    S,
> {
    pub closed spec fn inner_spec(&self) -> S {
        self.inner
    }

    pub open spec fn inv(&self) -> bool {
        self.inner_spec().inv()
    }

    pub fn new(inner: S) -> (r: Self)
        requires
            inner.inv(),
        ensures
            r.inv(),
            r.inner_spec() == inner,
    {
        FromSnapshotStorage { inner, _marker: core::marker::PhantomData }
    }

    pub fn stored_type(&self) -> (r: &'static str)
        ensures
            r@ == A::aggregate_type_spec(),
    {
        A::aggregate_type()
    }

    /// The latest state under an aggregate id, if a snapshot exists.
    pub fn find_by_id(&self, parent_id: Option<&str>, id: &str, context: &CqrsContext) -> (r:
        Result<Option<A>, CqrsError>)
        requires
            self.inv(),
            self.inner_spec().reliable(),
        ensures
            r is Ok,
            r matches Ok(o) ==> match o {
                Some(a) => self.inner_spec().views().dom().contains(id@) && a
                    == self.inner_spec().views()[id@].state,
                None => !self.inner_spec().views().dom().contains(id@),
            },
    {
        match self.inner.find_by_id(parent_id, id, context) {
            Ok(Some(snapshot)) => Ok(Some(snapshot.state)),
            Ok(None) => Ok(None),
            Err(e) => Err(e),
        }
    }

    /// One page of the states whose snapshots the query selects.
    pub fn filter(&self, parent_id: Option<&str>, query: &Q, context: &CqrsContext) -> (r: Result<
        Paged<A>,
        CqrsError,
    >)
        requires
            self.inv(),
        ensures
            self.inner_spec().reliable() ==> r is Ok,
            r matches Ok(p) ==> {
                let all = self.inner_spec().rows().filter(
                    row_pred::<Snapshot<A>, Q>(*query, opt_id_view(parent_id)),
                );
                let sk = match query.skip_spec() {
                    Some(s) => s as int,
                    None => 0,
                };
                let lim = match query.limit_spec() {
                    Some(l) => l as int,
                    None => 20,
                };
                &&& p.items@ == states_of(slice_rows(all, sk, lim))
                &&& p.total == if all.len() <= i64::MAX {
                    all.len() as int
                } else {
                    i64::MAX as int
                }
                &&& p.page_size == lim
            },
    {
        let page = self.inner.filter(parent_id, query, context)?;
        let Paged { items, total, page: page_no, page_size } = page;
        let ghost orig = items@;
        let mut rest = items;
        let mut states: Vec<A> = Vec::new();
        proof {
            assert(states@ =~= states_of(orig.take(0)));
            assert(rest@ =~= orig.skip(0));
        }
        while rest.len() > 0
            invariant
                states@.len() + rest@.len() == orig.len(),
                states@ == states_of(orig.take(states@.len() as int)),
                rest@ == orig.skip(states@.len() as int),
            decreases rest.len(),
        {
            let ghost k = states@.len() as int;
            let snapshot = rest.remove(0);
            states.push(snapshot.state);
            proof {
                assert(orig.skip(k)[0] == orig[k]);
                assert(states@ =~= states_of(orig.take(k + 1)));
                assert(rest@ =~= orig.skip(k + 1));
            }
        }
        proof {
            assert(orig.take(orig.len() as int) =~= orig);
            assert(states@ == states_of(orig));
        }
        Ok(Paged { items: states, total, page: page_no, page_size })
    }

    /// Snapshots are written by commits alone.
    pub fn save(&mut self, entity: A, context: &CqrsContext) -> (r: Result<(), CqrsError>)
        ensures
            r is Err,
            *final (self) == *old(self),
    {
        Err(
            CqrsError::database_error(
                StorageError::UnsupportedMethod("SnapshotStorage#save".to_owned()).message(),
            ),
        )
    }
}

} // verus!
