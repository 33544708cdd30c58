//! The in-memory view store: the reference implementation of the read-side
//! query port, and a direct projection entry point for tests and simple
//! applications.

use vstd::prelude::*;

use crate::aggregate::Aggregate;
use crate::context::CqrsContext;
use crate::denormalizer::ViewProjection;
use crate::errors::CqrsError;
use crate::event::EventEnvelope;
use crate::read::paged::Paged;
use crate::read::storage::{
    opt_id_view, parent_matches, row_pred, slice_rows, HasId, SkipLimit, Storage, StorageError,
    ViewQuery,
};
use crate::string_map::StringMap;

verus! {

/// View rows keyed by row id, in insertion order.
pub struct InMemoryViewStore<A: Aggregate, V: ViewProjection<A> + HasId> {
    views: StringMap<V>,
    _marker: core::marker::PhantomData<A>,
}

impl<A: Aggregate, V: ViewProjection<A> + HasId> InMemoryViewStore<A, V> {
    pub closed spec fn views_map(&self) -> Map<Seq<char>, V> {
        self.views@
    }

    pub closed spec fn rows_seq(&self) -> Seq<V> {
        self.views.entries().map_values(|p: (String, V)| p.1)
    }

    pub closed spec fn wf(&self) -> bool {
        self.views.wf()
    }

    pub fn new() -> (r: Self)
        ensures
            r.wf(),
            r.views_map() == Map::<Seq<char>, V>::empty(),
            r.rows_seq() == Seq::<V>::empty(),
    {
        let r = InMemoryViewStore { views: StringMap::new(), _marker: core::marker::PhantomData };
        proof {
            assert(r.rows_seq() =~= Seq::<V>::empty());
        }
        r
    }

    /// The row under an id, unscoped.
    pub fn get_view(&self, view_id: &str) -> (r: Option<V>)
        requires
            self.wf(),
        ensures
            match r {
                Some(v) => self.views_map().dom().contains(view_id@) && v == self.views_map()[view_id@],
                None => !self.views_map().dom().contains(view_id@),
            },
    {
        let key = view_id.to_owned();
        match self.views.get(&key) {
            Some(v) => Some(v.clone_view()),
            None => None,
        }
    }

    /// All rows, keyed by row id.
    pub fn get_all_views(&self) -> (r: &StringMap<V>)
        ensures
            r@ == self.views_map(),
            r.entries().map_values(|p: (String, V)| p.1) == self.rows_seq(),
    {
        &self.views
    }

    /// Project one envelope into the store: load the row the envelope names
    /// (or the default row), let the view absorb it, and save the result
    /// under the envelope's row id if it changed.
    pub fn update_view(&mut self, event: &EventEnvelope<A::Event>) -> (r: Result<(), CqrsError>)
        requires
            old(self).wf(),
        ensures
            final (self).wf(),
            r is Ok,
            final (self).views_map() == {
                let vid = V::view_id_spec(event);
                let prev = if old(self).views_map().dom().contains(vid) {
                    Some(old(self).views_map()[vid])
                } else {
                    None
                };
                match V::update_spec(prev, event) {
                    Some(next) => old(self).views_map().insert(vid, next),
                    None => old(self).views_map(),
                }
            },
    {
        let vid = V::view_id(event);
        let prev = match self.views.get(&vid) {
            Some(p) => Some(p.clone_view()),
            None => None,
        };
        match V::update(prev, event) {
            Some(next) => {
                self.views.insert(vid, next);
            },
            None => {},
        }
        Ok(())
    }

    /// Drop every row.
    pub fn clear(&mut self)
        ensures
            final (self).wf(),
            final (self).views_map() == Map::<Seq<char>, V>::empty(),
            final (self).rows_seq() == Seq::<V>::empty(),
    {
        self.views.clear();
        proof {
            assert(self.rows_seq() =~= Seq::<V>::empty());
        }
    }
}

impl<A: Aggregate, V: ViewProjection<A> + HasId> Default for InMemoryViewStore<A, V> {
    fn default() -> (r: Self)
        ensures
            r.wf(),
            r.views_map() == Map::<Seq<char>, V>::empty(),
            r.rows_seq() == Seq::<V>::empty(),
    {
        InMemoryViewStore::new()
    }
}

impl<A: Aggregate, V: ViewProjection<A> + HasId, Q: ViewQuery<V>> Storage<V, Q> for InMemoryViewStore<
    A,
    V,
> {
    closed spec fn inv(&self) -> bool {
        self.views.wf()
    }

    closed spec fn reliable(&self) -> bool {
        true
    }

    closed spec fn views(&self) -> Map<Seq<char>, V> {
        self.views@
    }

    closed spec fn rows(&self) -> Seq<V> {
        self.views.entries().map_values(|p: (String, V)| p.1)
    }

    closed spec fn stored_type_spec(&self) -> Seq<char> {
        V::view_type_spec()
    }

    fn stored_type(&self) -> (r: String) {
        V::view_type().to_owned()
    }

    fn filter(&self, parent_id: Option<&str>, query: &Q, context: &CqrsContext) -> (r: Result<
        Paged<V>,
        CqrsError,
    >) {
        if V::parent_field_id().is_some() && parent_id.is_none() {
            return Err(CqrsError::validation(StorageError::MissingParentId.message()));
        }
        let parent_string: Option<String> = match parent_id {
            Some(p) => Some(p.to_owned()),
            None => None,
        };
        let ghost pv = opt_id_view(parent_id);
        let ghost pred = row_pred::<V, Q>(*query, pv);
        let n = self.views.len();
        let mut all: Vec<V> = Vec::new();
        let mut i: usize = 0;
        while i < n
            invariant
                n == self.views.entries().len(),
                0 <= i <= n,
                self.views.wf(),
                pv == opt_id_view(parent_id),
                pred == row_pred::<V, Q>(*query, pv),
                !(V::parent_field_spec() is Some && parent_id is None),
                (match parent_string {
                    Some(ps) => parent_id matches Some(p) && ps@ == p@,
                    None => parent_id is None,
                }),
                all@ == Storage::<V, Q>::rows(self).take(i as int).filter(pred),
            decreases n - i,
        {
            let ghost rows_all = Storage::<V, Q>::rows(self);
            let (_k, v) = self.views.entry_at(i);
            proof {
                assert(rows_all[i as int] == *v);
                reveal(Seq::filter);
                assert(rows_all.take(i + 1).drop_last() =~= rows_all.take(i as int));
                assert(rows_all.take(i + 1).last() == rows_all[i as int]);
            }
            let pm: bool = match V::parent_field_id() {
                Some(_) => match (v.parent_id(), &parent_string) {
                    (Some(vp), Some(ps)) => vp.to_owned() == *ps,
                    _ => false,
                },
                None => true,
            };
            proof {
                assert(pm == parent_matches::<V>(*v, pv));
            }
            if query.matches(v) && pm {
                all.push(v.clone_view());
                proof {
                    assert(pred(rows_all[i as int]));
                    assert(rows_all.take(i + 1).filter(pred) == rows_all.take(i as int).filter(
                        pred,
                    ).push(rows_all[i as int]));
                }
            } else {
                proof {
                    assert(!pred(rows_all[i as int]));
                    assert(rows_all.take(i + 1).filter(pred) == rows_all.take(i as int).filter(
                        pred,
                    ));
                }
            }
            i = i + 1;
        }
        proof {
            let rows_all = Storage::<V, Q>::rows(self);
            assert(rows_all.take(n as int) =~= rows_all);
        }
        let SkipLimit { skip, limit } = query.to_skip_limit();
        let sk_i64: i64 = match skip {
            Some(s) => s,
            None => 0,
        };
        let lim_i64: i64 = match limit {
            Some(l) => l,
            None => 20,
        };
        let len = all.len();
        let len_u64: u64 = len as u64;
        let start_u64: u64 = if sk_i64 <= 0 {
            0
        } else {
            sk_i64 as u64
        };
        let start: usize = if start_u64 > len_u64 {
            len
        } else {
            start_u64 as usize
        };
        let lim_u64: u64 = if lim_i64 <= 0 {
            0
        } else {
            lim_i64 as u64
        };
        let rem: usize = len - start;
        let count: usize = if lim_u64 > (rem as u64) {
            rem
        } else {
            lim_u64 as usize
        };
        let end: usize = start + count;
        let mut items: Vec<V> = Vec::new();
        let mut j: usize = start;
        while j < end
            invariant
                start <= j <= end <= all@.len(),
                items@ == all@.subrange(start as int, j as int),
            decreases end - j,
        {
            items.push(all[j].clone_view());
            proof {
                assert(all@.subrange(start as int, j + 1).drop_last() =~= all@.subrange(
                    start as int,
                    j as int,
                ));
                assert(all@.subrange(start as int, j + 1).last() == all@[j as int]);
                assert(items@ =~= all@.subrange(start as int, j + 1));
            }
            j = j + 1;
        }
        let total: i64 = if len_u64 > (i64::MAX as u64) {
            i64::MAX
        } else {
            len_u64 as i64
        };
        let page: i64 = if lim_i64 > 0 {
            (if sk_i64 < 0 {
                0
            } else {
                sk_i64
            }) / lim_i64
        } else {
            0
        };
        proof {
            assert(items@ == slice_rows(all@, sk_i64 as int, lim_i64 as int));
        }
        Ok(Paged { items, total, page, page_size: lim_i64 })
    }

    fn find_by_id(&self, parent_id: Option<&str>, id: &str, context: &CqrsContext) -> (r: Result<
        Option<V>,
        CqrsError,
    >) {
        if V::parent_field_id().is_some() && parent_id.is_none() {
            return Err(CqrsError::validation(StorageError::MissingParentId.message()));
        }
        let key = id.to_owned();
        let found = match self.views.get(&key) {
            Some(v) => Some(v.clone_view()),
            None => None,
        };
        match found {
            Some(v) => {
                let pm: bool = match V::parent_field_id() {
                    Some(_) => match (v.parent_id(), parent_id) {
                        (Some(vp), Some(p)) => vp.to_owned() == p.to_owned(),
                        _ => false,
                    },
                    None => true,
                };
                if pm {
                    Ok(Some(v))
                } else {
                    Ok(None)
                }
            },
            None => Ok(None),
        }
    }

    fn save(&mut self, entity: V, context: &CqrsContext) -> (r: Result<(), CqrsError>) {
        if V::parent_field_id().is_some() && entity.parent_id().is_none() {
            return Err(CqrsError::validation(StorageError::MissingParentId.message()));
        }
        let key = entity.id();
        let ghost pre_entries = self.views.entries();
        self.views.insert(key, entity);
        proof {
            if old(self).views@.dom().contains(key@) {
                let i = choose|i: int|
                    0 <= i < pre_entries.len() && pre_entries[i].0@ == key@
                        && self.views.entries() == pre_entries.update(i, (key, entity));
                assert(Storage::<V, Q>::rows(self) =~= Storage::<V, Q>::rows(&*old(self)).update(
                    i,
                    entity,
                ));
            } else {
                assert(self.views.entries() == pre_entries.push((key, entity)));
                assert(Storage::<V, Q>::rows(self) =~= Storage::<V, Q>::rows(&*old(self)).push(
                    entity,
                ));
            }
        }
        Ok(())
    }
}

} // verus!
