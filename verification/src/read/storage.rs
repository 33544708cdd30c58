//! The read-side query port: filter, find-by-id and save over view rows,
//! with paging and optional parent scoping.

use vstd::prelude::*;

use crate::context::CqrsContext;
use crate::errors::CqrsError;
use crate::read::paged::Paged;

verus! {

/// The ways a read-side call can be invalid.
pub enum StorageError {
    MissingParentId,
    InvalidParentId,
    UnsupportedMethod(String),
}

impl StorageError {
    pub open spec fn message_spec(&self) -> Seq<char> {
        match self {
            StorageError::MissingParentId => "Missing parent id"@,
            StorageError::InvalidParentId => "Invalid parent id"@,
            StorageError::UnsupportedMethod(m) => "Unsupported method : "@ + m@,
        }
    }

    pub fn message(&self) -> (r: String)
        ensures
            r@ == self.message_spec(),
    {
        match self {
            StorageError::MissingParentId => "Missing parent id".to_owned(),
            StorageError::InvalidParentId => "Invalid parent id".to_owned(),
            StorageError::UnsupportedMethod(m) => "Unsupported method : ".to_owned().concat(
                m.as_str(),
            ),
        }
    }
}

/// How a stored row names itself and, for child-scoped rows, its parent.
pub trait HasId: Sized {
    /// The name of the identifier field in serialized form.
    spec fn field_id_spec() -> Seq<char>;

    fn field_id() -> (r: &'static str)
        ensures
            r@ == Self::field_id_spec(),
    ;

    spec fn id_spec(&self) -> Seq<char>;

    fn id(&self) -> (r: String)
        ensures
            r@ == self.id_spec(),
    ;

    /// The name of the parent field; `Some` makes the type child-scoped.
    spec fn parent_field_spec() -> Option<Seq<char>>;

    fn parent_field_id() -> (r: Option<&'static str>)
        ensures
            match r {
                Some(s) => Self::parent_field_spec() == Some(s@),
                None => Self::parent_field_spec() is None,
            },
    ;

    spec fn parent_id_spec(&self) -> Option<Seq<char>>;

    fn parent_id(&self) -> (r: Option<&str>)
        ensures
            match r {
                Some(s) => self.parent_id_spec() == Some(s@),
                None => self.parent_id_spec() is None,
            },
    ;
}

/// Paging bounds extracted from a query.
pub struct SkipLimit {
    pub skip: Option<i64>,
    pub limit: Option<i64>,
}

impl SkipLimit {
    pub fn new(skip: Option<i64>, limit: Option<i64>) -> (r: Self)
        ensures
            r.skip == skip,
            r.limit == limit,
    {
        SkipLimit { skip, limit }
    }
}

/// What a query means: which rows it selects and how it pages them.
pub trait ViewQuery<V>: Sized {
    spec fn matches_spec(&self, v: &V) -> bool;

    spec fn skip_spec(&self) -> Option<i64>;

    spec fn limit_spec(&self) -> Option<i64>;

    fn matches(&self, v: &V) -> (r: bool)
        ensures
            r == self.matches_spec(v),
    ;

    fn to_skip_limit(&self) -> (r: SkipLimit)
        ensures
            r.skip == self.skip_spec(),
            r.limit == self.limit_spec(),
    ;
}

/// The view of an optional borrowed id.
pub open spec fn opt_id_view(parent_id: Option<&str>) -> Option<Seq<char>> {
    match parent_id {
        Some(p) => Some(p@),
        None => None,
    }
}

/// Whether a row is visible under a parent scope: an aggregate-scoped type
/// always is, a child-scoped row only under its own parent.
pub open spec fn parent_matches<V: HasId>(v: V, parent_id: Option<Seq<char>>) -> bool {
    match V::parent_field_spec() {
        Some(_) => v.parent_id_spec() == parent_id,
        None => true,
    }
}

/// The rows a filter call selects, in storage order.
pub open spec fn row_pred<V: HasId, Q: ViewQuery<V>>(
    query: Q,
    parent_id: Option<Seq<char>>,
) -> spec_fn(V) -> bool {
    |v: V| query.matches_spec(&v) && parent_matches::<V>(v, parent_id)
}

/// The slice of the selected rows one page holds, under skip/limit
/// clamping: a negative skip reads from the start, a missing limit is 20.
pub open spec fn slice_rows<V>(all: Seq<V>, skip: int, limit: int) -> Seq<V> {
    let sk = if skip < 0 {
        0
    } else if skip > all.len() {
        all.len() as int
    } else {
        skip
    };
    let lim = if limit < 0 {
        0
    } else {
        limit
    };
    let end = if sk + lim > all.len() {
        all.len() as int
    } else {
        sk + lim
    };
    all.subrange(sk, end)
}

/// The read-side storage port. `views` abstracts the rows by id, `rows`
/// gives them in storage order; `reliable` says every operation of this
/// storage succeeds on valid input.
pub trait Storage<V: HasId, Q: ViewQuery<V>>: Sized {
    spec fn inv(&self) -> bool;

    spec fn reliable(&self) -> bool;

    spec fn views(&self) -> Map<Seq<char>, V>;

    spec fn rows(&self) -> Seq<V>;

    spec fn stored_type_spec(&self) -> Seq<char>;

    fn stored_type(&self) -> (r: String)
        ensures
            r@ == self.stored_type_spec(),
    ;

    /// One page of the rows the query selects under the given parent scope.
    /// A child-scoped type refuses a missing parent id.
    fn filter(&self, parent_id: Option<&str>, query: &Q, context: &CqrsContext) -> (r: Result<
        Paged<V>,
        CqrsError,
    >)
        requires
            self.inv(),
        ensures
            V::parent_field_spec() is Some && parent_id is None ==> (r matches Err(e)
                && e.internal_code == 4006 && e.http_status == 400),
            self.reliable() && !(V::parent_field_spec() is Some && parent_id is None) ==> r is Ok,
            r matches Ok(p) ==> {
                let all = self.rows().filter(row_pred::<V, Q>(*query, opt_id_view(parent_id)));
                let sk = match query.skip_spec() {
                    Some(s) => s as int,
                    None => 0,
                };
                let lim = match query.limit_spec() {
                    Some(l) => l as int,
                    None => 20,
                };
                &&& p.items@ == slice_rows(all, sk, lim)
                &&& p.total == if all.len() <= i64::MAX {
                    all.len() as int
                } else {
                    i64::MAX as int
                }
                &&& p.page_size == lim
                &&& p.page == if lim > 0 {
                    (if sk < 0 {
                        0
                    } else {
                        sk
                    }) / lim
                } else {
                    0
                }
            },
    ;

    /// The row under an id, scoped: a child-scoped row is only found under
    /// its own parent, and a missing parent id is refused.
    fn find_by_id(&self, parent_id: Option<&str>, id: &str, context: &CqrsContext) -> (r: Result<
        Option<V>,
        CqrsError,
    >)
        requires
            self.inv(),
        ensures
            V::parent_field_spec() is Some && parent_id is None ==> (r matches Err(e)
                && e.internal_code == 4006 && e.http_status == 400),
            self.reliable() && !(V::parent_field_spec() is Some && parent_id is None) ==> r is Ok,
            r matches Ok(o) ==> match o {
                Some(v) => {
                    &&& self.views().dom().contains(id@)
                    &&& v == self.views()[id@]
                    &&& parent_matches::<V>(v, opt_id_view(parent_id))
                },
                None => !self.views().dom().contains(id@) || !parent_matches::<V>(
                    self.views()[id@],
                    opt_id_view(parent_id),
                ),
            },
    ;

    /// Upsert a row by its own id. A child-scoped row without a parent id is
    /// refused.
    fn save(&mut self, entity: V, context: &CqrsContext) -> (r: Result<(), CqrsError>)
        requires
            old(self).inv(),
        ensures
            final (self).inv(),
            final (self).reliable() == old(self).reliable(),
            final (self).stored_type_spec() == old(self).stored_type_spec(),
            V::parent_field_spec() is Some && entity.parent_id_spec() is None ==> (r matches Err(e)
                && e.internal_code == 4006 && e.http_status == 400),
            old(self).reliable() && !(V::parent_field_spec() is Some && entity.parent_id_spec()
                is None) ==> r is Ok,
            r is Err ==> final (self).views() == old(self).views() && final (self).rows() == old(
                self,
            ).rows(),
            r is Ok ==> {
                &&& final (self).views() == old(self).views().insert(entity.id_spec(), entity)
                &&& if old(self).views().dom().contains(entity.id_spec()) {
                    exists|i: int|
                        0 <= i < old(self).rows().len() && final (self).rows() == old(
                            self,
                        ).rows().update(i, entity)
                } else {
                    final (self).rows() == old(self).rows().push(entity)
                }
            },
    ;
}

} // verus!
