//! A periodic checkpoint: the serialized aggregate state and the version of
//! the last envelope folded into it.

use vstd::prelude::*;

use crate::aggregate::Aggregate;
use crate::read::storage::HasId;

verus! {

/// The stored state of one aggregate at a known version. When present, the
/// version equals the length of the aggregate's journal at the moment of the
/// write, and the state equals the fold of that journal.
pub struct Snapshot<A> {
    pub aggregate_id: String,
    pub state: A,
    pub version: usize,
}

impl<A: Aggregate> HasId for Snapshot<A> {
    open spec fn field_id_spec() -> Seq<char> {
        "_id"@
    }

    fn field_id() -> (r: &'static str) {
        "_id"
    }

    open spec fn id_spec(&self) -> Seq<char> {
        self.aggregate_id@
    }

    fn id(&self) -> (r: String) {
        self.aggregate_id.clone()
    }

    open spec fn parent_field_spec() -> Option<Seq<char>> {
        None
    }

    fn parent_field_id() -> (r: Option<&'static str>) {
        None
    }

    open spec fn parent_id_spec(&self) -> Option<Seq<char>> {
        None
    }

    fn parent_id(&self) -> (r: Option<&str>) {
        None
    }
}

impl<A: Aggregate> Snapshot<A> {
    /// A copy whose state carries the same model.
    pub fn clone_snap(&self) -> (r: Self)
        ensures
            r.aggregate_id == self.aggregate_id,
            r.state.model() == self.state.model(),
            r.version == self.version,
    {
        Snapshot {
            aggregate_id: self.aggregate_id.clone(),
            state: self.state.clone_state(),
            version: self.version,
        }
    }
}

} // verus!
