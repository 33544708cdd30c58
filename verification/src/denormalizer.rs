//! Post-commit consumers and read-side view contracts.
//!
//! A `Dispatcher` receives the envelopes of a successful commit, after the
//! commit is durable; dispatchers run sequentially and a failing one never
//! fails the surrounding command. A `View` is a read-optimized projection:
//! an envelope names the view row it lands in (`view_id`), and `update` says
//! how the row absorbs the envelope, `None` meaning no change.

use vstd::prelude::*;

use crate::aggregate::Aggregate;
use crate::context::CqrsContext;
use crate::errors::CqrsError;
use crate::event::EventEnvelope;

verus! {

/// A post-commit consumer of committed envelopes.
///
/// `dispatched` is the implementation's own relation between its state
/// before and after one delivery and the outcome it returned; the engine
/// guarantees that every dispatcher was driven through this relation with
/// the committed envelopes, whatever each outcome was.
pub trait Dispatcher<A: Aggregate>: Sized {
    /// The dispatcher's own well-formedness; constructors establish it and
    /// every delivery preserves it.
    spec fn ready(&self) -> bool;

    spec fn dispatched(
        pre: Self,
        post: Self,
        aggregate_id: Seq<char>,
        events: Seq<EventEnvelope<A::Event>>,
        outcome: Result<(), CqrsError>,
    ) -> bool;

    fn dispatch(
        &mut self,
        aggregate_id: &str,
        events: &Vec<EventEnvelope<A::Event>>,
        context: &CqrsContext,
    ) -> (r: Result<(), CqrsError>)
        requires
            old(self).ready(),
        ensures
            final (self).ready(),
            Self::dispatched(*old(self), *final (self), aggregate_id@, events@, r),
    ;
}

/// A read-side projection of one aggregate's envelopes.
pub trait ViewProjection<A: Aggregate>: Sized {
    /// The stable type name of the view.
    spec fn view_type_spec() -> Seq<char>;

    fn view_type() -> (r: &'static str)
        ensures
            r@ == Self::view_type_spec(),
    ;

    /// Whether many rows of this view belong to one aggregate. A
    /// child-scoped view derives its row ids from envelope fields and its
    /// rows are filtered by the parent aggregate id.
    spec fn is_child_spec() -> bool;

    fn is_child_of_aggregate() -> (r: bool)
        ensures
            r == Self::is_child_spec(),
    ;

    /// The id of the row an envelope lands in.
    spec fn view_id_spec(event: &EventEnvelope<A::Event>) -> Seq<char>;

    fn view_id(event: &EventEnvelope<A::Event>) -> (r: String)
        ensures
            r@ == Self::view_id_spec(event),
    ;

    /// How a row, or its absence, absorbs an envelope; `None` means nothing
    /// is to be stored.
    spec fn update_spec(prev: Option<Self>, event: &EventEnvelope<A::Event>) -> Option<Self>;

    fn update(prev: Option<Self>, event: &EventEnvelope<A::Event>) -> (r: Option<Self>)
        ensures
            r == Self::update_spec(prev, event),
    ;

    /// A value-preserving copy.
    fn clone_view(&self) -> (r: Self)
        ensures
            r == *self,
    ;
}

} // verus!
