//! The aggregate contract: identity, default state, event application and
//! command handling.
//!
//! Every aggregate names a mathematical `Model` of its state; `model`
//! abstracts an executable state into it, and `apply_model` is the one fold
//! step on models. `fold_model` chains the steps; the snapshot-equivalence
//! and replay-determinism guarantees of the event store are stated over it.

use vstd::prelude::*;

use crate::context::CqrsContext;
use crate::errors::{AggregateError, CqrsError};
use crate::event::Event;

verus! {

/// A consistency boundary: a state value plus the rules that derive new
/// events from commands and fold events into state.
pub trait Aggregate: Sized {
    /// The closed sum of this aggregate's events.
    type Event: Event;

    /// The mathematical state.
    type Model;

    /// The stable type name, used to key storage tables and routes.
    spec fn aggregate_type_spec() -> Seq<char>;

    fn aggregate_type() -> (r: &'static str)
        ensures
            r@ == Self::aggregate_type_spec(),
    ;

    /// The abstraction of an executable state.
    spec fn model(&self) -> Self::Model;

    /// The identity a model carries.
    spec fn model_id(m: Self::Model) -> Seq<char>;

    /// The model of the default state.
    spec fn default_model() -> Self::Model;

    /// The model with its identity replaced.
    spec fn with_id_model(m: Self::Model, id: Seq<char>) -> Self::Model;

    /// One fold step on models; `None` means the event is rejected.
    spec fn apply_model(m: Self::Model, event: Self::Event) -> Option<Self::Model>;

    /// Stamping an id onto a model makes it the model's identity.
    proof fn lemma_with_id_model(m: Self::Model, id: Seq<char>)
        ensures
            Self::model_id(Self::with_id_model(m, id)) == id,
    ;

    /// Applying an event never changes the identity.
    proof fn lemma_apply_preserves_id(m: Self::Model, event: Self::Event)
        ensures
            Self::apply_model(m, event) matches Some(m2) ==> Self::model_id(m2) == Self::model_id(
                m,
            ),
    ;

    fn aggregate_id(&self) -> (r: String)
        ensures
            r@ == Self::model_id(self.model()),
    ;

    fn with_aggregate_id(self, id: String) -> (r: Self)
        ensures
            r.model() == Self::with_id_model(self.model(), id@),
    ;

    fn default_state() -> (r: Self)
        ensures
            r.model() == Self::default_model(),
    ;

    fn clone_state(&self) -> (r: Self)
        ensures
            r.model() == self.model(),
    ;

    /// Fold one event into the state. On rejection the state is unchanged
    /// and the error surfaces to the caller as a user error.
    fn apply(&mut self, event: Self::Event) -> (r: Result<(), CqrsError>)
        ensures
            match r {
                Ok(()) => Self::apply_model(old(self).model(), event) == Some(final (self).model()),
                Err(e) => Self::apply_model(old(self).model(), event) is None && final (self).model()
                    == old(self).model() && e.kind_spec() == AggregateError::UserError,
            },
    ;
}

/// Fold a sequence of events into a model, stopping at the first rejection.
pub open spec fn fold_model<A: Aggregate>(m: A::Model, evs: Seq<A::Event>) -> Option<A::Model>
    decreases evs.len(),
{
    if evs.len() == 0 {
        Some(m)
    } else {
        match A::apply_model(m, evs[0]) {
            Some(m2) => fold_model::<A>(m2, evs.drop_first()),
            None => None,
        }
    }
}

/// Folding a concatenation folds the parts in order.
pub proof fn lemma_fold_model_app<A: Aggregate>(m: A::Model, a: Seq<A::Event>, b: Seq<A::Event>)
    ensures
        fold_model::<A>(m, a + b) == match fold_model::<A>(m, a) {
            Some(m2) => fold_model::<A>(m2, b),
            None => None,
        },
    decreases a.len(),
{
    if a.len() == 0 {
        assert(a + b =~= b);
    } else {
        assert((a + b)[0] == a[0]);
        assert((a + b).drop_first() =~= a.drop_first() + b);
        match A::apply_model(m, a[0]) {
            Some(m2) => {
                lemma_fold_model_app::<A>(m2, a.drop_first(), b);
            },
            None => {},
        }
    }
}

/// Folding one more event is one more fold step.
pub proof fn lemma_fold_model_snoc<A: Aggregate>(m: A::Model, s: Seq<A::Event>, e: A::Event)
    ensures
        fold_model::<A>(m, s.push(e)) == match fold_model::<A>(m, s) {
            Some(m2) => A::apply_model(m2, e),
            None => None,
        },
{
    lemma_fold_model_app::<A>(m, s, seq![e]);
    assert(s.push(e) =~= s + seq![e]);
    match fold_model::<A>(m, s) {
        Some(m2) => {
            assert(seq![e][0] == e);
            assert(seq![e].drop_first() =~= Seq::<A::Event>::empty());
            assert(fold_model::<A>(m2, seq![e]) == A::apply_model(m2, e)) by {
                match A::apply_model(m2, e) {
                    Some(m3) => {
                        assert(fold_model::<A>(m3, seq![e].drop_first()) == Some(m3));
                    },
                    None => {},
                }
            }
        },
        None => {},
    }
}

/// Once a prefix fails to fold, the whole sequence fails.
pub proof fn lemma_fold_model_prefix_fail<A: Aggregate>(m: A::Model, s: Seq<A::Event>, i: int)
    requires
        0 <= i < s.len(),
        fold_model::<A>(m, s.take(i)) matches Some(mi) && A::apply_model(mi, s[i]) is None,
    ensures
        fold_model::<A>(m, s) is None,
{
    let mi = fold_model::<A>(m, s.take(i))->0;
    assert(s =~= s.take(i) + s.skip(i));
    lemma_fold_model_app::<A>(m, s.take(i), s.skip(i));
    assert(s.skip(i)[0] == s[i]);
    assert(fold_model::<A>(mi, s.skip(i)) is None);
}

/// Folding never changes the identity of the model.
pub proof fn lemma_fold_preserves_id<A: Aggregate>(m: A::Model, evs: Seq<A::Event>)
    ensures
        fold_model::<A>(m, evs) matches Some(m2) ==> A::model_id(m2) == A::model_id(m),
    decreases evs.len(),
{
    if evs.len() > 0 {
        A::lemma_apply_preserves_id(m, evs[0]);
        match A::apply_model(m, evs[0]) {
            Some(m2) => {
                lemma_fold_preserves_id::<A>(m2, evs.drop_first());
            },
            None => {},
        }
    }
}

/// The command handlers of an aggregate. `create_ok` and `update_ok` say on
/// which inputs a handler succeeds; the `events` relations say which event
/// sequences it may then emit (a relation, because a handler may draw fresh
/// identifiers from the context).
pub trait CommandHandler: Aggregate {
    type CreateCommand;

    type UpdateCommand;

    /// The opaque, immutable services bag handlers may consult.
    type Services;

    spec fn create_ok(
        m: Self::Model,
        services: &Self::Services,
        command: &Self::CreateCommand,
    ) -> bool;

    spec fn create_events_spec(
        m: Self::Model,
        services: &Self::Services,
        command: &Self::CreateCommand,
        events: Seq<Self::Event>,
    ) -> bool;

    spec fn update_ok(
        m: Self::Model,
        services: &Self::Services,
        command: &Self::UpdateCommand,
    ) -> bool;

    spec fn update_events_spec(
        m: Self::Model,
        services: &Self::Services,
        command: &Self::UpdateCommand,
        events: Seq<Self::Event>,
    ) -> bool;

    /// The error a rejected creation command produces in the given state.
    spec fn create_rejection(
        m: Self::Model,
        services: &Self::Services,
        command: &Self::CreateCommand,
        error: CqrsError,
    ) -> bool;

    /// The error a rejected update command produces in the given state.
    spec fn update_rejection(
        m: Self::Model,
        services: &Self::Services,
        command: &Self::UpdateCommand,
        error: CqrsError,
    ) -> bool;

    /// Validate a creation command against the (default) state and emit the
    /// aggregate's first events.
    fn handle_create(
        &self,
        command: Self::CreateCommand,
        services: &Self::Services,
        context: &CqrsContext,
    ) -> (r: Result<Vec<Self::Event>, CqrsError>)
        ensures
            r matches Ok(evs) ==> Self::create_ok(self.model(), services, &command)
                && Self::create_events_spec(self.model(), services, &command, evs@),
            r matches Err(e) ==> !Self::create_ok(self.model(), services, &command)
                && Self::create_rejection(self.model(), services, &command, e),
    ;

    /// Validate an update command against the current state and emit the
    /// events that extend the journal.
    fn handle_update(
        &self,
        command: Self::UpdateCommand,
        services: &Self::Services,
        context: &CqrsContext,
    ) -> (r: Result<Vec<Self::Event>, CqrsError>)
        ensures
            r matches Ok(evs) ==> Self::update_ok(self.model(), services, &command)
                && Self::update_events_spec(self.model(), services, &command, evs@),
            r matches Err(e) ==> !Self::update_ok(self.model(), services, &command)
                && Self::update_rejection(self.model(), services, &command, e),
    ;
}

} // verus!
