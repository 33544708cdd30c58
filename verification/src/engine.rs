//! The command engine: create/update entry points, metadata assembly,
//! error-handler hook and dispatcher fan-out.
//!
//! A command enters, the engine loads (create: a fresh default; update: the
//! snapshot plus replayed tail) the aggregate, the aggregate validates the
//! command and emits events, the engine folds them into a local copy, commits
//! them with optimistic concurrency, and hands the committed envelopes to
//! every dispatcher in order. A failing dispatcher is reported to the error
//! handler and never fails the command: by then the commit is durable.

use vstd::prelude::*;

use crate::aggregate::{
    fold_model, lemma_fold_model_app, lemma_fold_model_prefix_fail, lemma_fold_model_snoc,
    lemma_fold_preserves_id, Aggregate, CommandHandler,
};
use crate::context::CqrsContext;
use crate::denormalizer::Dispatcher;
use crate::errors::{
    spec_is_aggregate_already_exists, spec_is_aggregate_not_found, spec_is_database_error,
    AggregateError, CqrsError,
};
use crate::event::{envs_like, payloads_of, Event, EventEnvelope};
use crate::event_store::EventStoreImpl;
use crate::store::{built_envelopes, events_at, EventStoreStorage};
use crate::string_map::StringMap;

verus! {

/// The body a successful create returns to a caller at the wire.
pub struct CreationResult {
    pub id: String,
}

/// The body a successful update returns to a caller at the wire.
pub struct UpdateResult;

/// The hook invoked for each dispatcher that fails. `handled` is the
/// implementation's own relation between its state before and after one
/// report.
pub trait ErrorHandler: Sized {
    spec fn handled(pre: Self, post: Self, error: CqrsError) -> bool;

    fn on_error(&mut self, error: &CqrsError)
        ensures
            Self::handled(*old(self), *final (self), *error),
    ;
}

/// An error handler that swallows every report.
pub struct NoopErrorHandler {}

impl ErrorHandler for NoopErrorHandler {
    open spec fn handled(pre: Self, post: Self, error: CqrsError) -> bool {
        post == pre
    }

    fn on_error(&mut self, error: &CqrsError) {
    }
}

/// An error handler that counts the reports it receives.
pub struct CountingErrorHandler {
    pub count: usize,
}

impl CountingErrorHandler {
    pub fn new() -> (r: Self)
        ensures
            r.count == 0,
    {
        CountingErrorHandler { count: 0 }
    }
}

impl ErrorHandler for CountingErrorHandler {
    open spec fn handled(pre: Self, post: Self, error: CqrsError) -> bool {
        post.count == if pre.count < usize::MAX {
            pre.count + 1
        } else {
            pre.count as int
        }
    }

    fn on_error(&mut self, error: &CqrsError) {
        if self.count < usize::MAX {
            self.count = self.count + 1;
        }
    }
}

/// The metadata merge of one commit: every caller key survives unchanged,
/// and `user_id` / `request_id` are filled from the context wherever the
/// caller did not supply them. Caller keys win on collision.
pub open spec fn merged_metadata_ok(
    m: Map<Seq<char>, String>,
    caller: Map<Seq<char>, String>,
    context: &CqrsContext,
) -> bool {
    &&& m.dom() == caller.dom().insert("user_id"@).insert("request_id"@)
    &&& forall|k: Seq<char>| #[trigger] caller.dom().contains(k) ==> m[k] == caller[k]
    &&& !caller.dom().contains("user_id"@) ==> m["user_id"@]@ == context.current_user_spec()
    &&& !caller.dom().contains("request_id"@) ==> m["request_id"@]@ == context.request_id_spec()
}

/// Build the metadata of one commit from the caller's map and the context.
fn merged_with_context(caller: &StringMap<String>, context: &CqrsContext) -> (r: StringMap<String>)
    requires
        caller.wf(),
    ensures
        r.wf(),
        merged_metadata_ok(r@, caller@, context),
{
    let mut defaults = StringMap::new();
    defaults.insert("user_id".to_owned(), context.current_user());
    defaults.insert("request_id".to_owned(), context.request_id());
    proof {
        reveal_strlit("user_id");
        reveal_strlit("request_id");
        assert("user_id"@.len() == 7);
        assert("request_id"@.len() == 10);
    }
    let r = StringMap::merged(&defaults, caller);
    proof {
        assert(r@.dom() =~= caller@.dom().insert("user_id"@).insert("request_id"@));
    }
    r
}

/// The engine. It owns the event store, the registered dispatchers, the
/// immutable services bag handed to every command handler, and the error
/// handler invoked for dispatcher failures.
pub struct CqrsCommandEngine<
    A: CommandHandler,
    P: EventStoreStorage<A>,
    D: Dispatcher<A>,
    H: ErrorHandler,
> {
    store: EventStoreImpl<A, P>,
    dispatchers: Vec<D>,
    services: A::Services,
    error_handler: H,
}

impl<A: CommandHandler, P: EventStoreStorage<A>, D: Dispatcher<A>, H: ErrorHandler> CqrsCommandEngine<
    A,
    P,
    D,
    H,
> {
    pub closed spec fn store_spec(&self) -> EventStoreImpl<A, P> {
        self.store
    }

    pub closed spec fn dispatchers_spec(&self) -> Seq<D> {
        self.dispatchers@
    }

    pub closed spec fn services_spec(&self) -> A::Services {
        self.services
    }

    pub closed spec fn error_handler_spec(&self) -> H {
        self.error_handler
    }

    /// Every registered dispatcher is in shape.
    pub open spec fn dispatchers_ok(&self) -> bool {
        forall|i: int|
            0 <= i < self.dispatchers_spec().len() ==> (#[trigger] self.dispatchers_spec()[i]).ready()
    }

    pub open spec fn inv(&self) -> bool {
        self.store_spec().inv() && self.dispatchers_ok()
    }

    pub open spec fn journal(&self) -> Map<Seq<char>, Seq<EventEnvelope<A::Event>>> {
        self.store_spec().journal()
    }

    pub open spec fn snapshots(&self) -> Map<Seq<char>, crate::snapshot::Snapshot<A>> {
        self.store_spec().snapshots()
    }

    pub open spec fn reliable(&self) -> bool {
        self.store_spec().reliable()
    }

    /// The state of one aggregate as the fold of its whole journal.
    pub open spec fn loaded_model(&self, id: Seq<char>) -> Option<A::Model> {
        fold_model::<A>(
            A::with_id_model(A::default_model(), id),
            payloads_of(events_at(self.journal(), id)),
        )
    }

    /// The error handler absorbed exactly the failing outcomes, in order: a
    /// success leaves it untouched, a failure drives it through one
    /// `handled` step with that failure's error.
    pub open spec fn reported_errors(
        pre: H,
        post: H,
        outcomes: Seq<Result<(), CqrsError>>,
    ) -> bool
        decreases outcomes.len(),
    {
        if outcomes.len() == 0 {
            post == pre
        } else {
            match outcomes.last() {
                Ok(u) => Self::reported_errors(pre, post, outcomes.drop_last()),
                Err(e) => exists|mid: H|
                    Self::reported_errors(pre, mid, outcomes.drop_last()) && H::handled(
                        mid,
                        post,
                        e,
                    ),
            }
        }
    }

    /// Every dispatcher was driven once, in place, with the same envelopes:
    /// there is a sequence of outcomes, one per dispatcher, under which each
    /// dispatcher's own `dispatched` relation ties its old state to its new
    /// one, and the error handler was invoked once per failing outcome.
    pub open spec fn dispatched_all(
        pre: Seq<D>,
        post: Seq<D>,
        pre_handler: H,
        post_handler: H,
        id: Seq<char>,
        events: Seq<EventEnvelope<A::Event>>,
    ) -> bool {
        &&& pre.len() == post.len()
        &&& exists|outcomes: Seq<Result<(), CqrsError>>|
            #![auto]
            outcomes.len() == pre.len() && (forall|i: int|
                0 <= i < pre.len() ==> D::dispatched(
                    pre[i],
                    #[trigger] post[i],
                    id,
                    events,
                    outcomes[i],
                )) && Self::reported_errors(pre_handler, post_handler, outcomes)
    }

    /// The state change of one successful commit of `evs` onto aggregate
    /// `id` whose journal held `len0` envelopes: the journal gained exactly
    /// the envelopes built from `evs` (dense versions, shared metadata `m`,
    /// one timestamp), every other aggregate is untouched, the snapshot of
    /// `id` moved to the new length, and every dispatcher received a copy of
    /// the committed envelopes.
    pub open spec fn commit_shape(
        pre: Self,
        post: Self,
        id: Seq<char>,
        len0: int,
        evs: Seq<A::Event>,
        m: Map<Seq<char>, String>,
        context: &CqrsContext,
    ) -> bool {
        &&& events_at(post.journal(), id).len() == len0 + evs.len()
        &&& events_at(post.journal(), id).take(len0) == events_at(pre.journal(), id)
        &&& built_envelopes(
            events_at(post.journal(), id).skip(len0),
            id,
            len0,
            evs,
            m,
            context.now_spec(),
        )
        &&& forall|k: Seq<char>|
            k != id ==> #[trigger] events_at(post.journal(), k) == events_at(pre.journal(), k)
        &&& post.snapshots().dom() == pre.snapshots().dom().insert(id)
        &&& post.snapshots()[id].aggregate_id@ == id
        &&& post.snapshots()[id].version == len0 + evs.len()
        &&& forall|k: Seq<char>|
            k != id && pre.snapshots().dom().contains(k) ==> #[trigger] post.snapshots()[k]
                == pre.snapshots()[k]
        &&& exists|cvs: Seq<EventEnvelope<A::Event>>|
            #![auto]
            envs_like(cvs, events_at(post.journal(), id).skip(len0)) && Self::dispatched_all(
                pre.dispatchers_spec(),
                post.dispatchers_spec(),
                pre.error_handler_spec(),
                post.error_handler_spec(),
                id,
                cvs,
            )
    }

    /// What a successful create did: the id was fresh, the handler allowed
    /// the committed events against the stamped default state, the metadata
    /// was merged with caller priority, and, unless the handler emitted no
    /// events at all, the commit landed as `commit_shape` says.
    pub open spec fn created_ok(
        pre: Self,
        post: Self,
        command: &A::CreateCommand,
        caller: Map<Seq<char>, String>,
        context: &CqrsContext,
        id: Seq<char>,
    ) -> bool {
        &&& id.len() == 36
        &&& !pre.snapshots().dom().contains(id)
        &&& events_at(pre.journal(), id).len() == 0
        &&& post.services_spec() == pre.services_spec()
        &&& exists|evs: Seq<A::Event>|
            #![auto]
            {
                &&& A::create_events_spec(
                    A::with_id_model(A::default_model(), id),
                    &pre.services_spec(),
                    command,
                    evs,
                )
                &&& if evs.len() == 0 {
                    &&& post.journal() == pre.journal()
                    &&& post.snapshots() == pre.snapshots()
                    &&& post.dispatchers_spec() == pre.dispatchers_spec()
                    &&& post.error_handler_spec() == pre.error_handler_spec()
                } else {
                    exists|m: Map<Seq<char>, String>|
                        #![auto]
                        merged_metadata_ok(m, caller, context) && Self::commit_shape(
                            pre,
                            post,
                            id,
                            0,
                            evs,
                            m,
                            context,
                        )
                }
            }
    }

    /// What a successful update did, against the loaded state.
    pub open spec fn updated_ok(
        pre: Self,
        post: Self,
        command: &A::UpdateCommand,
        caller: Map<Seq<char>, String>,
        context: &CqrsContext,
        id: Seq<char>,
    ) -> bool {
        &&& pre.snapshots().dom().contains(id)
        &&& post.services_spec() == pre.services_spec()
        &&& exists|evs: Seq<A::Event>|
            #![auto]
            {
                &&& (pre.loaded_model(id) matches Some(lm) && A::update_events_spec(
                    lm,
                    &pre.services_spec(),
                    command,
                    evs,
                ))
                &&& if evs.len() == 0 {
                    &&& post.journal() == pre.journal()
                    &&& post.snapshots() == pre.snapshots()
                    &&& post.dispatchers_spec() == pre.dispatchers_spec()
                    &&& post.error_handler_spec() == pre.error_handler_spec()
                } else {
                    exists|m: Map<Seq<char>, String>|
                        #![auto]
                        merged_metadata_ok(m, caller, context) && Self::commit_shape(
                            pre,
                            post,
                            id,
                            events_at(pre.journal(), id).len() as int,
                            evs,
                            m,
                            context,
                        )
                }
            }
    }

    /// The inputs on which an update is owed success: the store works, the
    /// aggregate exists, its handler accepts the command, and every event
    /// sequence the handler may emit folds cleanly and fits the journal.
    pub open spec fn update_succeeds(pre: Self, command: &A::UpdateCommand, id: Seq<char>) -> bool {
        &&& pre.reliable()
        &&& pre.snapshots().dom().contains(id)
        &&& pre.loaded_model(id) matches Some(lm) && A::update_ok(lm, &pre.services_spec(), command)
            && (forall|evs: Seq<A::Event>|
            #[trigger] A::update_events_spec(lm, &pre.services_spec(), command, evs) ==> (
            fold_model::<A>(lm, evs) is Some && events_at(pre.journal(), id).len() + evs.len()
                <= usize::MAX))
    }

    /// The inputs on which a create is owed success: the store works, and
    /// every 36-character id is fresh and accepted, so that whatever id is
    /// drawn, the handler validates the command against the stamped default
    /// state and every event sequence it may emit folds cleanly.
    pub open spec fn create_succeeds(pre: Self, command: &A::CreateCommand) -> bool {
        &&& pre.reliable()
        &&& forall|id: Seq<char>|
            id.len() == 36 ==> {
                let m0 = A::with_id_model(A::default_model(), id);
                &&& !(#[trigger] pre.snapshots().dom().contains(id))
                &&& events_at(pre.journal(), id).len() == 0
                &&& A::create_ok(m0, &pre.services_spec(), command)
                &&& forall|evs: Seq<A::Event>|
                    #[trigger] A::create_events_spec(m0, &pre.services_spec(), command, evs) ==> (
                    fold_model::<A>(m0, evs) is Some && evs.len() <= usize::MAX)
            }
    }

    /// What a failed create on a reliable store reported, for the id it
    /// drew: the id was occupied and the error is `aggregate_already_exists`;
    /// or the handler rejected the command with its own domain error; or one
    /// of the emitted events did not fold and the apply error, a user error,
    /// surfaced.
    pub open spec fn create_failed(
        pre: Self,
        command: &A::CreateCommand,
        id: Seq<char>,
        e: CqrsError,
    ) -> bool {
        let m0 = A::with_id_model(A::default_model(), id);
        let occupied = pre.snapshots().dom().contains(id) || events_at(pre.journal(), id).len()
            > 0;
        ||| (occupied && spec_is_aggregate_already_exists(e))
        ||| (!occupied && !A::create_ok(m0, &pre.services_spec(), command) && A::create_rejection(
            m0,
            &pre.services_spec(),
            command,
            e,
        ))
        ||| (!occupied && A::create_ok(m0, &pre.services_spec(), command) && (exists|evs: Seq<A::Event>|
            #[trigger] A::create_events_spec(m0, &pre.services_spec(), command, evs)
                && fold_model::<A>(m0, evs) is None) && e.kind_spec()
            == AggregateError::UserError)
    }

    /// What a failed update on a reliable store reported: the aggregate was
    /// absent and the error is `aggregate_not_found`; or the handler rejected
    /// the command with its own domain error; or one of the emitted events
    /// did not fold and the apply error, a user error, surfaced; or the batch
    /// would overflow the journal and a database error surfaced.
    pub open spec fn update_failed(
        pre: Self,
        command: &A::UpdateCommand,
        id: Seq<char>,
        e: CqrsError,
    ) -> bool {
        ||| (!pre.snapshots().dom().contains(id) && spec_is_aggregate_not_found(e))
        ||| (pre.snapshots().dom().contains(id) && (pre.loaded_model(id) matches Some(lm) && {
            ||| (!A::update_ok(lm, &pre.services_spec(), command) && A::update_rejection(
                lm,
                &pre.services_spec(),
                command,
                e,
            ))
            ||| (A::update_ok(lm, &pre.services_spec(), command) && (exists|evs: Seq<A::Event>|
                #[trigger] A::update_events_spec(lm, &pre.services_spec(), command, evs)
                    && fold_model::<A>(lm, evs) is None) && e.kind_spec()
                == AggregateError::UserError)
            ||| (A::update_ok(lm, &pre.services_spec(), command) && (exists|evs: Seq<A::Event>|
                #[trigger] A::update_events_spec(lm, &pre.services_spec(), command, evs)
                    && events_at(pre.journal(), id).len() + evs.len() > usize::MAX)
                && spec_is_database_error(e))
        }))
    }

    pub fn new(
        store: EventStoreImpl<A, P>,
        dispatchers: Vec<D>,
        services: A::Services,
        error_handler: H,
    ) -> (r: Self)
        requires
            store.inv(),
            forall|i: int| 0 <= i < dispatchers@.len() ==> (#[trigger] dispatchers@[i]).ready(),
        ensures
            r.inv(),
            r.store_spec() == store,
            r.dispatchers_spec() == dispatchers@,
            r.services_spec() == services,
            r.error_handler_spec() == error_handler,
    {
        CqrsCommandEngine { store, dispatchers, services, error_handler }
    }

    /// Register one more dispatcher, behind those already registered.
    pub fn append_dispatcher(&mut self, dispatcher: D)
        requires
            dispatcher.ready(),
        ensures
            final (self).store_spec() == old(self).store_spec(),
            final (self).services_spec() == old(self).services_spec(),
            final (self).error_handler_spec() == old(self).error_handler_spec(),
            final (self).dispatchers_spec() == old(self).dispatchers_spec().push(dispatcher),
    {
        self.dispatchers.push(dispatcher);
    }

    /// The event store, for read paths beside the command flow.
    pub fn store(&self) -> (r: &EventStoreImpl<A, P>)
        ensures
            *r == self.store_spec(),
    {
        &self.store
    }

    pub fn dispatchers(&self) -> (r: &Vec<D>)
        ensures
            r@ == self.dispatchers_spec(),
    {
        &self.dispatchers
    }

    pub fn error_handler(&self) -> (r: &H)
        ensures
            *r == self.error_handler_spec(),
    {
        &self.error_handler
    }

    pub fn services(&self) -> (r: &A::Services)
        ensures
            *r == self.services_spec(),
    {
        &self.services
    }

    /// Hand the committed envelopes to every dispatcher in registration
    /// order. A failure is reported to the error handler, once per failing
    /// dispatcher, and the loop goes on: commit durability is never undone
    /// by a projection.
    fn handle_events(
        &mut self,
        aggregate_id: &str,
        events: &Vec<EventEnvelope<A::Event>>,
        context: &CqrsContext,
    )
        requires
            old(self).dispatchers_ok(),
        ensures
            final (self).store_spec() == old(self).store_spec(),
            final (self).services_spec() == old(self).services_spec(),
            final (self).dispatchers_ok(),
            Self::dispatched_all(
                old(self).dispatchers_spec(),
                final (self).dispatchers_spec(),
                old(self).error_handler_spec(),
                final (self).error_handler_spec(),
                aggregate_id@,
                events@,
            ),
    {
        let ghost orig = *self;
        proof {
            assert forall|j: int| 0 <= j < self.dispatchers@.len() implies (#[trigger] self.dispatchers@[j]).ready() by {
                assert(self.dispatchers@[j] == self.dispatchers_spec()[j]);
            }
        }
        let ghost mut outcomes: Seq<Result<(), CqrsError>> = Seq::empty();
        let n = self.dispatchers.len();
        let mut i: usize = 0;
        while i < n
            invariant
                n == self.dispatchers@.len(),
                n == orig.dispatchers@.len(),
                0 <= i <= n,
                self.store == orig.store,
                self.services == orig.services,
                orig.dispatchers_ok(),
                forall|j: int| 0 <= j < n ==> (#[trigger] self.dispatchers@[j]).ready(),
                outcomes.len() == i,
                forall|j: int|
                    0 <= j < i ==> D::dispatched(
                        orig.dispatchers@[j],
                        #[trigger] self.dispatchers@[j],
                        aggregate_id@,
                        events@,
                        outcomes[j],
                    ),
                forall|j: int|
                    i <= j < n ==> #[trigger] self.dispatchers@[j] == orig.dispatchers@[j],
                Self::reported_errors(orig.error_handler, self.error_handler, outcomes),
            decreases n - i,
        {
            let ghost pre_list = self.dispatchers@;
            proof {
                assert(self.dispatchers@[i as int].ready());
            }
            let d = &mut self.dispatchers[i];
            let r = d.dispatch(aggregate_id, events, context);
            let ghost gr = r;
            let ghost pre_handler = self.error_handler;
            proof {
                assert(self.dispatchers@ == pre_list.update(
                    i as int,
                    self.dispatchers@[i as int],
                ));
                assert(D::dispatched(
                    pre_list[i as int],
                    self.dispatchers@[i as int],
                    aggregate_id@,
                    events@,
                    gr,
                ));
            }
            match r {
                Ok(()) => {},
                Err(e) => {
                    self.error_handler.on_error(&e);
                },
            }
            proof {
                let prev_outcomes = outcomes;
                outcomes = outcomes.push(gr);
                assert(outcomes.drop_last() =~= prev_outcomes);
                assert(outcomes.last() == gr);
                match gr {
                    Ok(u) => {
                        assert(self.error_handler == pre_handler);
                    },
                    Err(e) => {
                        assert(H::handled(pre_handler, self.error_handler, e));
                        assert(Self::reported_errors(
                            orig.error_handler,
                            pre_handler,
                            prev_outcomes,
                        ));
                    },
                }
                assert(Self::reported_errors(orig.error_handler, self.error_handler, outcomes));
            }
            proof {
                assert forall|j: int| 0 <= j < n implies (#[trigger] self.dispatchers@[j]).ready() by {
                    if j != i {
                        assert(self.dispatchers@[j] == pre_list[j]);
                    }
                }
            }
            i = i + 1;
        }
        proof {
            assert(orig == *old(self));
            assert forall|j: int|
                0 <= j < self.dispatchers_spec().len() implies (#[trigger] self.dispatchers_spec()[j]).ready() by {
                assert(self.dispatchers_spec()[j] == self.dispatchers@[j]);
            }
            assert(self.dispatchers_ok());
            assert(Self::dispatched_all(
                old(self).dispatchers_spec(),
                self.dispatchers_spec(),
                old(self).error_handler_spec(),
                self.error_handler_spec(),
                aggregate_id@,
                events@,
            ));
        }
    }

    /// Fold the emitted events into the aggregate, commit them at the
    /// expected version with merged metadata, and fan the committed
    /// envelopes out. An empty event list skips the commit and the fan-out
    /// entirely.
    fn process(
        &mut self,
        aggregate_id: &String,
        aggregate: A,
        version: usize,
        events: Vec<A::Event>,
        metadata: &StringMap<String>,
        context: &CqrsContext,
    ) -> (r: Result<(), CqrsError>)
        requires
            old(self).inv(),
            metadata.wf(),
            aggregate_id@ == A::model_id(aggregate.model()),
            version == events_at(old(self).journal(), aggregate_id@).len(),
            old(self).loaded_model(aggregate_id@) == Some(aggregate.model()),
        ensures
            final (self).inv(),
            final (self).reliable() == old(self).reliable(),
            final (self).services_spec() == old(self).services_spec(),
            r is Err ==> final (self).journal() == old(self).journal() && final (self).snapshots()
                == old(self).snapshots() && final (self).dispatchers_spec() == old(
                self,
            ).dispatchers_spec() && final (self).error_handler_spec() == old(
                self,
            ).error_handler_spec(),
            fold_model::<A>(aggregate.model(), events@) is None ==> r is Err,
            old(self).reliable() && fold_model::<A>(aggregate.model(), events@) is Some && version
                + events@.len() <= usize::MAX ==> r is Ok,
            old(self).reliable() ==> (r matches Err(e) ==> ((fold_model::<A>(
                aggregate.model(),
                events@,
            ) is None && e.kind_spec() == AggregateError::UserError) || (version + events@.len()
                > usize::MAX && spec_is_database_error(e)))),
            r is Ok ==> if events@.len() == 0 {
                final (self).journal() == old(self).journal() && final (self).snapshots() == old(
                    self,
                ).snapshots() && final (self).dispatchers_spec() == old(self).dispatchers_spec()
                    && final (self).error_handler_spec() == old(self).error_handler_spec()
            } else {
                exists|m: Map<Seq<char>, String>|
                    #![auto]
                    merged_metadata_ok(m, metadata@, context) && Self::commit_shape(
                        *old(self),
                        *final (self),
                        aggregate_id@,
                        version as int,
                        events@,
                        m,
                        context,
                    )
            },
    {
        let mut state = aggregate;
        let ghost m0 = state.model();
        let n = events.len();
        let mut i: usize = 0;
        while i < n
            invariant
                n == events@.len(),
                0 <= i <= n,
                *self == *old(self),
                old(self).inv(),
                m0 == aggregate.model(),
                fold_model::<A>(m0, events@.take(i as int)) == Some(state.model()),
            decreases n - i,
        {
            let ghost mi = state.model();
            let event = events[i].clone_event();
            match state.apply(event) {
                Ok(()) => {},
                Err(e) => {
                    proof {
                        lemma_fold_model_prefix_fail::<A>(m0, events@, i as int);
                    }
                    return Err(e);
                },
            }
            proof {
                lemma_fold_model_snoc::<A>(m0, events@.take(i as int), events@[i as int]);
                assert(events@.take(i + 1) =~= events@.take(i as int).push(events@[i as int]));
            }
            i = i + 1;
        }
        proof {
            assert(events@.take(n as int) =~= events@);
        }
        if events.is_empty() {
            return Ok(());
        }
        let merged = merged_with_context(metadata, context);
        let ghost mm = merged@;
        proof {
            lemma_fold_preserves_id::<A>(m0, events@);
            lemma_fold_model_app::<A>(
                A::with_id_model(A::default_model(), aggregate_id@),
                payloads_of(events_at(old(self).journal(), aggregate_id@)),
                events@,
            );
        }
        let committed = match self.store.commit(events, &state, merged, version, context) {
            Ok(envs) => envs,
            Err(e) => {
                proof {
                    assert(self.dispatchers_spec() == old(self).dispatchers_spec());
                    assert(self.error_handler_spec() == old(self).error_handler_spec());
                    assert(self.dispatchers_ok());
                    if old(self).reliable() {
                        assert(version + events@.len() > usize::MAX);
                    }
                }
                return Err(e);
            },
        };
        let ghost mid_engine = *self;
        proof {
            assert(self.dispatchers_spec() == old(self).dispatchers_spec());
            assert(self.error_handler_spec() == old(self).error_handler_spec());
            assert(self.dispatchers_ok());
        }
        self.handle_events(aggregate_id.as_str(), &committed, context);
        proof {
            let id = aggregate_id@;
            assert(merged_metadata_ok(mm, metadata@, context));
            assert(self.store_spec() == mid_engine.store_spec());
            assert(envs_like(committed@, events_at(self.journal(), id).skip(version as int)));
            assert(Self::dispatched_all(
                old(self).dispatchers_spec(),
                self.dispatchers_spec(),
                old(self).error_handler_spec(),
                self.error_handler_spec(),
                id,
                committed@,
            ));
            assert(Self::commit_shape(*old(self), *self, id, version as int, events@, mm, context));
        }
        Ok(())
    }

    /// Create a new aggregate under a fresh id: initialize the default
    /// state, let the handler validate the command and emit the first
    /// events, then commit them at version 0 and fan them out. The fresh id
    /// is returned.
    pub fn execute_create_with_metadata(
        &mut self,
        command: A::CreateCommand,
        metadata: StringMap<String>,
        context: &CqrsContext,
    ) -> (r: Result<String, CqrsError>)
        requires
            old(self).inv(),
            metadata.wf(),
        ensures
            final (self).inv(),
            final (self).reliable() == old(self).reliable(),
            final (self).services_spec() == old(self).services_spec(),
            r is Err ==> final (self).journal() == old(self).journal() && final (self).snapshots()
                == old(self).snapshots() && final (self).dispatchers_spec() == old(
                self,
            ).dispatchers_spec() && final (self).error_handler_spec() == old(
                self,
            ).error_handler_spec(),
            r matches Ok(aid) ==> Self::created_ok(
                *old(self),
                *final (self),
                &command,
                metadata@,
                context,
                aid@,
            ),
            Self::create_succeeds(*old(self), &command) ==> r is Ok,
            old(self).reliable() ==> (r matches Err(e) ==> exists|id: Seq<char>|
                id.len() == 36 && #[trigger] Self::create_failed(*old(self), &command, id, e)),
    {
        let aggregate_id = context.next_uuid();
        let ghost gid = aggregate_id@;
        let (aggregate, version) = match self.store.initialize_aggregate(aggregate_id.as_str()) {
            Ok(p) => p,
            Err(e) => {
                proof {
                    if Self::create_succeeds(*old(self), &command) {
                        assert(!old(self).snapshots().dom().contains(gid) && events_at(
                            old(self).journal(),
                            gid,
                        ).len() == 0);
                    }
                    if old(self).reliable() {
                        assert(Self::create_failed(*old(self), &command, gid, e));
                    }
                }
                return Err(e);
            },
        };
        let events = match aggregate.handle_create(command, &self.services, context) {
            Ok(evs) => evs,
            Err(e) => {
                proof {
                    A::lemma_with_id_model(A::default_model(), gid);
                    if Self::create_succeeds(*old(self), &command) {
                        assert(!old(self).snapshots().dom().contains(gid));
                        assert(A::create_ok(aggregate.model(), &old(self).services_spec(), &command));
                    }
                    if old(self).reliable() {
                        assert(Self::create_failed(*old(self), &command, gid, e));
                    }
                }
                return Err(e);
            },
        };
        let ghost evs = events@;
        proof {
            A::lemma_with_id_model(A::default_model(), aggregate_id@);
            assert(payloads_of(events_at(old(self).journal(), aggregate_id@)) =~= Seq::<
                A::Event,
            >::empty());
            assert(evs.len() <= usize::MAX) by {
                assert(events.len() == evs.len());
            }
        }
        match self.process(&aggregate_id, aggregate, version, events, &metadata, context) {
            Ok(()) => {},
            Err(e) => {
                proof {
                    if Self::create_succeeds(*old(self), &command) {
                        assert(!old(self).snapshots().dom().contains(gid));
                        assert(A::create_events_spec(
                            A::with_id_model(A::default_model(), gid),
                            &old(self).services_spec(),
                            &command,
                            evs,
                        ));
                        assert(fold_model::<A>(aggregate.model(), evs) is Some);
                    }
                    if old(self).reliable() {
                        assert(fold_model::<A>(aggregate.model(), evs) is None && e.kind_spec()
                            == AggregateError::UserError);
                        assert(Self::create_failed(*old(self), &command, gid, e));
                    }
                }
                return Err(e);
            },
        }
        proof {
            let id = aggregate_id@;
            assert(A::create_events_spec(
                A::with_id_model(A::default_model(), id),
                &old(self).services_spec(),
                &command,
                evs,
            ));
            if evs.len() == 0 {
                assert(Self::created_ok(*old(self), *self, &command, metadata@, context, id));
            } else {
                let m = choose|m: Map<Seq<char>, String>|
                    #![auto]
                    merged_metadata_ok(m, metadata@, context) && Self::commit_shape(
                        *old(self),
                        *self,
                        id,
                        version as int,
                        evs,
                        m,
                        context,
                    );
                assert(merged_metadata_ok(m, metadata@, context) && Self::commit_shape(
                    *old(self),
                    *self,
                    id,
                    0,
                    evs,
                    m,
                    context,
                ));
                assert(Self::created_ok(*old(self), *self, &command, metadata@, context, id));
            }
        }
        Ok(aggregate_id)
    }

    /// `execute_create_with_metadata` without caller metadata.
    pub fn execute_create(&mut self, command: A::CreateCommand, context: &CqrsContext) -> (r:
        Result<String, CqrsError>)
        requires
            old(self).inv(),
        ensures
            final (self).inv(),
            final (self).reliable() == old(self).reliable(),
            final (self).services_spec() == old(self).services_spec(),
            r is Err ==> final (self).journal() == old(self).journal() && final (self).snapshots()
                == old(self).snapshots() && final (self).dispatchers_spec() == old(
                self,
            ).dispatchers_spec() && final (self).error_handler_spec() == old(
                self,
            ).error_handler_spec(),
            r matches Ok(aid) ==> Self::created_ok(
                *old(self),
                *final (self),
                &command,
                Map::empty(),
                context,
                aid@,
            ),
            Self::create_succeeds(*old(self), &command) ==> r is Ok,
            old(self).reliable() ==> (r matches Err(e) ==> exists|id: Seq<char>|
                id.len() == 36 && #[trigger] Self::create_failed(*old(self), &command, id, e)),
    {
        self.execute_create_with_metadata(command, StringMap::new(), context)
    }

    /// Update an existing aggregate: load it, let the handler validate the
    /// command against the current state and emit events, commit them at the
    /// loaded version and fan them out. An empty event list is a no-op
    /// command: nothing is committed and nothing dispatched.
    pub fn execute_update_with_metadata(
        &mut self,
        aggregate_id: &str,
        command: A::UpdateCommand,
        metadata: StringMap<String>,
        context: &CqrsContext,
    ) -> (r: Result<(), CqrsError>)
        requires
            old(self).inv(),
            metadata.wf(),
        ensures
            final (self).inv(),
            final (self).reliable() == old(self).reliable(),
            final (self).services_spec() == old(self).services_spec(),
            r is Err ==> final (self).journal() == old(self).journal() && final (self).snapshots()
                == old(self).snapshots() && final (self).dispatchers_spec() == old(
                self,
            ).dispatchers_spec() && final (self).error_handler_spec() == old(
                self,
            ).error_handler_spec(),
            r is Ok ==> Self::updated_ok(
                *old(self),
                *final (self),
                &command,
                metadata@,
                context,
                aggregate_id@,
            ),
            Self::update_succeeds(*old(self), &command, aggregate_id@) ==> r is Ok,
            old(self).reliable() ==> (r matches Err(e) ==> Self::update_failed(
                *old(self),
                &command,
                aggregate_id@,
                e,
            )),
    {
        let (aggregate, version) = match self.store.load_aggregate(aggregate_id) {
            Ok(p) => p,
            Err(e) => {
                proof {
                    if old(self).reliable() {
                        assert(!old(self).snapshots().dom().contains(aggregate_id@));
                        assert(Self::update_failed(*old(self), &command, aggregate_id@, e));
                    }
                }
                return Err(e);
            },
        };
        let events = match aggregate.handle_update(command, &self.services, context) {
            Ok(evs) => evs,
            Err(e) => {
                proof {
                    if old(self).reliable() {
                        assert(old(self).loaded_model(aggregate_id@) == Some(aggregate.model()));
                        assert(Self::update_failed(*old(self), &command, aggregate_id@, e));
                    }
                }
                return Err(e);
            },
        };
        let ghost evs = events@;
        let ghost lm = aggregate.model();
        proof {
            A::lemma_with_id_model(A::default_model(), aggregate_id@);
            lemma_fold_preserves_id::<A>(
                A::with_id_model(A::default_model(), aggregate_id@),
                payloads_of(events_at(old(self).journal(), aggregate_id@)),
            );
        }
        let owned_id = aggregate_id.to_owned();
        match self.process(&owned_id, aggregate, version, events, &metadata, context) {
            Ok(()) => {},
            Err(e) => {
                proof {
                    if old(self).reliable() {
                        assert(old(self).loaded_model(aggregate_id@) == Some(lm));
                        assert(A::update_events_spec(lm, &old(self).services_spec(), &command, evs));
                        assert(Self::update_failed(*old(self), &command, aggregate_id@, e));
                    }
                }
                return Err(e);
            },
        }
        proof {
            let id = aggregate_id@;
            assert(old(self).loaded_model(id) == Some(lm));
            assert(A::update_events_spec(lm, &old(self).services_spec(), &command, evs));
            if evs.len() == 0 {
                assert(Self::updated_ok(*old(self), *self, &command, metadata@, context, id));
            } else {
                let m = choose|m: Map<Seq<char>, String>|
                    #![auto]
                    merged_metadata_ok(m, metadata@, context) && Self::commit_shape(
                        *old(self),
                        *self,
                        id,
                        version as int,
                        evs,
                        m,
                        context,
                    );
                assert(merged_metadata_ok(m, metadata@, context) && Self::commit_shape(
                    *old(self),
                    *self,
                    id,
                    events_at(old(self).journal(), id).len() as int,
                    evs,
                    m,
                    context,
                ));
                assert(Self::updated_ok(*old(self), *self, &command, metadata@, context, id));
            }
        }
        Ok(())
    }

    /// `execute_update_with_metadata` without caller metadata.
    pub fn execute_update(
        &mut self,
        aggregate_id: &str,
        command: A::UpdateCommand,
        context: &CqrsContext,
    ) -> (r: Result<(), CqrsError>)
        requires
            old(self).inv(),
        ensures
            final (self).inv(),
            final (self).reliable() == old(self).reliable(),
            final (self).services_spec() == old(self).services_spec(),
            r is Err ==> final (self).journal() == old(self).journal() && final (self).snapshots()
                == old(self).snapshots() && final (self).dispatchers_spec() == old(
                self,
            ).dispatchers_spec() && final (self).error_handler_spec() == old(
                self,
            ).error_handler_spec(),
            r is Ok ==> Self::updated_ok(
                *old(self),
                *final (self),
                &command,
                Map::empty(),
                context,
                aggregate_id@,
            ),
            Self::update_succeeds(*old(self), &command, aggregate_id@) ==> r is Ok,
            old(self).reliable() ==> (r matches Err(e) ==> Self::update_failed(
                *old(self),
                &command,
                aggregate_id@,
                e,
            )),
    {
        self.execute_update_with_metadata(aggregate_id, command, StringMap::new(), context)
    }
}

} // verus!
