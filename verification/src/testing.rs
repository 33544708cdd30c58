//! A minimal aggregate for exercising the engine: a named counter.

use vstd::prelude::*;

use crate::aggregate::{Aggregate, CommandHandler};
use crate::context::CqrsContext;
use crate::denormalizer::ViewProjection;
use crate::errors::CqrsError;
use crate::event::{Event, EventEnvelope};
use crate::read::storage::HasId;

verus! {

#[derive(Debug, PartialEq)]
pub enum TestEvent {
    Created { name: String },
    Updated { name: String },
    Incremented,
    Decremented,
}

impl Event for TestEvent {
    open spec fn event_type_spec(&self) -> Seq<char> {
        match self {
            TestEvent::Created { .. } => "Created"@,
            TestEvent::Updated { .. } => "Updated"@,
            TestEvent::Incremented => "Incremented"@,
            TestEvent::Decremented => "Decremented"@,
        }
    }

    fn event_type(&self) -> (r: String) {
        match self {
            TestEvent::Created { .. } => "Created".to_owned(),
            TestEvent::Updated { .. } => "Updated".to_owned(),
            TestEvent::Incremented => "Incremented".to_owned(),
            TestEvent::Decremented => "Decremented".to_owned(),
        }
    }

    fn clone_event(&self) -> (r: Self) {
        match self {
            TestEvent::Created { name } => TestEvent::Created { name: name.clone() },
            TestEvent::Updated { name } => TestEvent::Updated { name: name.clone() },
            TestEvent::Incremented => TestEvent::Incremented,
            TestEvent::Decremented => TestEvent::Decremented,
        }
    }
}

pub enum CreateCommand {
    Initialize { name: String },
}

pub enum UpdateCommand {
    Increment,
    Decrement,
}

/// The mathematical state of the test aggregate.
pub struct TestModel {
    pub id: Seq<char>,
    pub name: Seq<char>,
    pub counter: int,
}

/// A named counter.
#[derive(Debug)]
pub struct TestAggregate {
    pub id: String,
    pub name: String,
    pub counter: i64,
}

impl Aggregate for TestAggregate {
    type Event = TestEvent;

    type Model = TestModel;

    open spec fn aggregate_type_spec() -> Seq<char> {
        "TEST"@
    }

    fn aggregate_type() -> (r: &'static str) {
        "TEST"
    }

    open spec fn model(&self) -> TestModel {
        TestModel { id: self.id@, name: self.name@, counter: self.counter as int }
    }

    open spec fn model_id(m: TestModel) -> Seq<char> {
        m.id
    }

    open spec fn default_model() -> TestModel {
        TestModel { id: Seq::empty(), name: Seq::empty(), counter: 0 }
    }

    open spec fn with_id_model(m: TestModel, id: Seq<char>) -> TestModel {
        TestModel { id, ..m }
    }

    open spec fn apply_model(m: TestModel, event: TestEvent) -> Option<TestModel> {
        match event {
            TestEvent::Created { name } => Some(TestModel { name: name@, ..m }),
            TestEvent::Updated { name } => Some(TestModel { name: name@, ..m }),
            TestEvent::Incremented => if m.counter == i64::MAX {
                None
            } else {
                Some(TestModel { counter: m.counter + 1, ..m })
            },
            TestEvent::Decremented => if m.counter == i64::MIN {
                None
            } else {
                Some(TestModel { counter: m.counter - 1, ..m })
            },
        }
    }

    proof fn lemma_with_id_model(m: TestModel, id: Seq<char>) {
    }

    proof fn lemma_apply_preserves_id(m: TestModel, event: TestEvent) {
    }

    fn aggregate_id(&self) -> (r: String) {
        self.id.clone()
    }

    fn with_aggregate_id(self, id: String) -> (r: Self) {
        TestAggregate { id, ..self }
    }

    fn default_state() -> (r: Self) {
        proof {
            reveal_strlit("");
            assert(""@ =~= Seq::<char>::empty());
        }
        TestAggregate { id: "".to_owned(), name: "".to_owned(), counter: 0 }
    }

    fn clone_state(&self) -> (r: Self) {
        TestAggregate { id: self.id.clone(), name: self.name.clone(), counter: self.counter }
    }

    fn apply(&mut self, event: TestEvent) -> (r: Result<(), CqrsError>) {
        match event {
            TestEvent::Created { name } => {
                self.name = name;
                Ok(())
            },
            TestEvent::Updated { name } => {
                self.name = name;
                Ok(())
            },
            TestEvent::Incremented => {
                if self.counter == i64::MAX {
                    Err(CqrsError::user_error("Counter overflow".to_owned()))
                } else {
                    self.counter = self.counter + 1;
                    Ok(())
                }
            },
            TestEvent::Decremented => {
                if self.counter == i64::MIN {
                    Err(CqrsError::user_error("Counter underflow".to_owned()))
                } else {
                    self.counter = self.counter - 1;
                    Ok(())
                }
            },
        }
    }
}

impl CommandHandler for TestAggregate {
    type CreateCommand = CreateCommand;

    type UpdateCommand = UpdateCommand;

    type Services = ();

    open spec fn create_ok(m: TestModel, services: &(), command: &CreateCommand) -> bool {
        true
    }

    open spec fn create_events_spec(
        m: TestModel,
        services: &(),
        command: &CreateCommand,
        events: Seq<TestEvent>,
    ) -> bool {
        match command {
            CreateCommand::Initialize { name } => events == seq![
                TestEvent::Created { name: *name },
            ],
        }
    }

    open spec fn update_ok(m: TestModel, services: &(), command: &UpdateCommand) -> bool {
        true
    }

    open spec fn update_events_spec(
        m: TestModel,
        services: &(),
        command: &UpdateCommand,
        events: Seq<TestEvent>,
    ) -> bool {
        match command {
            UpdateCommand::Increment => events == seq![TestEvent::Incremented],
            UpdateCommand::Decrement => events == seq![TestEvent::Decremented],
        }
    }

    /// Neither handler ever fails, so no error is a rejection.
    open spec fn create_rejection(
        m: TestModel,
        services: &(),
        command: &CreateCommand,
        error: CqrsError,
    ) -> bool {
        false
    }

    open spec fn update_rejection(
        m: TestModel,
        services: &(),
        command: &UpdateCommand,
        error: CqrsError,
    ) -> bool {
        false
    }

    fn handle_create(
        &self,
        command: CreateCommand,
        services: &(),
        context: &CqrsContext,
    ) -> (r: Result<Vec<TestEvent>, CqrsError>) {
        match command {
            CreateCommand::Initialize { name } => {
                let events = vec![TestEvent::Created { name }];
                proof {
                    assert(events@ =~= seq![TestEvent::Created { name }]);
                }
                Ok(events)
            },
        }
    }

    fn handle_update(
        &self,
        command: UpdateCommand,
        services: &(),
        context: &CqrsContext,
    ) -> (r: Result<Vec<TestEvent>, CqrsError>) {
        match command {
            UpdateCommand::Increment => {
                let events = vec![TestEvent::Incremented];
                proof {
                    assert(events@ =~= seq![TestEvent::Incremented]);
                }
                Ok(events)
            },
            UpdateCommand::Decrement => {
                let events = vec![TestEvent::Decremented];
                proof {
                    assert(events@ =~= seq![TestEvent::Decremented]);
                }
                Ok(events)
            },
        }
    }
}

/// A one-row-per-aggregate projection of the test aggregate.
#[derive(Debug)]
pub struct TestView {
    pub id: String,
    pub name: String,
    pub version: usize,
}

impl ViewProjection<TestAggregate> for TestView {
    open spec fn view_type_spec() -> Seq<char> {
        "TEST_VIEW"@
    }

    fn view_type() -> (r: &'static str) {
        "TEST_VIEW"
    }

    open spec fn is_child_spec() -> bool {
        false
    }

    fn is_child_of_aggregate() -> (r: bool) {
        false
    }

    open spec fn view_id_spec(event: &EventEnvelope<TestEvent>) -> Seq<char> {
        event.aggregate_id@
    }

    fn view_id(event: &EventEnvelope<TestEvent>) -> (r: String) {
        event.aggregate_id.clone()
    }

    open spec fn update_spec(prev: Option<Self>, event: &EventEnvelope<TestEvent>) -> Option<
        Self,
    > {
        match event.payload {
            TestEvent::Created { name } => Some(
                TestView { id: event.aggregate_id, name, version: event.version },
            ),
            TestEvent::Updated { name } => Some(
                TestView { id: event.aggregate_id, name, version: event.version },
            ),
            _ => None,
        }
    }

    fn update(prev: Option<Self>, event: &EventEnvelope<TestEvent>) -> (r: Option<Self>) {
        match &event.payload {
            TestEvent::Created { name } => Some(
                TestView {
                    id: event.aggregate_id.clone(),
                    name: name.clone(),
                    version: event.version,
                },
            ),
            TestEvent::Updated { name } => Some(
                TestView {
                    id: event.aggregate_id.clone(),
                    name: name.clone(),
                    version: event.version,
                },
            ),
            TestEvent::Incremented => None,
            TestEvent::Decremented => None,
        }
    }

    fn clone_view(&self) -> (r: Self) {
        TestView { id: self.id.clone(), name: self.name.clone(), version: self.version }
    }
}

impl HasId for TestView {
    open spec fn field_id_spec() -> Seq<char> {
        "id"@
    }

    fn field_id() -> (r: &'static str) {
        "id"
    }

    open spec fn id_spec(&self) -> Seq<char> {
        self.id@
    }

    fn id(&self) -> (r: String) {
        self.id.clone()
    }

    open spec fn parent_field_spec() -> Option<Seq<char>> {
        None
    }

    fn parent_field_id() -> (r: Option<&'static str>) {
        None
    }

    open spec fn parent_id_spec(&self) -> Option<Seq<char>> {
        None
    }

    fn parent_id(&self) -> (r: Option<&str>) {
        None
    }
}

} // verus!
