//! A todo-list aggregate: a named list of todos that are added, removed,
//! assigned and resolved, with a child-scoped view of its changes.

use vstd::prelude::*;

use crate::aggregate::{Aggregate, CommandHandler};
use crate::context::CqrsContext;
use crate::decimal::{dec_of, dec_string};
use crate::denormalizer::ViewProjection;
use crate::errors::{CqrsError, CqrsErrorCode};
use crate::event::{Event, EventEnvelope};
use crate::read::storage::{HasId, SkipLimit, ViewQuery};

verus! {

/// The domain error codes of the todolist domain.
pub enum TodoListErrorCode {
    TodoNotFound,
    TodoAlreadyResolved,
    EmptyTitle,
    ListNameRequired,
}

impl CqrsErrorCode for TodoListErrorCode {
    open spec fn domain_spec(&self) -> Seq<char> {
        "todolist"@
    }

    open spec fn domain_prefix_spec(&self) -> u16 {
        20
    }

    open spec fn error_index_spec(&self) -> u16 {
        match self {
            TodoListErrorCode::TodoNotFound => 1,
            TodoListErrorCode::TodoAlreadyResolved => 2,
            TodoListErrorCode::EmptyTitle => 3,
            TodoListErrorCode::ListNameRequired => 4,
        }
    }

    open spec fn http_status_spec(&self) -> u16 {
        match self {
            TodoListErrorCode::TodoNotFound => 404,
            TodoListErrorCode::TodoAlreadyResolved => 409,
            _ => 400,
        }
    }

    open spec fn code_spec(&self) -> Seq<char> {
        match self {
            TodoListErrorCode::TodoNotFound => "TODO_NOT_FOUND"@,
            TodoListErrorCode::TodoAlreadyResolved => "TODO_ALREADY_RESOLVED"@,
            TodoListErrorCode::EmptyTitle => "EMPTY_TITLE"@,
            TodoListErrorCode::ListNameRequired => "LIST_NAME_REQUIRED"@,
        }
    }

    fn domain(&self) -> (r: String) {
        "todolist".to_owned()
    }

    fn domain_prefix(&self) -> (r: u16) {
        20
    }

    fn error_index(&self) -> (r: u16) {
        match self {
            TodoListErrorCode::TodoNotFound => 1,
            TodoListErrorCode::TodoAlreadyResolved => 2,
            TodoListErrorCode::EmptyTitle => 3,
            TodoListErrorCode::ListNameRequired => 4,
        }
    }

    fn http_status(&self) -> (r: u16) {
        match self {
            TodoListErrorCode::TodoNotFound => 404,
            TodoListErrorCode::TodoAlreadyResolved => 409,
            _ => 400,
        }
    }

    fn code(&self) -> (r: String) {
        match self {
            TodoListErrorCode::TodoNotFound => "TODO_NOT_FOUND".to_owned(),
            TodoListErrorCode::TodoAlreadyResolved => "TODO_ALREADY_RESOLVED".to_owned(),
            TodoListErrorCode::EmptyTitle => "EMPTY_TITLE".to_owned(),
            TodoListErrorCode::ListNameRequired => "LIST_NAME_REQUIRED".to_owned(),
        }
    }
}

/// The list's events.
#[derive(Debug, PartialEq)]
pub enum Events {
    TodoListCreated { name: String },
    TodoAdded { todo_id: String, title: String },
    TodoRemoved { todo_id: String },
    TodoAssignedTo { todo_id: String, assignee: String },
    TodoResolved { todo_id: String },
}

impl Event for Events {
    open spec fn event_type_spec(&self) -> Seq<char> {
        match self {
            Events::TodoListCreated { .. } => "todo_list_created"@,
            Events::TodoAdded { .. } => "todo_added"@,
            Events::TodoRemoved { .. } => "todo_removed"@,
            Events::TodoAssignedTo { .. } => "todo_assigned_to"@,
            Events::TodoResolved { .. } => "todo_resolved"@,
        }
    }

    fn event_type(&self) -> (r: String) {
        match self {
            Events::TodoListCreated { .. } => "todo_list_created".to_owned(),
            Events::TodoAdded { .. } => "todo_added".to_owned(),
            Events::TodoRemoved { .. } => "todo_removed".to_owned(),
            Events::TodoAssignedTo { .. } => "todo_assigned_to".to_owned(),
            Events::TodoResolved { .. } => "todo_resolved".to_owned(),
        }
    }

    fn clone_event(&self) -> (r: Self) {
        match self {
            Events::TodoListCreated { name } => Events::TodoListCreated { name: name.clone() },
            Events::TodoAdded { todo_id, title } => Events::TodoAdded {
                todo_id: todo_id.clone(),
                title: title.clone(),
            },
            Events::TodoRemoved { todo_id } => Events::TodoRemoved { todo_id: todo_id.clone() },
            Events::TodoAssignedTo { todo_id, assignee } => Events::TodoAssignedTo {
                todo_id: todo_id.clone(),
                assignee: assignee.clone(),
            },
            Events::TodoResolved { todo_id } => Events::TodoResolved { todo_id: todo_id.clone() },
        }
    }
}

pub enum CreateCommands {
    Create { name: String },
}

pub enum UpdateCommands {
    AddTodo { title: String },
    RemoveTodo { todo_id: String },
    AssignTodo { todo_id: String, assignee: String },
    ResolveTodo { todo_id: String },
}

/// One todo item.
#[derive(Debug)]
pub struct Todo {
    pub id: String,
    pub title: String,
    pub assignee: Option<String>,
    pub resolved: bool,
}

/// The mathematical state of one todo.
pub struct TodoModel {
    pub id: Seq<char>,
    pub title: Seq<char>,
    pub assignee: Option<Seq<char>>,
    pub resolved: bool,
}

impl Todo {
    pub open spec fn model(&self) -> TodoModel {
        TodoModel {
            id: self.id@,
            title: self.title@,
            assignee: match self.assignee {
                Some(a) => Some(a@),
                None => None,
            },
            resolved: self.resolved,
        }
    }

    pub fn clone_todo(&self) -> (r: Self)
        ensures
            r == *self,
    {
        Todo {
            id: self.id.clone(),
            title: self.title.clone(),
            assignee: match &self.assignee {
                Some(a) => Some(a.clone()),
                None => None,
            },
            resolved: self.resolved,
        }
    }
}

/// The mathematical state of a todo list.
pub struct TodoListModel {
    pub id: Seq<char>,
    pub name: Seq<char>,
    pub todos: Seq<TodoModel>,
}

pub open spec fn todos_model(ts: Seq<Todo>) -> Seq<TodoModel> {
    ts.map_values(|t: Todo| t.model())
}

/// The todos that survive removing one id, as a filter predicate.
pub open spec fn keep_fn(id: Seq<char>) -> spec_fn(TodoModel) -> bool {
    |t: TodoModel| t.id != id
}

/// Assigning a todo.
pub open spec fn assign_fn(assignee: Seq<char>) -> spec_fn(TodoModel) -> TodoModel {
    |t: TodoModel| TodoModel { assignee: Some(assignee), ..t }
}

/// Resolving a todo.
pub open spec fn resolve_fn() -> spec_fn(TodoModel) -> TodoModel {
    |t: TodoModel| TodoModel { resolved: true, ..t }
}

/// The list with `f` applied to the first todo that carries `id`; the list
/// unchanged when none does.
pub open spec fn update_first(
    todos: Seq<TodoModel>,
    id: Seq<char>,
    f: spec_fn(TodoModel) -> TodoModel,
) -> Seq<TodoModel>
    decreases todos.len(),
{
    if todos.len() == 0 {
        todos
    } else if todos[0].id == id {
        seq![f(todos[0])] + todos.drop_first()
    } else {
        seq![todos[0]] + update_first(todos.drop_first(), id, f)
    }
}

/// When position `i` holds the first match, `update_first` is an update at `i`.
pub proof fn lemma_update_first_hit(
    todos: Seq<TodoModel>,
    id: Seq<char>,
    f: spec_fn(TodoModel) -> TodoModel,
    i: int,
)
    requires
        0 <= i < todos.len(),
        todos[i].id == id,
        forall|j: int| 0 <= j < i ==> (#[trigger] todos[j]).id != id,
    ensures
        update_first(todos, id, f) == todos.update(i, f(todos[i])),
    decreases todos.len(),
{
    if i == 0 {
        assert(seq![f(todos[0])] + todos.drop_first() =~= todos.update(0, f(todos[0])));
    } else {
        assert(todos[0].id != id);
        lemma_update_first_hit(todos.drop_first(), id, f, i - 1);
        assert(todos.drop_first()[i - 1] == todos[i]);
        assert(seq![todos[0]] + todos.drop_first().update(i - 1, f(todos[i])) =~= todos.update(
            i,
            f(todos[i]),
        ));
    }
}

/// When no todo carries the id, `update_first` changes nothing.
pub proof fn lemma_update_first_miss(
    todos: Seq<TodoModel>,
    id: Seq<char>,
    f: spec_fn(TodoModel) -> TodoModel,
)
    requires
        forall|j: int| 0 <= j < todos.len() ==> (#[trigger] todos[j]).id != id,
    ensures
        update_first(todos, id, f) == todos,
    decreases todos.len(),
{
    if todos.len() > 0 {
        lemma_update_first_miss(todos.drop_first(), id, f);
        assert(seq![todos[0]] + todos.drop_first() =~= todos);
    }
}

/// A named list of todos.
#[derive(Debug)]
pub struct TodoList {
    pub id: String,
    pub name: String,
    pub todos: Vec<Todo>,
}

impl Aggregate for TodoList {
    type Event = Events;

    type Model = TodoListModel;

    open spec fn aggregate_type_spec() -> Seq<char> {
        "todolist"@
    }

    fn aggregate_type() -> (r: &'static str) {
        "todolist"
    }

    open spec fn model(&self) -> TodoListModel {
        TodoListModel { id: self.id@, name: self.name@, todos: todos_model(self.todos@) }
    }

    open spec fn model_id(m: TodoListModel) -> Seq<char> {
        m.id
    }

    open spec fn default_model() -> TodoListModel {
        TodoListModel { id: Seq::empty(), name: Seq::empty(), todos: Seq::empty() }
    }

    open spec fn with_id_model(m: TodoListModel, id: Seq<char>) -> TodoListModel {
        TodoListModel { id, ..m }
    }

    open spec fn apply_model(m: TodoListModel, event: Events) -> Option<TodoListModel> {
        match event {
            Events::TodoListCreated { name } => Some(TodoListModel { name: name@, ..m }),
            Events::TodoAdded { todo_id, title } => Some(
                TodoListModel {
                    todos: m.todos.push(
                        TodoModel {
                            id: todo_id@,
                            title: title@,
                            assignee: None,
                            resolved: false,
                        },
                    ),
                    ..m
                },
            ),
            Events::TodoRemoved { todo_id } => Some(
                TodoListModel { todos: m.todos.filter(keep_fn(todo_id@)), ..m },
            ),
            Events::TodoAssignedTo { todo_id, assignee } => Some(
                TodoListModel { todos: update_first(m.todos, todo_id@, assign_fn(assignee@)), ..m },
            ),
            Events::TodoResolved { todo_id } => Some(
                TodoListModel { todos: update_first(m.todos, todo_id@, resolve_fn()), ..m },
            ),
        }
    }

    proof fn lemma_with_id_model(m: TodoListModel, id: Seq<char>) {
    }

    proof fn lemma_apply_preserves_id(m: TodoListModel, event: Events) {
    }

    fn aggregate_id(&self) -> (r: String) {
        self.id.clone()
    }

    fn with_aggregate_id(self, id: String) -> (r: Self) {
        TodoList { id, ..self }
    }

    fn default_state() -> (r: Self) {
        proof {
            reveal_strlit("");
            assert(""@ =~= Seq::<char>::empty());
        }
        let r = TodoList { id: "".to_owned(), name: "".to_owned(), todos: Vec::new() };
        proof {
            assert(todos_model(r.todos@) =~= Seq::<TodoModel>::empty());
        }
        r
    }

    fn clone_state(&self) -> (r: Self) {
        let n = self.todos.len();
        let mut todos: Vec<Todo> = Vec::new();
        let mut i: usize = 0;
        while i < n
            invariant
                n == self.todos@.len(),
                0 <= i <= n,
                todos@ == self.todos@.take(i as int),
            decreases n - i,
        {
            todos.push(self.todos[i].clone_todo());
            proof {
                assert(todos@ =~= self.todos@.take(i + 1));
            }
            i = i + 1;
        }
        proof {
            assert(self.todos@.take(n as int) =~= self.todos@);
        }
        TodoList { id: self.id.clone(), name: self.name.clone(), todos }
    }

    fn apply(&mut self, event: Events) -> (r: Result<(), CqrsError>) {
        match event {
            Events::TodoListCreated { name } => {
                self.name = name;
                Ok(())
            },
            Events::TodoAdded { todo_id, title } => {
                let ghost pre = self.todos@;
                self.todos.push(Todo { id: todo_id, title, assignee: None, resolved: false });
                proof {
                    assert(todos_model(self.todos@) =~= todos_model(pre).push(
                        self.todos@.last().model(),
                    ));
                }
                Ok(())
            },
            Events::TodoRemoved { todo_id } => {
                let ghost pre = todos_model(self.todos@);
                let ghost pred = keep_fn(todo_id@);
                let n = self.todos.len();
                let mut kept: Vec<Todo> = Vec::new();
                let mut i: usize = 0;
                while i < n
                    invariant
                        n == self.todos@.len(),
                        0 <= i <= n,
                        pre == todos_model(self.todos@),
                        pred == keep_fn(todo_id@),
                        todos_model(kept@) == pre.take(i as int).filter(pred),
                    decreases n - i,
                {
                    let t = &self.todos[i];
                    proof {
                        reveal(Seq::filter);
                        assert(pre.take(i + 1).drop_last() =~= pre.take(i as int));
                        assert(pre.take(i + 1).last() == pre[i as int]);
                        assert(pre[i as int] == self.todos@[i as int].model());
                    }
                    if !(t.id == todo_id) {
                        let ghost pk = todos_model(kept@);
                        kept.push(t.clone_todo());
                        proof {
                            assert(pred(pre[i as int]));
                            assert(pre.take(i + 1).filter(pred) == pre.take(i as int).filter(
                                pred,
                            ).push(pre[i as int]));
                            assert(todos_model(kept@) =~= pk.push(pre[i as int]));
                        }
                    } else {
                        proof {
                            assert(!pred(pre[i as int]));
                            assert(pre.take(i + 1).filter(pred) == pre.take(i as int).filter(
                                pred,
                            ));
                        }
                    }
                    i = i + 1;
                }
                proof {
                    assert(pre.take(n as int) =~= pre);
                }
                self.todos = kept;
                Ok(())
            },
            Events::TodoAssignedTo { todo_id, assignee } => {
                let ghost pre = todos_model(self.todos@);
                let ghost f = assign_fn(assignee@);
                let n = self.todos.len();
                let mut i: usize = 0;
                while i < n
                    invariant
                        n == self.todos@.len(),
                        0 <= i <= n,
                        *self == *old(self),
                        pre == todos_model(self.todos@),
                        f == assign_fn(assignee@),
                        event == (Events::TodoAssignedTo { todo_id, assignee }),
                        forall|j: int| 0 <= j < i ==> (#[trigger] pre[j]).id != todo_id@,
                    decreases n - i,
                {
                    let hit = {
                        let t = &self.todos[i];
                        t.id == todo_id
                    };
                    if hit {
                        let prev = self.todos[i].clone_todo();
                        let updated = Todo { assignee: Some(assignee.clone()), ..prev };
                        let ghost um = updated.model();
                        proof {
                            assert(pre[i as int] == self.todos@[i as int].model());
                            assert(pre[i as int].id == todo_id@);
                            assert(um == f(pre[i as int]));
                        }
                        let e = &mut self.todos[i];
                        *e = updated;
                        proof {
                            lemma_update_first_hit(pre, todo_id@, f, i as int);
                            assert(todos_model(self.todos@) =~= pre.update(i as int, um));
                        }
                        return Ok(());
                    }
                    proof {
                        assert(pre[i as int] == self.todos@[i as int].model());
                    }
                    i = i + 1;
                }
                proof {
                    lemma_update_first_miss(pre, todo_id@, f);
                }
                Ok(())
            },
            Events::TodoResolved { todo_id } => {
                let ghost pre = todos_model(self.todos@);
                let ghost f = resolve_fn();
                let n = self.todos.len();
                let mut i: usize = 0;
                while i < n
                    invariant
                        n == self.todos@.len(),
                        0 <= i <= n,
                        *self == *old(self),
                        pre == todos_model(self.todos@),
                        f == resolve_fn(),
                        event == (Events::TodoResolved { todo_id }),
                        forall|j: int| 0 <= j < i ==> (#[trigger] pre[j]).id != todo_id@,
                    decreases n - i,
                {
                    let hit = {
                        let t = &self.todos[i];
                        t.id == todo_id
                    };
                    if hit {
                        let prev = self.todos[i].clone_todo();
                        let updated = Todo { resolved: true, ..prev };
                        let ghost um = updated.model();
                        proof {
                            assert(pre[i as int] == self.todos@[i as int].model());
                            assert(pre[i as int].id == todo_id@);
                            assert(um == f(pre[i as int]));
                        }
                        let e = &mut self.todos[i];
                        *e = updated;
                        proof {
                            lemma_update_first_hit(pre, todo_id@, f, i as int);
                            assert(todos_model(self.todos@) =~= pre.update(i as int, um));
                        }
                        return Ok(());
                    }
                    proof {
                        assert(pre[i as int] == self.todos@[i as int].model());
                    }
                    i = i + 1;
                }
                proof {
                    lemma_update_first_miss(pre, todo_id@, f);
                }
                Ok(())
            },
        }
    }
}

impl CommandHandler for TodoList {
    type CreateCommand = CreateCommands;

    type UpdateCommand = UpdateCommands;

    type Services = ();

    open spec fn create_ok(m: TodoListModel, services: &(), command: &CreateCommands) -> bool {
        true
    }

    open spec fn create_events_spec(
        m: TodoListModel,
        services: &(),
        command: &CreateCommands,
        events: Seq<Events>,
    ) -> bool {
        match command {
            CreateCommands::Create { name } => events == seq![
                Events::TodoListCreated { name: *name },
            ],
        }
    }

    open spec fn update_ok(m: TodoListModel, services: &(), command: &UpdateCommands) -> bool {
        true
    }

    open spec fn update_events_spec(
        m: TodoListModel,
        services: &(),
        command: &UpdateCommands,
        events: Seq<Events>,
    ) -> bool {
        match command {
            UpdateCommands::AddTodo { title } => exists|tid: String|
                events == seq![Events::TodoAdded { todo_id: tid, title: *title }]
                    && tid@.len() == 36,
            UpdateCommands::RemoveTodo { todo_id } => events == seq![
                Events::TodoRemoved { todo_id: *todo_id },
            ],
            UpdateCommands::AssignTodo { todo_id, assignee } => events == seq![
                Events::TodoAssignedTo { todo_id: *todo_id, assignee: *assignee },
            ],
            UpdateCommands::ResolveTodo { todo_id } => events == seq![
                Events::TodoResolved { todo_id: *todo_id },
            ],
        }
    }

    /// Neither handler ever fails, so no error is a rejection.
    open spec fn create_rejection(
        m: TodoListModel,
        services: &(),
        command: &CreateCommands,
        error: CqrsError,
    ) -> bool {
        false
    }

    open spec fn update_rejection(
        m: TodoListModel,
        services: &(),
        command: &UpdateCommands,
        error: CqrsError,
    ) -> bool {
        false
    }

    fn handle_create(
        &self,
        command: CreateCommands,
        services: &(),
        context: &CqrsContext,
    ) -> (r: Result<Vec<Events>, CqrsError>) {
        match command {
            CreateCommands::Create { name } => {
                let events = vec![Events::TodoListCreated { name }];
                proof {
                    assert(events@ =~= seq![Events::TodoListCreated { name }]);
                }
                Ok(events)
            },
        }
    }

    /// A fresh todo draws its id from the context.
    fn handle_update(
        &self,
        command: UpdateCommands,
        services: &(),
        context: &CqrsContext,
    ) -> (r: Result<Vec<Events>, CqrsError>) {
        match command {
            UpdateCommands::AddTodo { title } => {
                let todo_id = context.next_uuid();
                let events = vec![Events::TodoAdded { todo_id, title }];
                proof {
                    assert(events@ == seq![Events::TodoAdded { todo_id, title }]);
                }
                Ok(events)
            },
            UpdateCommands::RemoveTodo { todo_id } => {
                let events = vec![Events::TodoRemoved { todo_id }];
                proof {
                    assert(events@ =~= seq![Events::TodoRemoved { todo_id }]);
                }
                Ok(events)
            },
            UpdateCommands::AssignTodo { todo_id, assignee } => {
                let events = vec![Events::TodoAssignedTo { todo_id, assignee }];
                proof {
                    assert(events@ =~= seq![Events::TodoAssignedTo { todo_id, assignee }]);
                }
                Ok(events)
            },
            UpdateCommands::ResolveTodo { todo_id } => {
                let events = vec![Events::TodoResolved { todo_id }];
                proof {
                    assert(events@ =~= seq![Events::TodoResolved { todo_id }]);
                }
                Ok(events)
            },
        }
    }
}

/// One change of a todo list, a child-scoped view: one row per envelope,
/// keyed by `aggregate_id-version` and scoped to its list.
#[derive(Debug)]
pub struct TodoChange {
    pub list_id: String,
    pub version: usize,
    pub todo_id: Option<String>,
}

impl ViewProjection<TodoList> for TodoChange {
    open spec fn view_type_spec() -> Seq<char> {
        "todo_change"@
    }

    fn view_type() -> (r: &'static str) {
        "todo_change"
    }

    open spec fn is_child_spec() -> bool {
        true
    }

    fn is_child_of_aggregate() -> (r: bool) {
        true
    }

    open spec fn view_id_spec(event: &EventEnvelope<Events>) -> Seq<char> {
        event.aggregate_id@ + "-"@ + dec_of(event.version as int)
    }

    fn view_id(event: &EventEnvelope<Events>) -> (r: String) {
        let mut vid = event.aggregate_id.clone();
        vid.append("-");
        let num = dec_string(event.version);
        vid.append(num.as_str());
        vid
    }

    open spec fn update_spec(prev: Option<Self>, event: &EventEnvelope<Events>) -> Option<Self> {
        match event.payload {
            Events::TodoListCreated { .. } => None,
            Events::TodoAdded { todo_id, .. } => Some(
                TodoChange {
                    list_id: event.aggregate_id,
                    version: event.version,
                    todo_id: Some(todo_id),
                },
            ),
            Events::TodoRemoved { todo_id } => Some(
                TodoChange {
                    list_id: event.aggregate_id,
                    version: event.version,
                    todo_id: Some(todo_id),
                },
            ),
            Events::TodoAssignedTo { todo_id, .. } => Some(
                TodoChange {
                    list_id: event.aggregate_id,
                    version: event.version,
                    todo_id: Some(todo_id),
                },
            ),
            Events::TodoResolved { todo_id } => Some(
                TodoChange {
                    list_id: event.aggregate_id,
                    version: event.version,
                    todo_id: Some(todo_id),
                },
            ),
        }
    }

    fn update(prev: Option<Self>, event: &EventEnvelope<Events>) -> (r: Option<Self>) {
        match &event.payload {
            Events::TodoListCreated { .. } => None,
            Events::TodoAdded { todo_id, .. } => Some(
                TodoChange {
                    list_id: event.aggregate_id.clone(),
                    version: event.version,
                    todo_id: Some(todo_id.clone()),
                },
            ),
            Events::TodoRemoved { todo_id } => Some(
                TodoChange {
                    list_id: event.aggregate_id.clone(),
                    version: event.version,
                    todo_id: Some(todo_id.clone()),
                },
            ),
            Events::TodoAssignedTo { todo_id, .. } => Some(
                TodoChange {
                    list_id: event.aggregate_id.clone(),
                    version: event.version,
                    todo_id: Some(todo_id.clone()),
                },
            ),
            Events::TodoResolved { todo_id } => Some(
                TodoChange {
                    list_id: event.aggregate_id.clone(),
                    version: event.version,
                    todo_id: Some(todo_id.clone()),
                },
            ),
        }
    }

    fn clone_view(&self) -> (r: Self) {
        TodoChange {
            list_id: self.list_id.clone(),
            version: self.version,
            todo_id: match &self.todo_id {
                Some(t) => Some(t.clone()),
                None => None,
            },
        }
    }
}

impl HasId for TodoChange {
    open spec fn field_id_spec() -> Seq<char> {
        "id"@
    }

    fn field_id() -> (r: &'static str) {
        "id"
    }

    open spec fn id_spec(&self) -> Seq<char> {
        self.list_id@ + "-"@ + dec_of(self.version as int)
    }

    fn id(&self) -> (r: String) {
        let mut vid = self.list_id.clone();
        vid.append("-");
        let num = dec_string(self.version);
        vid.append(num.as_str());
        vid
    }

    open spec fn parent_field_spec() -> Option<Seq<char>> {
        Some("list_id"@)
    }

    fn parent_field_id() -> (r: Option<&'static str>) {
        Some("list_id")
    }

    open spec fn parent_id_spec(&self) -> Option<Seq<char>> {
        Some(self.list_id@)
    }

    fn parent_id(&self) -> (r: Option<&str>) {
        Some(self.list_id.as_str())
    }
}

/// Query over todo lists: an optional exact name, with paging.
pub struct TodoListQuery {
    pub name: Option<String>,
    pub skip: Option<i64>,
    pub limit: Option<i64>,
}

impl ViewQuery<TodoList> for TodoListQuery {
    open spec fn matches_spec(&self, v: &TodoList) -> bool {
        match self.name {
            Some(n) => v.name@ == n@,
            None => true,
        }
    }

    open spec fn skip_spec(&self) -> Option<i64> {
        self.skip
    }

    open spec fn limit_spec(&self) -> Option<i64> {
        self.limit
    }

    fn matches(&self, v: &TodoList) -> (r: bool) {
        match &self.name {
            Some(n) => v.name == *n,
            None => true,
        }
    }

    fn to_skip_limit(&self) -> (r: SkipLimit) {
        SkipLimit { skip: self.skip, limit: self.limit }
    }
}

/// Query over todo-list changes: paging alone.
pub struct TodoChangeQuery {
    pub skip: Option<i64>,
    pub limit: Option<i64>,
}

impl ViewQuery<TodoChange> for TodoChangeQuery {
    open spec fn matches_spec(&self, v: &TodoChange) -> bool {
        true
    }

    open spec fn skip_spec(&self) -> Option<i64> {
        self.skip
    }

    open spec fn limit_spec(&self) -> Option<i64> {
        self.limit
    }

    fn matches(&self, v: &TodoChange) -> (r: bool) {
        true
    }

    fn to_skip_limit(&self) -> (r: SkipLimit) {
        SkipLimit { skip: self.skip, limit: self.limit }
    }
}

} // verus!
