use cqrs_rust_lib::context::CqrsContext;
use cqrs_rust_lib::dispatchers::view_dispatcher::ViewDispatcher;
use cqrs_rust_lib::engine::{CqrsCommandEngine, NoopErrorHandler};
use cqrs_rust_lib::event_store::EventStoreImpl;
use cqrs_rust_lib::inmemory::InMemoryPersist;
use cqrs_rust_lib::read::memory::InMemoryViewStore;
use cqrs_rust_lib::read::storage::Storage;
use cqrs_rust_lib::todolist::{
    CreateCommands, Events, TodoChange, TodoChangeQuery, TodoList, UpdateCommands,
};

type ChangeDispatcher = ViewDispatcher<
    TodoList,
    TodoChange,
    TodoChangeQuery,
    InMemoryViewStore<TodoList, TodoChange>,
>;

type TodoEngine = CqrsCommandEngine<
    TodoList,
    InMemoryPersist<TodoList>,
    ChangeDispatcher,
    NoopErrorHandler,
>;

fn todo_engine() -> TodoEngine {
    let persist = InMemoryPersist::<TodoList>::new();
    let store = EventStoreImpl::new(persist);
    let dispatcher = ViewDispatcher::new(InMemoryViewStore::new());
    CqrsCommandEngine::new(store, vec![dispatcher], (), NoopErrorHandler {})
}

#[test]
fn test_projection_scope() {
    let mut engine = todo_engine();
    let context = CqrsContext::default();

    let list_id = engine
        .execute_create(
            CreateCommands::Create {
                name: "chores".to_string(),
            },
            &context,
        )
        .unwrap();
    engine
        .execute_update(
            &list_id,
            UpdateCommands::AddTodo {
                title: "a".to_string(),
            },
            &context,
        )
        .unwrap();

    // fish the generated todo id out of the journal
    let events = engine.store().load_events(&list_id).unwrap();
    let todo_id = match &events[1].payload {
        Events::TodoAdded { todo_id, .. } => todo_id.clone(),
        other => panic!("unexpected second event {:?}", other),
    };

    engine
        .execute_update(
            &list_id,
            UpdateCommands::ResolveTodo {
                todo_id: todo_id.clone(),
            },
            &context,
        )
        .unwrap();

    // the list state followed both commands
    let (list, version) = engine.store().load_aggregate(&list_id).unwrap();
    assert_eq!(version, 3);
    assert_eq!(list.todos.len(), 1);
    assert_eq!(list.todos[0].title, "a");
    assert!(list.todos[0].resolved);

    // the child view holds two rows, both scoped to the list
    let storage = engine.dispatchers()[0].storage();
    let query = TodoChangeQuery {
        skip: None,
        limit: None,
    };
    let page = storage
        .filter(Some(&list_id), &query, &context)
        .expect("a scoped filter succeeds");
    assert_eq!(page.total, 2);
    assert_eq!(page.items.len(), 2);
    assert!(page.items.iter().all(|c| c.list_id == list_id));
    assert!(page
        .items
        .iter()
        .all(|c| c.todo_id.as_deref() == Some(todo_id.as_str())));
    assert_eq!(page.items[0].version, 2);
    assert_eq!(page.items[1].version, 3);

    // a parentless filter for a child view is a validation error
    let err = storage
        .filter(None, &query, &context)
        .expect_err("a child view needs its parent id");
    assert_eq!(err.http_status, 400);
    assert_eq!(err.internal_code, 4006);
    assert_eq!(err.message, "Missing parent id");

    // and the rows of another list do not leak into this scope
    let other = storage
        .filter(Some("another-list"), &query, &context)
        .unwrap();
    assert_eq!(other.total, 0);
}

#[test]
fn test_remove_and_assign_todos() {
    let mut engine = todo_engine();
    let context = CqrsContext::default();
    let list_id = engine
        .execute_create(
            CreateCommands::Create {
                name: "work".to_string(),
            },
            &context,
        )
        .unwrap();
    engine
        .execute_update(
            &list_id,
            UpdateCommands::AddTodo {
                title: "first".to_string(),
            },
            &context,
        )
        .unwrap();
    engine
        .execute_update(
            &list_id,
            UpdateCommands::AddTodo {
                title: "second".to_string(),
            },
            &context,
        )
        .unwrap();

    let events = engine.store().load_events(&list_id).unwrap();
    let first_id = match &events[1].payload {
        Events::TodoAdded { todo_id, .. } => todo_id.clone(),
        _ => unreachable!(),
    };
    let second_id = match &events[2].payload {
        Events::TodoAdded { todo_id, .. } => todo_id.clone(),
        _ => unreachable!(),
    };

    engine
        .execute_update(
            &list_id,
            UpdateCommands::AssignTodo {
                todo_id: second_id.clone(),
                assignee: "ana".to_string(),
            },
            &context,
        )
        .unwrap();
    engine
        .execute_update(
            &list_id,
            UpdateCommands::RemoveTodo {
                todo_id: first_id.clone(),
            },
            &context,
        )
        .unwrap();

    let (list, _) = engine.store().load_aggregate(&list_id).unwrap();
    assert_eq!(list.name, "work");
    assert_eq!(list.todos.len(), 1);
    assert_eq!(list.todos[0].id, second_id);
    assert_eq!(list.todos[0].assignee, Some("ana".to_string()));
    assert!(!list.todos[0].resolved);
}
