use cqrs_rust_lib::account::{Account, AccountQuery, CreateCommands, Events, Movement, MovementQuery, UpdateCommands};
use cqrs_rust_lib::dispatchers::view_dispatcher::ViewDispatcher;
use cqrs_rust_lib::read::from_snapshot::FromSnapshotStorage;
use cqrs_rust_lib::read::memory::InMemoryViewStore;
use cqrs_rust_lib::snapshot::Snapshot;
use cqrs_rust_lib::read::storage::Storage;
use cqrs_rust_lib::aggregate::Aggregate;
use cqrs_rust_lib::event::Event;
use cqrs_rust_lib::context::CqrsContext;
use cqrs_rust_lib::dispatchers::memory::InMemoryDispatcher;
use cqrs_rust_lib::engine::{CqrsCommandEngine, NoopErrorHandler};
use cqrs_rust_lib::event_store::EventStoreImpl;
use cqrs_rust_lib::inmemory::InMemoryPersist;

type AccountEngine = CqrsCommandEngine<
    Account,
    InMemoryPersist<Account>,
    InMemoryDispatcher<Account>,
    NoopErrorHandler,
>;

fn account_engine() -> AccountEngine {
    let persist = InMemoryPersist::<Account>::new();
    let store = EventStoreImpl::new(persist);
    CqrsCommandEngine::new(store, vec![], (), NoopErrorHandler {})
}

#[test]
fn test_create_then_deposit() {
    let mut engine = account_engine();
    let context = CqrsContext::default();

    let id = engine
        .execute_create(
            CreateCommands::Create {
                owner: "bob".to_string(),
            },
            &context,
        )
        .unwrap();
    engine
        .execute_update(&id, UpdateCommands::Deposit { amount: 50 }, &context)
        .unwrap();
    engine
        .execute_update(&id, UpdateCommands::Deposit { amount: 50 }, &context)
        .unwrap();

    let (state, version) = engine.store().load_aggregate(&id).unwrap();
    assert_eq!(state.owner, "bob");
    assert_eq!(state.amount, 100);
    assert_eq!(version, 3);

    let events = engine.store().load_events(&id).unwrap();
    assert_eq!(events.len(), 3);
    assert_eq!(events[0].version, 1);
    assert_eq!(events[1].version, 2);
    assert_eq!(events[2].version, 3);
    let types: Vec<String> = events.iter().map(|e| e.payload.event_type()).collect();
    assert_eq!(types, vec!["account_created", "amount_deposited", "amount_deposited"]);
}

#[test]
fn test_withdraw_on_empty() {
    let mut engine = account_engine();
    let context = CqrsContext::default();

    let id = engine
        .execute_create(
            CreateCommands::Create {
                owner: "bob".to_string(),
            },
            &context,
        )
        .unwrap();

    let err = engine
        .execute_update(&id, UpdateCommands::Withdraw { amount: 10 }, &context)
        .expect_err("an uncovered withdrawal is refused");
    assert_eq!(err.code, "ACCOUNT_INSUFFICIENT_FUNDS");

    let events = engine.store().load_events(&id).unwrap();
    assert_eq!(events.len(), 1, "the journal is unchanged");
    let snap = engine.store().load_snapshot(&id).unwrap().unwrap();
    assert_eq!(snap.version, 1, "the snapshot is unchanged");
}

#[test]
fn test_second_create_is_refused() {
    // a create on an id whose snapshot exists
    let mut engine = account_engine();
    let context = CqrsContext::default();
    let id = engine
        .execute_create(
            CreateCommands::Create {
                owner: "one".to_string(),
            },
            &context,
        )
        .unwrap();
    let err = engine
        .store()
        .initialize_aggregate(&id)
        .expect_err("a second create must be refused");
    assert_eq!(err.code, "AGGREGATE_ALREADY_EXISTS");
    assert_eq!(err.http_status, 409);
}

#[test]
fn test_replay_determinism() {
    // load_aggregate equals folding fetch_all_events onto the default state
    let mut engine = account_engine();
    let context = CqrsContext::default();
    let id = engine
        .execute_create(
            CreateCommands::Create {
                owner: "fold".to_string(),
            },
            &context,
        )
        .unwrap();
    engine
        .execute_update(&id, UpdateCommands::Deposit { amount: 30 }, &context)
        .unwrap();
    engine
        .execute_update(&id, UpdateCommands::Withdraw { amount: 12 }, &context)
        .unwrap();
    engine
        .execute_update(&id, UpdateCommands::Close, &context)
        .unwrap();

    let (loaded, version) = engine.store().load_aggregate(&id).unwrap();

    let events = engine.store().load_events(&id).unwrap();
    let mut replayed = Account::default_state().with_aggregate_id(id.clone());
    for e in &events {
        let payload = match &e.payload {
            Events::AccountCreated { owner } => Events::AccountCreated {
                owner: owner.clone(),
            },
            Events::Deposited { amount } => Events::Deposited { amount: *amount },
            Events::Withdrawn { amount } => Events::Withdrawn { amount: *amount },
            Events::Closed => Events::Closed,
        };
        replayed.apply(payload).unwrap();
    }

    assert_eq!(version, events.len());
    assert_eq!(loaded.id, replayed.id);
    assert_eq!(loaded.owner, replayed.owner);
    assert_eq!(loaded.amount, replayed.amount);
    assert_eq!(loaded.amount, 18);
}

#[test]
fn test_snapshot_equivalence() {
    // the stored snapshot is the fold of the whole journal at its length
    let mut engine = account_engine();
    let context = CqrsContext::default();
    let id = engine
        .execute_create(
            CreateCommands::Create {
                owner: "snap".to_string(),
            },
            &context,
        )
        .unwrap();
    engine
        .execute_update(&id, UpdateCommands::Deposit { amount: 9 }, &context)
        .unwrap();

    let events = engine.store().load_events(&id).unwrap();
    let snap = engine.store().load_snapshot(&id).unwrap().unwrap();
    assert_eq!(snap.version, events.len());
    assert_eq!(snap.state.owner, "snap");
    assert_eq!(snap.state.amount, 9);
}

#[test]
fn test_movement_projection_and_paging() {
    type MovementDispatcher =
        ViewDispatcher<Account, Movement, MovementQuery, InMemoryViewStore<Account, Movement>>;
    let persist = InMemoryPersist::<Account>::new();
    let store = EventStoreImpl::new(persist);
    let dispatcher: MovementDispatcher = ViewDispatcher::new(InMemoryViewStore::new());
    let mut engine: CqrsCommandEngine<
        Account,
        InMemoryPersist<Account>,
        MovementDispatcher,
        NoopErrorHandler,
    > = CqrsCommandEngine::new(store, vec![dispatcher], (), NoopErrorHandler {});
    let context = CqrsContext::default();

    let id = engine
        .execute_create(
            CreateCommands::Create {
                owner: "mover".to_string(),
            },
            &context,
        )
        .unwrap();
    for k in 0..5u64 {
        engine
            .execute_update(&id, UpdateCommands::Deposit { amount: 10 + k }, &context)
            .unwrap();
    }
    engine
        .execute_update(&id, UpdateCommands::Withdraw { amount: 4 }, &context)
        .unwrap();

    let storage = engine.dispatchers()[0].storage();
    let all = storage
        .filter(
            Some(&id),
            &MovementQuery {
                skip: None,
                limit: None,
            },
            &context,
        )
        .unwrap();
    // one row per envelope: the creation row plus five deposits and a withdrawal
    assert_eq!(all.total, 7);
    assert!(all.items.iter().all(|m| m.account_id == id));
    assert_eq!(all.items[1].amount, 10);
    assert!(all.items[1].deposit);
    assert_eq!(all.items[6].amount, 4);
    assert!(!all.items[6].deposit);

    // paging: skip 2, take 3
    let page = storage
        .filter(
            Some(&id),
            &MovementQuery {
                skip: Some(2),
                limit: Some(3),
            },
            &context,
        )
        .unwrap();
    assert_eq!(page.total, 7);
    assert_eq!(page.items.len(), 3);
    assert_eq!(page.items[0].version, 3);
    assert_eq!(page.items[2].version, 5);
    assert_eq!(page.page, 0);
    assert_eq!(page.page_size, 3);
}

#[test]
fn test_latest_state_read_through() {
    let mut engine = account_engine();
    let context = CqrsContext::default();
    let id = engine
        .execute_create(
            CreateCommands::Create {
                owner: "dora".to_string(),
            },
            &context,
        )
        .unwrap();
    engine
        .execute_update(&id, UpdateCommands::Deposit { amount: 40 }, &context)
        .unwrap();
    engine
        .execute_update(&id, UpdateCommands::Withdraw { amount: 15 }, &context)
        .unwrap();

    // project every envelope into a snapshot row, then read through the adapter
    let mut rows: InMemoryViewStore<Account, Snapshot<Account>> = InMemoryViewStore::new();
    for e in engine.store().load_events(&id).unwrap() {
        rows.update_view(&e).unwrap();
    }
    let latest = FromSnapshotStorage::new(rows);
    assert_eq!(latest.stored_type(), "account");

    let found = latest.find_by_id(None, &id, &context).unwrap().unwrap();
    assert_eq!(found.owner, "dora");
    assert_eq!(found.amount, 25);

    let page = latest
        .filter(
            None,
            &AccountQuery {
                owner: Some("dora".to_string()),
                skip: None,
                limit: None,
            },
            &context,
        )
        .unwrap();
    assert_eq!(page.total, 1);
    assert_eq!(page.items[0].amount, 25);

    let none = latest
        .filter(
            None,
            &AccountQuery {
                owner: Some("nobody".to_string()),
                skip: None,
                limit: None,
            },
            &context,
        )
        .unwrap();
    assert_eq!(none.total, 0);

    let mut latest = latest;
    let err = latest
        .save(found, &context)
        .expect_err("the snapshot adapter cannot save");
    assert_eq!(err.message, "Unsupported method : SnapshotStorage#save");
}
