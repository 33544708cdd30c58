//! A bank-account aggregate: the canonical domain exercising the engine.
//!
//! Money is carried in integral minor units. A deposit that would overflow
//! the balance and a withdrawal past the balance are domain errors; every
//! committed event folds cleanly.

use vstd::prelude::*;

use crate::aggregate::{Aggregate, CommandHandler};
use crate::context::CqrsContext;
use crate::decimal::{dec_of, dec_string};
use crate::denormalizer::ViewProjection;
use crate::errors::{CqrsError, CqrsErrorCode};
use crate::event::{Event, EventEnvelope};
use crate::read::storage::{HasId, SkipLimit, ViewQuery};
use crate::snapshot::Snapshot;

verus! {

/// The domain error codes of the account domain.
pub enum AccountErrorCode {
    InsufficientFunds,
    InvalidAmount,
    AccountClosed,
    NegativeDeposit,
}

impl CqrsErrorCode for AccountErrorCode {
    open spec fn domain_spec(&self) -> Seq<char> {
        "account"@
    }

    open spec fn domain_prefix_spec(&self) -> u16 {
        10
    }

    open spec fn error_index_spec(&self) -> u16 {
        match self {
            AccountErrorCode::InsufficientFunds => 1,
            AccountErrorCode::InvalidAmount => 2,
            AccountErrorCode::AccountClosed => 3,
            AccountErrorCode::NegativeDeposit => 4,
        }
    }

    open spec fn http_status_spec(&self) -> u16 {
        match self {
            AccountErrorCode::AccountClosed => 410,
            _ => 400,
        }
    }

    open spec fn code_spec(&self) -> Seq<char> {
        match self {
            AccountErrorCode::InsufficientFunds => "ACCOUNT_INSUFFICIENT_FUNDS"@,
            AccountErrorCode::InvalidAmount => "ACCOUNT_INVALID_AMOUNT"@,
            AccountErrorCode::AccountClosed => "ACCOUNT_CLOSED"@,
            AccountErrorCode::NegativeDeposit => "ACCOUNT_NEGATIVE_DEPOSIT"@,
        }
    }

    fn domain(&self) -> (r: String) {
        "account".to_owned()
    }

    fn domain_prefix(&self) -> (r: u16) {
        10
    }

    fn error_index(&self) -> (r: u16) {
        match self {
            AccountErrorCode::InsufficientFunds => 1,
            AccountErrorCode::InvalidAmount => 2,
            AccountErrorCode::AccountClosed => 3,
            AccountErrorCode::NegativeDeposit => 4,
        }
    }

    fn http_status(&self) -> (r: u16) {
        match self {
            AccountErrorCode::AccountClosed => 410,
            _ => 400,
        }
    }

    fn code(&self) -> (r: String) {
        match self {
            AccountErrorCode::InsufficientFunds => "ACCOUNT_INSUFFICIENT_FUNDS".to_owned(),
            AccountErrorCode::InvalidAmount => "ACCOUNT_INVALID_AMOUNT".to_owned(),
            AccountErrorCode::AccountClosed => "ACCOUNT_CLOSED".to_owned(),
            AccountErrorCode::NegativeDeposit => "ACCOUNT_NEGATIVE_DEPOSIT".to_owned(),
        }
    }
}

/// The account's events.
#[derive(Debug, PartialEq)]
pub enum Events {
    AccountCreated { owner: String },
    Deposited { amount: u64 },
    Withdrawn { amount: u64 },
    Closed,
}

impl Event for Events {
    open spec fn event_type_spec(&self) -> Seq<char> {
        match self {
            Events::AccountCreated { .. } => "account_created"@,
            Events::Deposited { .. } => "amount_deposited"@,
            Events::Withdrawn { .. } => "amount_withdrawn"@,
            Events::Closed => "account_closed"@,
        }
    }

    fn event_type(&self) -> (r: String) {
        match self {
            Events::AccountCreated { .. } => "account_created".to_owned(),
            Events::Deposited { .. } => "amount_deposited".to_owned(),
            Events::Withdrawn { .. } => "amount_withdrawn".to_owned(),
            Events::Closed => "account_closed".to_owned(),
        }
    }

    fn clone_event(&self) -> (r: Self) {
        match self {
            Events::AccountCreated { owner } => Events::AccountCreated { owner: owner.clone() },
            Events::Deposited { amount } => Events::Deposited { amount: *amount },
            Events::Withdrawn { amount } => Events::Withdrawn { amount: *amount },
            Events::Closed => Events::Closed,
        }
    }
}

pub enum CreateCommands {
    Create { owner: String },
}

pub enum UpdateCommands {
    Deposit { amount: u64 },
    Withdraw { amount: u64 },
    Close,
}

/// The mathematical state of an account.
pub struct AccountModel {
    pub id: Seq<char>,
    pub owner: Seq<char>,
    pub amount: int,
}

/// An account: an owner and a balance in minor units.
#[derive(Debug)]
pub struct Account {
    pub id: String,
    pub owner: String,
    pub amount: u64,
}

impl Aggregate for Account {
    type Event = Events;

    type Model = AccountModel;

    open spec fn aggregate_type_spec() -> Seq<char> {
        "account"@
    }

    fn aggregate_type() -> (r: &'static str) {
        "account"
    }

    open spec fn model(&self) -> AccountModel {
        AccountModel { id: self.id@, owner: self.owner@, amount: self.amount as int }
    }

    open spec fn model_id(m: AccountModel) -> Seq<char> {
        m.id
    }

    open spec fn default_model() -> AccountModel {
        AccountModel { id: Seq::empty(), owner: Seq::empty(), amount: 0 }
    }

    open spec fn with_id_model(m: AccountModel, id: Seq<char>) -> AccountModel {
        AccountModel { id, ..m }
    }

    open spec fn apply_model(m: AccountModel, event: Events) -> Option<AccountModel> {
        match event {
            Events::AccountCreated { owner } => Some(AccountModel { owner: owner@, ..m }),
            Events::Deposited { amount } => if m.amount + amount > u64::MAX {
                None
            } else {
                Some(AccountModel { amount: m.amount + amount, ..m })
            },
            Events::Withdrawn { amount } => if amount > m.amount {
                None
            } else {
                Some(AccountModel { amount: m.amount - amount, ..m })
            },
            Events::Closed => Some(m),
        }
    }

    proof fn lemma_with_id_model(m: AccountModel, id: Seq<char>) {
    }

    proof fn lemma_apply_preserves_id(m: AccountModel, event: Events) {
    }

    fn aggregate_id(&self) -> (r: String) {
        self.id.clone()
    }

    fn with_aggregate_id(self, id: String) -> (r: Self) {
        Account { id, ..self }
    }

    fn default_state() -> (r: Self) {
        proof {
            reveal_strlit("");
            assert(""@ =~= Seq::<char>::empty());
        }
        Account { id: "".to_owned(), owner: "".to_owned(), amount: 0 }
    }

    fn clone_state(&self) -> (r: Self) {
        Account { id: self.id.clone(), owner: self.owner.clone(), amount: self.amount }
    }

    fn apply(&mut self, event: Events) -> (r: Result<(), CqrsError>) {
        match event {
            Events::AccountCreated { owner } => {
                self.owner = owner;
                Ok(())
            },
            Events::Deposited { amount } => {
                if amount > u64::MAX - self.amount {
                    Err(AccountErrorCode::InvalidAmount.error("Balance overflow".to_owned()))
                } else {
                    self.amount = self.amount + amount;
                    Ok(())
                }
            },
            Events::Withdrawn { amount } => {
                if amount > self.amount {
                    Err(
                        AccountErrorCode::InsufficientFunds.error(
                            "Insufficient funds".to_owned(),
                        ),
                    )
                } else {
                    self.amount = self.amount - amount;
                    Ok(())
                }
            },
            Events::Closed => Ok(()),
        }
    }
}

impl CommandHandler for Account {
    type CreateCommand = CreateCommands;

    type UpdateCommand = UpdateCommands;

    type Services = ();

    open spec fn create_ok(m: AccountModel, services: &(), command: &CreateCommands) -> bool {
        true
    }

    open spec fn create_events_spec(
        m: AccountModel,
        services: &(),
        command: &CreateCommands,
        events: Seq<Events>,
    ) -> bool {
        match command {
            CreateCommands::Create { owner } => events == seq![
                Events::AccountCreated { owner: *owner },
            ],
        }
    }

    open spec fn update_ok(m: AccountModel, services: &(), command: &UpdateCommands) -> bool {
        match command {
            UpdateCommands::Deposit { amount } => m.amount + *amount <= u64::MAX,
            UpdateCommands::Withdraw { amount } => *amount <= m.amount,
            UpdateCommands::Close => true,
        }
    }

    open spec fn update_events_spec(
        m: AccountModel,
        services: &(),
        command: &UpdateCommands,
        events: Seq<Events>,
    ) -> bool {
        match command {
            UpdateCommands::Deposit { amount } => events == seq![
                Events::Deposited { amount: *amount },
            ],
            UpdateCommands::Withdraw { amount } => events == seq![
                Events::Withdrawn { amount: *amount },
            ],
            UpdateCommands::Close => events == seq![Events::Closed],
        }
    }

    /// A create never fails, so no error is its rejection.
    open spec fn create_rejection(
        m: AccountModel,
        services: &(),
        command: &CreateCommands,
        error: CqrsError,
    ) -> bool {
        false
    }

    /// The domain error each fallible command produces, by its stable code.
    open spec fn update_rejection(
        m: AccountModel,
        services: &(),
        command: &UpdateCommands,
        error: CqrsError,
    ) -> bool {
        match command {
            UpdateCommands::Deposit { amount } => m.amount + *amount > u64::MAX && error.code@
                == "ACCOUNT_INVALID_AMOUNT"@ && error.internal_code == 10002 && error.http_status
                == 400,
            UpdateCommands::Withdraw { amount } => *amount > m.amount && error.code@
                == "ACCOUNT_INSUFFICIENT_FUNDS"@ && error.internal_code == 10001
                && error.http_status == 400,
            UpdateCommands::Close => false,
        }
    }

    fn handle_create(
        &self,
        command: CreateCommands,
        services: &(),
        context: &CqrsContext,
    ) -> (r: Result<Vec<Events>, CqrsError>) {
        match command {
            CreateCommands::Create { owner } => {
                let events = vec![Events::AccountCreated { owner }];
                proof {
                    assert(events@ =~= seq![Events::AccountCreated { owner }]);
                }
                Ok(events)
            },
        }
    }

    /// A deposit must fit the balance, a withdrawal must be covered.
    fn handle_update(
        &self,
        command: UpdateCommands,
        services: &(),
        context: &CqrsContext,
    ) -> (r: Result<Vec<Events>, CqrsError>) {
        match command {
            UpdateCommands::Deposit { amount } => {
                if amount > u64::MAX - self.amount {
                    Err(AccountErrorCode::InvalidAmount.error("Balance overflow".to_owned()))
                } else {
                    let events = vec![Events::Deposited { amount }];
                    proof {
                        assert(events@ =~= seq![Events::Deposited { amount }]);
                    }
                    Ok(events)
                }
            },
            UpdateCommands::Withdraw { amount } => {
                if amount > self.amount {
                    Err(
                        AccountErrorCode::InsufficientFunds.error(
                            "Insufficient funds".to_owned(),
                        ),
                    )
                } else {
                    let events = vec![Events::Withdrawn { amount }];
                    proof {
                        assert(events@ =~= seq![Events::Withdrawn { amount }]);
                    }
                    Ok(events)
                }
            },
            UpdateCommands::Close => {
                let events = vec![Events::Closed];
                proof {
                    assert(events@ =~= seq![Events::Closed]);
                }
                Ok(events)
            },
        }
    }
}

impl ViewProjection<Account> for Account {
    open spec fn view_type_spec() -> Seq<char> {
        "account"@
    }

    fn view_type() -> (r: &'static str) {
        "account"
    }

    open spec fn is_child_spec() -> bool {
        false
    }

    fn is_child_of_aggregate() -> (r: bool) {
        false
    }

    open spec fn view_id_spec(event: &EventEnvelope<Events>) -> Seq<char> {
        event.aggregate_id@
    }

    fn view_id(event: &EventEnvelope<Events>) -> (r: String) {
        event.aggregate_id.clone()
    }

    open spec fn update_spec(prev: Option<Self>, event: &EventEnvelope<Events>) -> Option<Self> {
        None
    }

    fn update(prev: Option<Self>, event: &EventEnvelope<Events>) -> (r: Option<Self>) {
        None
    }

    fn clone_view(&self) -> (r: Self) {
        Account { id: self.id.clone(), owner: self.owner.clone(), amount: self.amount }
    }
}

impl HasId for Account {
    open spec fn field_id_spec() -> Seq<char> {
        "id"@
    }

    fn field_id() -> (r: &'static str) {
        "id"
    }

    open spec fn id_spec(&self) -> Seq<char> {
        self.id@
    }

    fn id(&self) -> (r: String) {
        self.id.clone()
    }

    open spec fn parent_field_spec() -> Option<Seq<char>> {
        None
    }

    fn parent_field_id() -> (r: Option<&'static str>) {
        None
    }

    open spec fn parent_id_spec(&self) -> Option<Seq<char>> {
        None
    }

    fn parent_id(&self) -> (r: Option<&str>) {
        None
    }
}

/// One balance movement, a child-scoped view: one row per deposit or
/// withdrawal, keyed by `aggregate_id-version` and scoped to its account.
#[derive(Debug)]
pub struct Movement {
    pub account_id: String,
    pub version: usize,
    pub amount: u64,
    pub deposit: bool,
    pub at: i64,
}

impl ViewProjection<Account> for Movement {
    open spec fn view_type_spec() -> Seq<char> {
        "movement"@
    }

    fn view_type() -> (r: &'static str) {
        "movement"
    }

    open spec fn is_child_spec() -> bool {
        true
    }

    fn is_child_of_aggregate() -> (r: bool) {
        true
    }

    open spec fn view_id_spec(event: &EventEnvelope<Events>) -> Seq<char> {
        event.aggregate_id@ + "-"@ + dec_of(event.version as int)
    }

    fn view_id(event: &EventEnvelope<Events>) -> (r: String) {
        let mut vid = event.aggregate_id.clone();
        vid.append("-");
        let num = dec_string(event.version);
        vid.append(num.as_str());
        vid
    }

    open spec fn update_spec(prev: Option<Self>, event: &EventEnvelope<Events>) -> Option<Self> {
        match event.payload {
            Events::AccountCreated { .. } => Some(
                Movement {
                    account_id: event.aggregate_id,
                    version: event.version,
                    amount: 0,
                    deposit: true,
                    at: event.at,
                },
            ),
            Events::Deposited { amount } => Some(
                Movement {
                    account_id: event.aggregate_id,
                    version: event.version,
                    amount,
                    deposit: true,
                    at: event.at,
                },
            ),
            Events::Withdrawn { amount } => Some(
                Movement {
                    account_id: event.aggregate_id,
                    version: event.version,
                    amount,
                    deposit: false,
                    at: event.at,
                },
            ),
            Events::Closed => None,
        }
    }

    fn update(prev: Option<Self>, event: &EventEnvelope<Events>) -> (r: Option<Self>) {
        match &event.payload {
            Events::AccountCreated { .. } => Some(
                Movement {
                    account_id: event.aggregate_id.clone(),
                    version: event.version,
                    amount: 0,
                    deposit: true,
                    at: event.at,
                },
            ),
            Events::Deposited { amount } => Some(
                Movement {
                    account_id: event.aggregate_id.clone(),
                    version: event.version,
                    amount: *amount,
                    deposit: true,
                    at: event.at,
                },
            ),
            Events::Withdrawn { amount } => Some(
                Movement {
                    account_id: event.aggregate_id.clone(),
                    version: event.version,
                    amount: *amount,
                    deposit: false,
                    at: event.at,
                },
            ),
            Events::Closed => None,
        }
    }

    fn clone_view(&self) -> (r: Self) {
        Movement {
            account_id: self.account_id.clone(),
            version: self.version,
            amount: self.amount,
            deposit: self.deposit,
            at: self.at,
        }
    }
}

impl HasId for Movement {
    open spec fn field_id_spec() -> Seq<char> {
        "id"@
    }

    fn field_id() -> (r: &'static str) {
        "id"
    }

    open spec fn id_spec(&self) -> Seq<char> {
        self.account_id@ + "-"@ + dec_of(self.version as int)
    }

    fn id(&self) -> (r: String) {
        let mut vid = self.account_id.clone();
        vid.append("-");
        let num = dec_string(self.version);
        vid.append(num.as_str());
        vid
    }

    open spec fn parent_field_spec() -> Option<Seq<char>> {
        Some("account_id"@)
    }

    fn parent_field_id() -> (r: Option<&'static str>) {
        Some("account_id")
    }

    open spec fn parent_id_spec(&self) -> Option<Seq<char>> {
        Some(self.account_id@)
    }

    fn parent_id(&self) -> (r: Option<&str>) {
        Some(self.account_id.as_str())
    }
}

/// The latest-state projection: one snapshot row per account, folded from
/// the envelopes as they are dispatched.
impl ViewProjection<Account> for Snapshot<Account> {
    open spec fn view_type_spec() -> Seq<char> {
        "account_snapshot"@
    }

    fn view_type() -> (r: &'static str) {
        "account_snapshot"
    }

    open spec fn is_child_spec() -> bool {
        false
    }

    fn is_child_of_aggregate() -> (r: bool) {
        false
    }

    open spec fn view_id_spec(event: &EventEnvelope<Events>) -> Seq<char> {
        event.aggregate_id@
    }

    fn view_id(event: &EventEnvelope<Events>) -> (r: String) {
        event.aggregate_id.clone()
    }

    open spec fn update_spec(prev: Option<Self>, event: &EventEnvelope<Events>) -> Option<Self> {
        match (prev, event.payload) {
            (None, Events::AccountCreated { owner }) => Some(
                Snapshot {
                    aggregate_id: event.aggregate_id,
                    state: Account { id: event.aggregate_id, owner, amount: 0 },
                    version: event.version,
                },
            ),
            (Some(s), Events::AccountCreated { owner }) => Some(
                Snapshot {
                    aggregate_id: event.aggregate_id,
                    state: Account { id: event.aggregate_id, owner, amount: s.state.amount },
                    version: event.version,
                },
            ),
            (Some(s), Events::Deposited { amount }) => if s.state.amount + amount <= u64::MAX {
                Some(
                    Snapshot {
                        aggregate_id: event.aggregate_id,
                        state: Account {
                            id: event.aggregate_id,
                            owner: s.state.owner,
                            amount: (s.state.amount + amount) as u64,
                        },
                        version: event.version,
                    },
                )
            } else {
                None
            },
            (Some(s), Events::Withdrawn { amount }) => if amount <= s.state.amount {
                Some(
                    Snapshot {
                        aggregate_id: event.aggregate_id,
                        state: Account {
                            id: event.aggregate_id,
                            owner: s.state.owner,
                            amount: (s.state.amount - amount) as u64,
                        },
                        version: event.version,
                    },
                )
            } else {
                None
            },
            (Some(s), Events::Closed) => Some(
                Snapshot {
                    aggregate_id: event.aggregate_id,
                    state: Account {
                        id: event.aggregate_id,
                        owner: s.state.owner,
                        amount: s.state.amount,
                    },
                    version: event.version,
                },
            ),
            (None, _) => None,
        }
    }

    fn update(prev: Option<Self>, event: &EventEnvelope<Events>) -> (r: Option<Self>) {
        match (prev, &event.payload) {
            (None, Events::AccountCreated { owner }) => Some(
                Snapshot {
                    aggregate_id: event.aggregate_id.clone(),
                    state: Account {
                        id: event.aggregate_id.clone(),
                        owner: owner.clone(),
                        amount: 0,
                    },
                    version: event.version,
                },
            ),
            (Some(s), Events::AccountCreated { owner }) => Some(
                Snapshot {
                    aggregate_id: event.aggregate_id.clone(),
                    state: Account {
                        id: event.aggregate_id.clone(),
                        owner: owner.clone(),
                        amount: s.state.amount,
                    },
                    version: event.version,
                },
            ),
            (Some(s), Events::Deposited { amount }) => {
                if *amount <= u64::MAX - s.state.amount {
                    Some(
                        Snapshot {
                            aggregate_id: event.aggregate_id.clone(),
                            state: Account {
                                id: event.aggregate_id.clone(),
                                owner: s.state.owner,
                                amount: s.state.amount + *amount,
                            },
                            version: event.version,
                        },
                    )
                } else {
                    None
                }
            },
            (Some(s), Events::Withdrawn { amount }) => {
                if *amount <= s.state.amount {
                    Some(
                        Snapshot {
                            aggregate_id: event.aggregate_id.clone(),
                            state: Account {
                                id: event.aggregate_id.clone(),
                                owner: s.state.owner,
                                amount: s.state.amount - *amount,
                            },
                            version: event.version,
                        },
                    )
                } else {
                    None
                }
            },
            (Some(s), Events::Closed) => Some(
                Snapshot {
                    aggregate_id: event.aggregate_id.clone(),
                    state: Account {
                        id: event.aggregate_id.clone(),
                        owner: s.state.owner,
                        amount: s.state.amount,
                    },
                    version: event.version,
                },
            ),
            (None, _) => None,
        }
    }

    fn clone_view(&self) -> (r: Self) {
        Snapshot {
            aggregate_id: self.aggregate_id.clone(),
            state: Account {
                id: self.state.id.clone(),
                owner: self.state.owner.clone(),
                amount: self.state.amount,
            },
            version: self.version,
        }
    }
}

/// Query over accounts: an optional exact owner, with paging.
pub struct AccountQuery {
    pub owner: Option<String>,
    pub skip: Option<i64>,
    pub limit: Option<i64>,
}

impl ViewQuery<Account> for AccountQuery {
    open spec fn matches_spec(&self, v: &Account) -> bool {
        match self.owner {
            Some(o) => v.owner@ == o@,
            None => true,
        }
    }

    open spec fn skip_spec(&self) -> Option<i64> {
        self.skip
    }

    open spec fn limit_spec(&self) -> Option<i64> {
        self.limit
    }

    fn matches(&self, v: &Account) -> (r: bool) {
        match &self.owner {
            Some(o) => v.owner == *o,
            None => true,
        }
    }

    fn to_skip_limit(&self) -> (r: SkipLimit) {
        SkipLimit { skip: self.skip, limit: self.limit }
    }
}

/// Query over movements: paging alone.
pub struct MovementQuery {
    pub skip: Option<i64>,
    pub limit: Option<i64>,
}

/// The same query over the snapshot rows the latest-state adapter serves.
impl ViewQuery<Snapshot<Account>> for AccountQuery {
    open spec fn matches_spec(&self, v: &Snapshot<Account>) -> bool {
        match self.owner {
            Some(o) => v.state.owner@ == o@,
            None => true,
        }
    }

    open spec fn skip_spec(&self) -> Option<i64> {
        self.skip
    }

    open spec fn limit_spec(&self) -> Option<i64> {
        self.limit
    }

    fn matches(&self, v: &Snapshot<Account>) -> (r: bool) {
        match &self.owner {
            Some(o) => v.state.owner == *o,
            None => true,
        }
    }

    fn to_skip_limit(&self) -> (r: SkipLimit) {
        SkipLimit { skip: self.skip, limit: self.limit }
    }
}

impl ViewQuery<Movement> for MovementQuery {
    open spec fn matches_spec(&self, v: &Movement) -> bool {
        true
    }

    open spec fn skip_spec(&self) -> Option<i64> {
        self.skip
    }

    open spec fn limit_spec(&self) -> Option<i64> {
        self.limit
    }

    fn matches(&self, v: &Movement) -> (r: bool) {
        true
    }

    fn to_skip_limit(&self) -> (r: SkipLimit) {
        SkipLimit { skip: self.skip, limit: self.limit }
    }
}

} // verus!
