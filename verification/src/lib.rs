pub mod account;
pub mod aggregate;
pub mod context;
pub mod decimal;
pub mod denormalizer;
pub mod dispatchers;
pub mod engine;
pub mod errors;
pub mod event;
pub mod event_store;
pub mod inmemory;
pub mod read;
pub mod snapshot;
pub mod store;
pub mod string_map;
pub mod testing;
pub mod todolist;
