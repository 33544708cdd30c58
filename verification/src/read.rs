pub mod from_snapshot;
pub mod memory;
pub mod paged;
pub mod sorter;
pub mod storage;
