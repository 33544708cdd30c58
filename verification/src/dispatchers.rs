pub mod memory;
pub mod view_dispatcher;
