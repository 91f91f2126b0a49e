pub mod batch;
pub mod collect;
pub mod naming;
pub mod process;
