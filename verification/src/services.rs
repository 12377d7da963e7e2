pub mod receiver;
pub mod scheduler;
