pub mod event_handlers;
pub mod message_handlers;
pub mod topic_handlers;
