pub mod counts;
pub mod request;
pub mod result;
