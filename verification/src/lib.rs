//! Verified core of an e-mail dispatch server built on AWS SES.
pub mod config;
pub mod handlers;
pub mod models;
pub mod schedule;
pub mod services;
pub mod text;
