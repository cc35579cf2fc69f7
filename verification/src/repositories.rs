pub mod common;
pub mod config;
pub mod dispatch;
pub mod document;
pub mod fanout;
pub mod text;
pub mod places;
pub mod routes;
pub mod users;
