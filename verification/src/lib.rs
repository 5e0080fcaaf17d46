//! Domain logic of a small news service: Hacker News stories, the DevOps
//! keyword filter, the request/response state machine that collects the top
//! stories, the error model and score statistics.

pub mod text;
pub mod news;
pub mod error;
pub mod fetch;
pub mod stats;
pub mod plain_news;
