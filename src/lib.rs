//! A small task tracker: tasks with ids, descriptions and statuses, stored as
//! an array of JSON records, and the commands that transform the collection.

pub mod decimal;
pub mod stamp;
pub mod json_value;
pub mod error;
pub mod text;
pub mod task;
pub mod ops;
pub mod store;
pub mod cli;
