//! A job queue: jobs are enqueued on named queues, picked up by workers that
//! run the task registered for them, and settled as done, retried or failed.

pub mod broker;
pub mod connection;
pub mod ext;
pub mod jobs;
pub mod namemap;
pub mod results;
pub mod server;
pub mod tasks;
pub mod text;
