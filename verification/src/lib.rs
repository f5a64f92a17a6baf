//! Data model and verified decision logic of a poller that copies map and
//! record data from the Tempus API into a Postgres database.

pub mod client;
pub mod db;
pub mod models;
pub mod poller;
