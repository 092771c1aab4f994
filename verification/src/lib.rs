//! Full-text index of archived tool output, kept in an SQLite database.
//!
//! The library decides what is asked of the database and of the file system,
//! and what the answers mean. It touches neither itself; it only reads the clock.

#![allow(unused_imports)]

pub mod action;
pub mod budget;
pub mod clock;
pub mod effects;
pub mod enforce;
pub mod index;
pub mod laws;
pub mod model;
pub mod number_laws;
pub mod open;
pub mod paths;
pub mod queue_laws;
pub mod reader;
pub mod readings;
pub mod rows;
pub mod setting_laws;
pub mod statement;
pub mod table_laws;
pub mod text;
pub mod trace_laws;
pub mod view_laws;
pub mod writer;
