//! Branchgate: selective promotion of merged changes between Git branches.
//!
//! The library holds the decision logic of the application: how Git's output
//! is read, which Git commands are issued and in what order, how promotion
//! runs move between states, and how stored rows become the records shown to
//! the user. Running processes and talking to the database stay outside.

pub mod order;
pub mod text;
pub mod git;
pub mod sync;
pub mod editors;
pub mod history;
pub mod settings;
pub mod analytics;
pub mod repos;
pub mod promote;
