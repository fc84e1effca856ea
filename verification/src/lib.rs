//! A social feed whose whole state lives in the accounts of a ledger:
//! users register a profile, publish posts, like and comment posts, and
//! delete their own posts, which hands them back the fees held in escrow.
//!
//! - `address`: addresses, the seeds that name each record, and the
//!   derivation of an address from seeds.
//! - `records`: profiles, posts and comments, the fees and the space that a
//!   post may take.
//! - `ledger`: the registry of accounts, with the movement of value and the
//!   creation and closing of records.
//! - `handlers`: the five operations, each with the model that says what it
//!   comes to.
//! - `history`: runs of operations on the model, and the theorems that hold
//!   of every run.

pub mod address;
pub mod handlers;
pub mod history;
pub mod ledger;
pub mod records;
