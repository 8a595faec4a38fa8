//! Voting with a hot spare.
//!
//! A validator and its hot spare both propose votes. Each vote is judged by a secondary tower,
//! and the first one for a slot that this tower allows is sent to the cluster.
//!
//! - [`lockout`], [`vote_state`] and [`tower`] are the tower: its votes, the slots they lock, and
//!   the root they stand on.
//! - [`validator`] decides: which votes the tower admits, and what they leave behind.
//! - [`transaction`], [`instruction`] and [`vote_op`] are the votes as they arrive.
//! - [`voting_service`] reads votes and submits them; [`delivery`] says what is
//!   done with those that are admitted.
//! - [`laws`] states what holds of all this together, and [`meaning`] what each operation makes
//!   of what it is given.

pub mod delivery;
pub mod instruction;
pub mod laws;
pub mod lockout;
pub mod meaning;
pub mod tower;
pub mod transaction;
pub mod validator;
pub mod vote_op;
pub mod vote_state;
pub mod voting_service;
