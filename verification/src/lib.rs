//! A small in-memory ecology: crabs hunt prey in reefs they share.
//!
//! Reefs live in one arena, a `Vec<Reef>`, and a crab names the reefs it
//! forages by their index in that arena, so that any number of crabs can feed
//! from one reef. Every executable function carries a contract that Verus
//! proves; the only unproved statement is the one about the random draw in
//! [`chance`].

#![allow(unused_imports)]

pub mod beach;
pub mod chance;
pub mod color;
pub mod cookbook;
pub mod crab;
pub mod diet;
pub mod hunting;
pub mod laws;
pub mod ocean;
pub mod prey;
pub mod reef;
