//! Matchmaking lobby: a search queue and match lifecycle over a relational
//! store, a bounded port allocator, and lazily expiring login sessions.

pub mod player;
pub mod user;
pub mod session;
pub mod token_generator;
pub mod session_manager;
pub mod database;
mod rows;
pub mod port_assigner;
pub mod match_server_details;
pub mod matchmaker;
pub mod authenticator;
pub mod routes;
