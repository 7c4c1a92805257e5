//! Sender-policy evaluation: turning a published policy text into matchable
//! terms, testing a client address against them, and walking the chain of
//! referenced domains one lookup at a time.

pub mod outcome;
pub mod text;
pub mod pattern;
pub mod config;
pub mod matcher;
pub mod engine;
