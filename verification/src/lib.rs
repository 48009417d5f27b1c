//! A yearly gift exchange for a fixed community: who takes part in the event
//! of a year, and, once the names are drawn, who gives to whom.
//!
//! The store keeps users, events and participation rows consistent; the
//! solver assigns every participant another participant as giftee and avoids
//! the pairings of recent events. Around them stand the texts that the
//! commands of a chat bot answer with.

pub mod commands;
pub mod consistency;
pub mod database;
pub mod draw;
pub mod history;
pub mod laws;
pub mod loops;
pub mod model;
pub mod random;
pub mod services;
pub mod solver;
pub mod text;
pub mod validation;
