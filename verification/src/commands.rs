pub mod error;
pub mod gotd;
pub mod hidden_ability;
pub mod ping;
pub mod poe;
pub mod secret;
