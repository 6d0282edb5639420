//! Cardflow: a project manager built around a card game. Games hold decks,
//! decks hold cards; a deck's hand holds up to five active cards ranked by
//! priority, and jokers make cards depend on other cards.
pub mod error;
pub mod hand;
pub mod models;
pub mod text;
pub mod jokers;
pub mod cards;
pub mod records;
pub mod auth;
pub mod users;
pub mod clock;
pub mod session;
pub mod urls;
pub mod oauth;
pub mod mcp;
pub mod tools;
