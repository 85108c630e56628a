//! Authoritative rules and session bookkeeping for the two-player card game Kseri.

pub mod broadcaster;
pub mod card;
pub mod connection;
pub mod deck;
pub mod fonts;
pub mod game_engine;
pub mod handler;
pub mod messages;
pub mod outside;
pub mod patterns;
pub mod session;
