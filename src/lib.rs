//! Configuring, launching and tracking a small fleet of game-client bots.
pub mod action;
pub mod address;
pub mod application;
pub mod bot;
pub mod configure;
pub mod launcher;
pub mod literal;
pub mod table;
pub mod text;
