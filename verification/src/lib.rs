//! Rules engine for a single-player dungeon-crawl card game.

pub mod card;
pub mod laws;
pub mod logic;
pub mod messages;
pub mod model;
pub mod render;
pub mod shuffle;
pub mod text;
pub mod ui;
