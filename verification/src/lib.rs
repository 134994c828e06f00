pub mod error;
pub mod game_session;
pub mod generator;
pub mod language;
pub mod render;
pub mod text;
