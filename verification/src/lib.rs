pub mod config;
pub mod events;
pub mod node;
pub mod compose;
pub mod resolver;
pub mod update;
pub mod walker;
