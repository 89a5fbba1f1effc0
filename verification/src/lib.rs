//! Music: a library and a player for somebody sitting across the room.
pub mod acts;
pub mod cli;
pub mod labels;
pub mod library;
pub mod music;
pub mod options;
pub mod pad;
pub mod player;
pub mod probe;
pub mod queue;
pub mod queue_laws;
pub mod ranking;
pub mod settings;
pub mod shelf;
pub mod shown;
pub mod spots;
pub mod text;
pub mod walk_laws;
