//! Model and logic of a terminal music player: the music library built from
//! a directory scan, the selection state of its lists and the playback
//! decisions, each with a contract proved by Verus.

pub mod controls;
pub mod list_state;
pub mod app;
