//! A player for downloaded sets and music: the library index, the play queue,
//! resume positions and the choice of a playback engine.

pub mod artwork;
pub mod binary;
pub mod cli;
pub mod clock;
pub mod command_laws;
pub mod commands;
pub mod control_laws;
pub mod detail_laws;
pub mod details;
pub mod drive_laws;
pub mod engine;
pub mod error;
pub mod ffi;
pub mod fixed;
pub mod ipc;
pub mod json;
pub mod layout;
pub mod link_laws;
pub mod library;
pub mod media_laws;
pub mod mpv;
pub mod mpv_laws;
pub mod mpv_model;
pub mod null;
pub mod number;
pub mod number_laws;
pub mod path_laws;
pub mod paths;
pub mod playback_laws;
pub mod player;
pub mod player_laws;
pub mod player_model;
pub mod probe;
pub mod queue;
pub mod queue_laws;
pub mod restart_laws;
pub mod resume;
pub mod script;
pub mod selection;
pub mod setup_laws;
pub mod shuffle;
pub mod store;
pub mod store_laws;
pub mod table;
pub mod surface_laws;
pub mod takeover_laws;
pub mod text;
pub mod text_laws;
pub mod timecode;
pub mod track;
pub mod window_laws;
