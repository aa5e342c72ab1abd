pub mod action_panel;
pub mod browser;
pub mod cli;
pub mod config;
pub mod editor;
pub mod home;
pub mod id3;
pub mod invite;
pub mod keymap;
pub mod library;
pub mod lrc_laws;
pub mod lyrics;
pub mod lyrics_tab;
pub mod model;
pub mod netaddr;
pub mod online;
pub mod online_events;
pub mod online_keys;
pub mod online_net;
pub mod panel;
pub mod paths;
pub mod playback;
pub mod random;
pub mod recovery;
pub mod stats_tab;
pub mod stun;
pub mod text;
pub mod tune_core;
