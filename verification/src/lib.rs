use vstd::prelude::*;

pub mod app_settings;
pub mod appbus;
pub mod colors;
pub mod feed;
pub mod friendships;
pub mod http_cache;
pub mod player_database;
pub mod player_details;
pub mod records;
pub mod reputation;
pub mod scoreboard;
pub mod scoreboard_layout;
pub mod sourcebans;
pub mod steamid;
pub mod text;

verus! {
} // verus!
