//! The rows that the program stores about players, as plain values, and the
//! text that names each game in the store.
use crate::text::{chars_eq, chars_of, str_to_string};
use vstd::prelude::*;

verus! {

/// A stored account, as far as the player database reads it.
#[derive(Debug, Clone)]
pub struct Account {
    /// SteamID64 of the account.
    pub steam_id: i64,
    /// Account name.
    pub name: String,
}

/// A stored mark on a player.
#[derive(Debug, Clone)]
pub struct PlayerFlag {
    /// SteamID64 of the flagged account.
    pub steam_id: i64,
    /// Type of flag (e.g. `Cheater`, `Bot`).
    pub flag_type: String,
    /// Where the flag comes from.
    pub source: String,
    /// UnixTime when the flag was first seen.
    pub first_seen: i64,
    /// UnixTime when the flag was last seen.
    pub last_seen: i64,
    /// Whether the user was told about the flag.
    pub notified: bool,
}

/// A ban to store (the `bans` table, without its generated key).
#[derive(Debug, Clone)]
pub struct NewBan {
    pub steam_id: i64,
    pub source: String,
    pub ban_type: String,
    pub reason: Option<String>,
    pub created_date: i64,
    pub expires_date: Option<i64>,
    pub permanent: bool,
}

/// A ban source to store (the `ban_sources` table).
#[derive(Debug, Clone)]
pub struct NewBanSource {
    pub name: String,
    pub url: String,
    pub parser: String,
    pub last_checked: Option<i64>,
    pub active: bool,
}

/// An account to store (the `account` table).
#[derive(Debug, Clone)]
pub struct NewAccount {
    pub steam_id: i64,
    pub name: String,
    pub created_date: Option<i64>,
    pub avatar_thumb_url: String,
    pub avatar_full_url: String,
    pub public_profile: bool,
    pub last_updated: i64,
    pub friends_fetched: Option<i64>,
    pub comments_fetched: Option<i64>,
    pub playtimes_fetched: Option<i64>,
    pub reputation_fetched: Option<i64>,
    pub steam_bans_last_fetched: Option<i64>,
}

/// Which kind of data about an account was fetched.
#[derive(Debug, Clone, Copy, PartialEq, Eq, Structural)]
pub enum FetchedData {
    Friends,
    Comments,
    Playtimes,
    Reputation,
}

/// The account row written when data about an account that is not stored yet
/// was fetched at `fetched`: name `Unknown`, no avatars, private, updated and
/// fetched at that time for the one kind of data, nothing else known.
/// (When the account is stored already, only that fetch time is updated.)
pub fn placeholder_account(steam_id: i64, data: FetchedData, fetched: i64) -> (r: NewAccount)
    ensures
        r.steam_id == steam_id,
        r.name@ == "Unknown"@,
        r.created_date is None,
        r.avatar_thumb_url@.len() == 0,
        r.avatar_full_url@.len() == 0,
        !r.public_profile,
        r.last_updated == fetched,
        r.friends_fetched == (if data == FetchedData::Friends {
            Some(fetched)
        } else {
            None
        }),
        r.comments_fetched == (if data == FetchedData::Comments {
            Some(fetched)
        } else {
            None
        }),
        r.playtimes_fetched == (if data == FetchedData::Playtimes {
            Some(fetched)
        } else {
            None
        }),
        r.reputation_fetched == (if data == FetchedData::Reputation {
            Some(fetched)
        } else {
            None
        }),
        r.steam_bans_last_fetched is None,
{
    NewAccount {
        steam_id,
        name: str_to_string("Unknown"),
        created_date: None,
        avatar_thumb_url: String::new(),
        avatar_full_url: String::new(),
        public_profile: false,
        last_updated: fetched,
        friends_fetched: if data == FetchedData::Friends {
            Some(fetched)
        } else {
            None
        },
        comments_fetched: if data == FetchedData::Comments {
            Some(fetched)
        } else {
            None
        },
        playtimes_fetched: if data == FetchedData::Playtimes {
            Some(fetched)
        } else {
            None
        },
        reputation_fetched: if data == FetchedData::Reputation {
            Some(fetched)
        } else {
            None
        },
        steam_bans_last_fetched: None,
    }
}

/// The games whose play time is stored.
#[derive(Debug, Clone, Copy, PartialEq, Eq, Structural)]
pub enum Game {
    Tf2,
    Cs2,
    Csgo,
    Dota2,
    Pubg,
    Apex,
    Rust,
    Gta5,
    Valorant,
    Other,
}

/// The text that names a game in the store.
pub open spec fn game_name(game: Game) -> Seq<char> {
    match game {
        Game::Tf2 => "TF2"@,
        Game::Cs2 => "CS2"@,
        Game::Csgo => "CSGO"@,
        Game::Dota2 => "DOTA2"@,
        Game::Pubg => "PUBG"@,
        Game::Apex => "APEX"@,
        Game::Rust => "RUST"@,
        Game::Gta5 => "GTA5"@,
        Game::Valorant => "VALORANT"@,
        Game::Other => "OTHER"@,
    }
}

/// The game a stored text names; any text that names no game is `Other`.
pub open spec fn game_of_name(s: Seq<char>) -> Game {
    if s == "TF2"@ {
        Game::Tf2
    } else if s == "CS2"@ {
        Game::Cs2
    } else if s == "CSGO"@ {
        Game::Csgo
    } else if s == "DOTA2"@ {
        Game::Dota2
    } else if s == "PUBG"@ {
        Game::Pubg
    } else if s == "APEX"@ {
        Game::Apex
    } else if s == "RUST"@ {
        Game::Rust
    } else if s == "GTA5"@ {
        Game::Gta5
    } else if s == "VALORANT"@ {
        Game::Valorant
    } else {
        Game::Other
    }
}

impl Game {
    /// The text that names the game in the store.
    pub fn to_sql_text(&self) -> (r: String)
        ensures
            r@ == game_name(*self),
    {
        match self {
            Game::Tf2 => str_to_string("TF2"),
            Game::Cs2 => str_to_string("CS2"),
            Game::Csgo => str_to_string("CSGO"),
            Game::Dota2 => str_to_string("DOTA2"),
            Game::Pubg => str_to_string("PUBG"),
            Game::Apex => str_to_string("APEX"),
            Game::Rust => str_to_string("RUST"),
            Game::Gta5 => str_to_string("GTA5"),
            Game::Valorant => str_to_string("VALORANT"),
            Game::Other => str_to_string("OTHER"),
        }
    }

    /// The game that a stored text names.
    pub fn from_sql_text(s: &str) -> (r: Game)
        ensures
            r == game_of_name(s@),
    {
        let c = chars_of(s);
        if chars_eq(&c, &chars_of("TF2")) {
            Game::Tf2
        } else if chars_eq(&c, &chars_of("CS2")) {
            Game::Cs2
        } else if chars_eq(&c, &chars_of("CSGO")) {
            Game::Csgo
        } else if chars_eq(&c, &chars_of("DOTA2")) {
            Game::Dota2
        } else if chars_eq(&c, &chars_of("PUBG")) {
            Game::Pubg
        } else if chars_eq(&c, &chars_of("APEX")) {
            Game::Apex
        } else if chars_eq(&c, &chars_of("RUST")) {
            Game::Rust
        } else if chars_eq(&c, &chars_of("GTA5")) {
            Game::Gta5
        } else if chars_eq(&c, &chars_of("VALORANT")) {
            Game::Valorant
        } else {
            Game::Other
        }
    }
}

/// Reading back the stored name of a game gives the game.
pub proof fn law_game_name_roundtrip(game: Game)
    ensures
        game_of_name(game_name(game)) == game,
{
    reveal_strlit("TF2");
    reveal_strlit("CS2");
    reveal_strlit("CSGO");
    reveal_strlit("DOTA2");
    reveal_strlit("PUBG");
    reveal_strlit("APEX");
    reveal_strlit("RUST");
    reveal_strlit("GTA5");
    reveal_strlit("VALORANT");
    reveal_strlit("OTHER");
    assert("TF2"@[0] == 'T');
    assert("CS2"@[0] == 'C' && "CS2"@[2] == '2');
    assert("CSGO"@[0] == 'C' && "CSGO"@[2] == 'G');
    assert("DOTA2"@[0] == 'D');
    assert("PUBG"@[0] == 'P');
    assert("APEX"@[0] == 'A');
    assert("RUST"@[0] == 'R');
    assert("GTA5"@[0] == 'G');
    assert("VALORANT"@[0] == 'V');
    assert("OTHER"@[0] == 'O');
}

} // verus!
