//! The events that the parts of the program send each other, and the
//! console commands sent to the game.
use crate::app_settings::AppSettings;
use crate::player_database::PlayerAttribute;
use crate::scoreboard::Player;
use crate::text::str_to_string;
use vstd::prelude::*;

verus! {

#[derive(Debug, Clone)]
pub enum AppEventMsg {
    /// Sets or removes a flag(Cheater, Exploiter, etc) for a SteamID
    SetPlayerFlag(Player, PlayerAttribute, bool),
    UpdatedSettings(AppSettings),
}

/// The console command sent when spectating is switched on or off from the
/// menu: `kill; menuopen` to start, `menuclosed` to stop.
pub fn spectate_command(spectating: bool) -> (r: String)
    ensures
        r@ == (if spectating {
            "kill; menuopen"@
        } else {
            "menuclosed"@
        }),
{
    if spectating {
        str_to_string("kill; menuopen")
    } else {
        str_to_string("menuclosed")
    }
}

/// The console command that restarts the game's sound.
pub fn restart_sound_command() -> (r: String)
    ensures
        r@ == "snd_restart"@,
{
    str_to_string("snd_restart")
}

} // verus!
