//! The lines of the chat and kill feed: which texts, in which colors.
use crate::colors::{chat_team_color, feed_team_color, NamedColor, Rgb};
use crate::scoreboard::{Player, Team};
use crate::steamid::SteamID;
use crate::text::{dec, push_str, str_to_string, string_of, u64_to_string};
use vstd::prelude::*;

verus! {

/// A chat message of the lobby.
#[derive(Debug, Clone)]
pub struct LobbyChat {
    pub steamid: SteamID,
    /// The name the log file gives (the player may have left).
    pub player_name: String,
    pub message: String,
    pub dead: bool,
    pub team: bool,
}

/// A kill of the lobby.
#[derive(Debug, Clone)]
pub struct LobbyKill {
    pub killer: SteamID,
    pub victim: SteamID,
    pub weapon: String,
    pub crit: bool,
}

/// A piece of a feed line in one color.
#[derive(Debug, Clone)]
pub struct TextSegment {
    pub text: String,
    pub color: NamedColor,
}

pub open spec fn segments_view(v: Seq<TextSegment>) -> Seq<(Seq<char>, NamedColor)> {
    v.map_values(|s: TextSegment| (s.text@, s.color))
}

pub open spec fn message_color() -> NamedColor {
    NamedColor::Custom(Rgb { r: 210, g: 210, b: 210 })
}

/// The line of a chat message: a speech mark; `*DEAD* ` and `(TEAM) ` when
/// so; the player's name in the color of the team (the current name and team
/// when the player is still in the lobby, else the logged name and no team);
/// `: `; and the message.
pub open spec fn chat_line(chat: LobbyChat, player: Option<Player>) -> Seq<(Seq<char>, NamedColor)> {
    let name = match player {
        Some(p) => p.name@,
        None => chat.player_name@,
    };
    let team = match player {
        Some(p) => p.team,
        None => Team::Unknown,
    };
    seq![("💬 "@, NamedColor::White)] + (if chat.dead {
        seq![("*DEAD* "@, NamedColor::White)]
    } else {
        Seq::empty()
    }) + (if chat.team {
        seq![("(TEAM) "@, NamedColor::White)]
    } else {
        Seq::empty()
    }) + seq![
        (name, feed_team_color(team)),
        (": "@, NamedColor::LightGray),
        (chat.message@, message_color()),
    ]
}

fn segment(text: String, color: NamedColor) -> (r: TextSegment)
    ensures
        r.text@ == text@,
        r.color == color,
{
    TextSegment { text, color }
}

proof fn lemma_segments_push(v: Seq<TextSegment>, s: TextSegment)
    ensures
        segments_view(v.push(s)) == segments_view(v).push((s.text@, s.color)),
{
    assert(segments_view(v.push(s)) =~= segments_view(v).push((s.text@, s.color)));
}

pub fn chat_row_segments(chat: &LobbyChat, player: Option<&Player>) -> (r: Vec<TextSegment>)
    ensures
        segments_view(r@) == chat_line(*chat, match player {
            Some(p) => Some(*p),
            None => None,
        }),
{
    // In the case the player left, the name from the log file is used
    // And show an unknown team color
    let (name, team) = match player {
        Some(p) => (p.name.clone(), p.team),
        None => (chat.player_name.clone(), Team::Unknown),
    };
    let mut r: Vec<TextSegment> = Vec::new();
    let ghost mut expect: Seq<(Seq<char>, NamedColor)> = Seq::empty();
    let s = segment(str_to_string("💬 "), NamedColor::White);
    proof { lemma_segments_push(r@, s); }
    r.push(s);
    // Prefix player name with *DEAD* and (TEAM) if needed
    if chat.dead {
        let s = segment(str_to_string("*DEAD* "), NamedColor::White);
        proof { lemma_segments_push(r@, s); }
        r.push(s);
    }
    if chat.team {
        let s = segment(str_to_string("(TEAM) "), NamedColor::White);
        proof { lemma_segments_push(r@, s); }
        r.push(s);
    }
    let s = segment(name, chat_team_color(team));
    proof { lemma_segments_push(r@, s); }
    r.push(s);
    let s = segment(str_to_string(": "), NamedColor::LightGray);
    proof { lemma_segments_push(r@, s); }
    r.push(s);
    let s = segment(chat.message.clone(), NamedColor::Custom(Rgb { r: 210, g: 210, b: 210 }));
    proof { lemma_segments_push(r@, s); }
    r.push(s);
    assert(segments_view(r@) =~= chat_line(*chat, match player {
        Some(p) => Some(*p),
        None => None,
    }));
    r
}

/// The name of a player in a kill line: the player's name when the player is
/// in the lobby, else the SteamID64.
pub open spec fn kill_name(id: SteamID, player: Option<Player>) -> (Seq<char>, Team) {
    match player {
        Some(p) => (p.name@, p.team),
        None => (dec(id@ as nat), Team::Unknown),
    }
}

/// The line of a kill: a skull, the killer's name in the color of the team,
/// ` killed `, the victim's name likewise, and ` with ` and the weapon.
pub open spec fn kill_line(kill: LobbyKill, killer: Option<Player>, victim: Option<Player>) -> Seq<
    (Seq<char>, NamedColor),
> {
    let (kn, kt) = kill_name(kill.killer, killer);
    let (vn, vt) = kill_name(kill.victim, victim);
    seq![
        ("💀 "@, NamedColor::White),
        (kn, feed_team_color(kt)),
        (" killed "@, NamedColor::LightGray),
        (vn, feed_team_color(vt)),
        (" with "@ + kill.weapon@, NamedColor::LightGray),
    ]
}

fn name_in_feed(id: SteamID, player: Option<&Player>) -> (r: (String, Team))
    ensures
        (r.0@, r.1) == kill_name(id, match player {
            Some(p) => Some(*p),
            None => None,
        }),
{
    match player {
        Some(p) => (p.name.clone(), p.team),
        None => (u64_to_string(id.to_u64()), Team::Unknown),
    }
}

pub fn kill_row_segments(kill: &LobbyKill, killer: Option<&Player>, victim: Option<&Player>) -> (r:
    Vec<TextSegment>)
    ensures
        segments_view(r@) == kill_line(*kill, match killer {
            Some(p) => Some(*p),
            None => None,
        }, match victim {
            Some(p) => Some(*p),
            None => None,
        }),
{
    let (killer_name, killer_team) = name_in_feed(kill.killer, killer);
    let (victim_name, victim_team) = name_in_feed(kill.victim, victim);
    let mut with: Vec<char> = Vec::new();
    push_str(&mut with, " with ");
    push_str(&mut with, kill.weapon.as_str());
    let mut r: Vec<TextSegment> = Vec::new();
    let s = segment(str_to_string("💀 "), NamedColor::White);
    proof { lemma_segments_push(r@, s); }
    r.push(s);
    let s = segment(killer_name, chat_team_color(killer_team));
    proof { lemma_segments_push(r@, s); }
    r.push(s);
    let s = segment(str_to_string(" killed "), NamedColor::LightGray);
    proof { lemma_segments_push(r@, s); }
    r.push(s);
    let s = segment(victim_name, chat_team_color(victim_team));
    proof { lemma_segments_push(r@, s); }
    r.push(s);
    let s = segment(string_of(&with), NamedColor::LightGray);
    proof { lemma_segments_push(r@, s); }
    r.push(s);
    assert(segments_view(r@) =~= kill_line(*kill, match killer {
        Some(p) => Some(*p),
        None => None,
    }, match victim {
        Some(p) => Some(*p),
        None => None,
    }));
    r
}

/// In a kill line the killer and the victim are each written the same way:
/// a player of the lobby by name, in the color of the player's team (Blu
/// light blue, Red light red, otherwise gray); a player who is not in the
/// lobby by SteamID64, in gray. The line reads: skull, killer, ` killed `,
/// victim, ` with ` and the weapon.
pub proof fn law_kill_line_names(kill: LobbyKill, killer: Option<Player>, victim: Option<Player>)
    ensures
        kill_line(kill, killer, victim).len() == 5,
        kill_line(kill, killer, victim)[0].0 == "💀 "@,
        kill_line(kill, killer, victim)[2].0 == " killed "@,
        kill_line(kill, killer, victim)[4].0 == " with "@ + kill.weapon@,
        named_as(kill_line(kill, killer, victim)[1], kill.killer, killer),
        named_as(kill_line(kill, killer, victim)[3], kill.victim, victim),
{
    reveal_strlit("💀 ");
}

/// How a player is written in a feed line: by name in the team's color when
/// in the lobby, else by SteamID64 in gray.
pub open spec fn named_as(seg: (Seq<char>, NamedColor), who: SteamID, p: Option<Player>) -> bool {
    match p {
        Some(pl) => seg.0 == pl.name@ && seg.1 == (match pl.team {
            Team::Blue => NamedColor::Custom(Rgb { r: 0x99, g: 0xCC, b: 0xFF }),
            Team::Red => NamedColor::Custom(Rgb { r: 0xFF, g: 0x40, b: 0x40 }),
            _ => NamedColor::Gray,
        }),
        None => seg.0 == dec(who@ as nat) && seg.1 == NamedColor::Gray,
    }
}

/// In a chat line the speaker is written after the speech mark and the
/// `*DEAD* ` / `(TEAM) ` marks that apply: a player of the lobby by current
/// name in the color of the player's team, a player who left by the logged
/// name in gray; then `: ` and the message, last.
pub proof fn law_chat_line_speaker(chat: LobbyChat, player: Option<Player>)
    ensures
        ({
            let line = chat_line(chat, player);
            let k = 1 + (if chat.dead { 1int } else { 0 }) + (if chat.team { 1int } else { 0 });
            &&& line.len() == k + 3
            &&& line[0].0 == "💬 "@
            &&& chat.dead ==> line[1].0 == "*DEAD* "@
            &&& chat.team ==> line[k - 1].0 == "(TEAM) "@
            &&& line[k + 1].0 == ": "@
            &&& line[k + 2].0 == chat.message@
            &&& match player {
                Some(p) => line[k].0 == p.name@ && line[k].1 == (match p.team {
                    Team::Blue => NamedColor::Custom(Rgb { r: 0x99, g: 0xCC, b: 0xFF }),
                    Team::Red => NamedColor::Custom(Rgb { r: 0xFF, g: 0x40, b: 0x40 }),
                    _ => NamedColor::Gray,
                }),
                None => line[k].0 == chat.player_name@ && line[k].1 == NamedColor::Gray,
            }
        }),
{
}

} // verus!
