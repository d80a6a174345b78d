//! The settings of the program, their defaults, their check, and the edit
//! form of the settings window.
use crate::steamid::{id32_prefix, parse_steam_id32, SteamID, MIN_STEAMID64};
use crate::text::{
    chars_of, dec, lemma_parse_dec, decimal_chars, parse_u16, parse_unsigned, starts_with, starts_with_exec,
    str_to_string, string_of, u64_to_string,
};
use vstd::prelude::*;

verus! {

#[derive(Debug, Clone)]
pub struct AppSettings {
    pub log_filename: String,
    pub exe_filename: String,
    pub self_steamid64: SteamID,
    /// Steam API key
    /// Used for fetching info about players from Steam
    /// Go here to crate a new key: https://steamcommunity.com/dev/apikey
    pub steam_api_key: String,
    /// TF2 RCON settings
    pub rcon_password: String,
    pub rcon_ip: String,
    pub rcon_port: u16,
}

/// Where Team Fortress 2 writes its console log.
pub fn get_log_filename() -> (r: String)
    ensures
        r@ == "C:\\Program Files (x86)\\Steam\\steamapps\\common\\Team Fortress 2\\tf\\console.log"@,
{
    str_to_string("C:\\Program Files (x86)\\Steam\\steamapps\\common\\Team Fortress 2\\tf\\console.log")
}

/// Where the Team Fortress 2 program is.
pub fn get_exe_filename() -> (r: String)
    ensures
        r@ == "C:\\Program Files (x86)\\Steam\\steamapps\\common\\Team Fortress 2\\tf_win64.exe"@,
{
    str_to_string("C:\\Program Files (x86)\\Steam\\steamapps\\common\\Team Fortress 2\\tf_win64.exe")
}

impl Default for AppSettings {
    fn default() -> (r: Self)
        ensures
            r.log_filename@ == "C:\\Program Files (x86)\\Steam\\steamapps\\common\\Team Fortress 2\\tf\\console.log"@,
            r.exe_filename@ == "C:\\Program Files (x86)\\Steam\\steamapps\\common\\Team Fortress 2\\tf_win64.exe"@,
            r.self_steamid64@ == 0,
            r.steam_api_key@.len() == 0,
            r.rcon_password@ == "rconpwd"@,
            r.rcon_ip@ == "127.0.0.1"@,
            r.rcon_port == 40434,
    {
        Self {
            log_filename: get_log_filename(),
            exe_filename: get_exe_filename(),
            self_steamid64: SteamID::from_u64(0),
            steam_api_key: String::new(),
            rcon_password: str_to_string("rconpwd"),
            rcon_ip: str_to_string("127.0.0.1"),
            rcon_port: 40434,
        }
    }
}

impl AppSettings {
    /// Whether the settings can be used, given whether the configured TF2
    /// program file exists: it must, and the RCON password must not be empty.
    /// (A missing log file, an invalid own SteamID or an empty Steam API key
    /// only deserve warnings.)
    pub fn validate_settings(&self, exe_exists: bool) -> (r: bool)
        ensures
            r == (exe_exists && self.rcon_password@.len() > 0),
    {
        let mut valid = true;
        if !exe_exists {
            valid = false;
        }
        if chars_of(self.rcon_password.as_str()).len() == 0 {
            valid = false;
        }
        valid
    }
}

/// The settings as the settings window edits them: every field as text.
#[derive(Debug, Clone)]
pub struct TempSettings {
    pub self_steamid64: String,
    pub steam_api_key: String,
    pub rcon_password: String,
    pub rcon_ip: String,
    pub rcon_port: String,
    pub log_filename: String,
    pub exe_filename: String,
}

/// The edit form filled with the current settings.
pub fn temp_settings_from(settings: &AppSettings) -> (r: TempSettings)
    ensures
        r.self_steamid64@ == dec(settings.self_steamid64@ as nat),
        r.steam_api_key@ == settings.steam_api_key@,
        r.rcon_password@ == settings.rcon_password@,
        r.rcon_ip@ == settings.rcon_ip@,
        r.rcon_port@ == dec(settings.rcon_port as nat),
        r.log_filename@ == settings.log_filename@,
        r.exe_filename@ == settings.exe_filename@,
{
    TempSettings {
        self_steamid64: u64_to_string(settings.self_steamid64.to_u64()),
        steam_api_key: settings.steam_api_key.clone(),
        rcon_password: settings.rcon_password.clone(),
        rcon_ip: settings.rcon_ip.clone(),
        rcon_port: u64_to_string(settings.rcon_port as u64),
        log_filename: settings.log_filename.clone(),
        exe_filename: settings.exe_filename.clone(),
    }
}

/// The own SteamID that an edited text gives: a SteamID64 when it reads as
/// one, else the account of a `[U:1:...]` SteamID32, else the old one.
pub open spec fn edited_steamid(text: Seq<char>, old: u64) -> u64 {
    match parse_unsigned(text, u64::MAX as nat) {
        Some(n) => n as u64,
        None => if starts_with(text, id32_prefix()) {
            parse_steam_id32(text)->0
        } else {
            old
        },
    }
}

/// Whether `r` are the settings after the edit form `temp` is saved over
/// `settings` (see `apply_temp_settings`).
pub open spec fn applies(settings: AppSettings, temp: TempSettings, r: AppSettings) -> bool {
    &&& r.self_steamid64@ == edited_steamid(temp.self_steamid64@, settings.self_steamid64@)
    &&& r.rcon_port == (match parse_unsigned(temp.rcon_port@, u16::MAX as nat) {
        Some(p) => p as u16,
        None => settings.rcon_port,
    })
    &&& r.steam_api_key@ == temp.steam_api_key@
    &&& r.rcon_password@ == temp.rcon_password@
    &&& r.rcon_ip@ == temp.rcon_ip@
    &&& r.log_filename@ == temp.log_filename@
    &&& r.exe_filename@ == temp.exe_filename@
}

/// Whether an edit form can be saved: a text that is no SteamID64 but opens
/// like a SteamID32 must read as one.
pub open spec fn savable(temp: TempSettings) -> bool {
    parse_unsigned(temp.self_steamid64@, u64::MAX as nat) is None && starts_with(
        temp.self_steamid64@,
        id32_prefix(),
    ) ==> parse_steam_id32(temp.self_steamid64@) is Some
}

/// The settings after the edit form is saved: the own SteamID as
/// `edited_steamid` reads it, the RCON port when it reads as a port (else the
/// old one), every other field as typed.
pub fn apply_temp_settings(settings: &AppSettings, temp: &TempSettings) -> (r: AppSettings)
    requires
        savable(*temp),
    ensures
        applies(*settings, *temp, r),
{
    let steamid = match SteamID::from_u64_string(&temp.self_steamid64) {
        Some(id) => id,
        None => {
            // Try parsing as SteamID32 format [U:1:xxxxx]
            let text = chars_of(temp.self_steamid64.as_str());
            let prefix = vec!['[', 'U', ':', '1', ':'];
            assert(prefix@ == id32_prefix());
            if starts_with_exec(&text, &prefix) {
                SteamID::from_steam_id32(temp.self_steamid64.as_str())
            } else {
                settings.self_steamid64
            }
        },
    };
    let rcon_port = match parse_u16(temp.rcon_port.as_str()) {
        Some(p) => p,
        None => settings.rcon_port,
    };
    AppSettings {
        log_filename: temp.log_filename.clone(),
        exe_filename: temp.exe_filename.clone(),
        self_steamid64: steamid,
        steam_api_key: temp.steam_api_key.clone(),
        rcon_password: temp.rcon_password.clone(),
        rcon_ip: temp.rcon_ip.clone(),
        rcon_port,
    }
}

/// Saving the settings window without an edit keeps the settings: the own
/// SteamID and the RCON port read back from the texts the form is filled
/// with (the other fields are copied both ways).
pub proof fn law_settings_form_roundtrip(steamid: u64, port: u16, other: u64)
    ensures
        edited_steamid(dec(steamid as nat), other) == steamid,
        parse_unsigned(dec(port as nat), u16::MAX as nat) == Some(port as nat),
{
    lemma_parse_dec(steamid as nat, u64::MAX as nat);
    lemma_parse_dec(port as nat, u16::MAX as nat);
}

/// The settings window: whether it is open, and its edit form while it is.
pub struct SettingsWindow {
    pub open: bool,
    pub temp: Option<TempSettings>,
}

/// What happened to the settings window in one frame.
pub struct SettingsButtons {
    /// `Save` was clicked.
    pub save: bool,
    /// `Cancel` was clicked.
    pub cancel: bool,
    /// The window's close button was clicked.
    pub closed: bool,
}

/// The start of a frame of the settings window: an open window without an
/// edit form gets one filled with the current settings; otherwise nothing
/// changes.
pub fn fill_settings_window(window: SettingsWindow, settings: &AppSettings) -> (r: SettingsWindow)
    ensures
        r.open == window.open,
        if window.open && window.temp is None {
            r.temp matches Some(t) && {
                &&& t.self_steamid64@ == dec(settings.self_steamid64@ as nat)
                &&& t.steam_api_key@ == settings.steam_api_key@
                &&& t.rcon_password@ == settings.rcon_password@
                &&& t.rcon_ip@ == settings.rcon_ip@
                &&& t.rcon_port@ == dec(settings.rcon_port as nat)
                &&& t.log_filename@ == settings.log_filename@
                &&& t.exe_filename@ == settings.exe_filename@
            }
        } else {
            r == window
        },
{
    if window.open && window.temp.is_none() {
        SettingsWindow { open: true, temp: Some(temp_settings_from(settings)) }
    } else {
        window
    }
}

/// The end of a frame of the settings window: `Save` applies the edit form
/// to the settings (the new settings are returned) and closes the window;
/// `Cancel` and the close button close it without saving; closing drops the
/// edit form. A closed window stays as it is.
pub fn settings_window_buttons(window: SettingsWindow, settings: &AppSettings, buttons: SettingsButtons) -> (r: (
    SettingsWindow,
    Option<AppSettings>,
))
    requires
        window.open && buttons.save ==> (window.temp matches Some(t) ==> savable(t)),
    ensures
        if !window.open {
            r.0 == window && r.1 is None
        } else if buttons.save || buttons.cancel || buttons.closed {
            &&& !r.0.open && r.0.temp is None
            &&& if buttons.save {
                match window.temp {
                    Some(t) => r.1 matches Some(new) && applies(*settings, t, new),
                    None => r.1 is None,
                }
            } else {
                r.1 is None
            }
        } else {
            r.0 == window && r.1 is None
        },
{
    if !window.open {
        return (window, None);
    }
    if !(buttons.save || buttons.cancel || buttons.closed) {
        return (window, None);
    }
    let saved = if buttons.save {
        match &window.temp {
            Some(t) => Some(apply_temp_settings(settings, t)),
            None => None,
        }
    } else {
        None
    };
    (SettingsWindow { open: false, temp: None }, saved)
}

} // verus!
