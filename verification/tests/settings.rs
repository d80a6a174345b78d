use tf2monitor::app_settings::{
    apply_temp_settings, fill_settings_window, get_exe_filename, get_log_filename,
    settings_window_buttons, temp_settings_from, AppSettings, SettingsButtons, SettingsWindow,
};
use tf2monitor::steamid::SteamID;

#[test]
fn default_settings() {
    let s = AppSettings::default();
    assert_eq!(
        s.log_filename,
        "C:\\Program Files (x86)\\Steam\\steamapps\\common\\Team Fortress 2\\tf\\console.log"
    );
    assert_eq!(
        s.exe_filename,
        "C:\\Program Files (x86)\\Steam\\steamapps\\common\\Team Fortress 2\\tf_win64.exe"
    );
    assert_eq!(s.log_filename, get_log_filename());
    assert_eq!(s.exe_filename, get_exe_filename());
    assert_eq!(s.self_steamid64, SteamID::from_u64(0));
    assert_eq!(s.steam_api_key, "");
    assert_eq!(s.rcon_password, "rconpwd");
    assert_eq!(s.rcon_ip, "127.0.0.1");
    assert_eq!(s.rcon_port, 40434);
}

#[test]
fn validation_needs_program_and_password() {
    let mut s = AppSettings::default();
    assert!(s.validate_settings(true));
    assert!(!s.validate_settings(false));
    s.rcon_password = String::new();
    assert!(!s.validate_settings(true));
    // A missing API key or an invalid own SteamID only warns.
    s.rcon_password = "x".to_string();
    s.steam_api_key = String::new();
    assert!(s.validate_settings(true));
}

#[test]
fn edit_form_round_trip() {
    let mut s = AppSettings::default();
    s.self_steamid64 = SteamID::from_u64(76561197960435530);
    let temp = temp_settings_from(&s);
    assert_eq!(temp.self_steamid64, "76561197960435530");
    assert_eq!(temp.rcon_port, "40434");
    assert_eq!(temp.rcon_ip, "127.0.0.1");
    let back = apply_temp_settings(&s, &temp);
    assert_eq!(back.self_steamid64, s.self_steamid64);
    assert_eq!(back.rcon_port, 40434);
    assert_eq!(back.rcon_password, "rconpwd");
}

#[test]
fn edit_form_reads_steamid32_and_keeps_bad_values() {
    let s = AppSettings::default();
    let mut temp = temp_settings_from(&s);
    temp.self_steamid64 = "[U:1:169802]".to_string();
    temp.rcon_port = "27015".to_string();
    temp.rcon_password = "secret".to_string();
    let r = apply_temp_settings(&s, &temp);
    assert_eq!(r.self_steamid64, SteamID::from_u64(76561197960435530));
    assert_eq!(r.rcon_port, 27015);
    assert_eq!(r.rcon_password, "secret");

    temp.self_steamid64 = "not a steamid".to_string();
    temp.rcon_port = "99999".to_string();
    let r = apply_temp_settings(&s, &temp);
    assert_eq!(r.self_steamid64, SteamID::from_u64(0));
    assert_eq!(r.rcon_port, 40434);
}

fn buttons(save: bool, cancel: bool, closed: bool) -> SettingsButtons {
    SettingsButtons { save, cancel, closed }
}

#[test]
fn settings_window_frames() {
    let s = AppSettings::default();
    // A closed window stays closed and gets no form.
    let w = fill_settings_window(SettingsWindow { open: false, temp: None }, &s);
    assert!(!w.open && w.temp.is_none());
    let (w, saved) = settings_window_buttons(w, &s, buttons(true, false, false));
    assert!(!w.open && w.temp.is_none() && saved.is_none());

    // Opening fills the form; nothing clicked keeps it.
    let w = fill_settings_window(SettingsWindow { open: true, temp: None }, &s);
    assert_eq!(w.temp.as_ref().unwrap().rcon_port, "40434");
    let (mut w, saved) = settings_window_buttons(w, &s, buttons(false, false, false));
    assert!(w.open && saved.is_none());

    // An edited form survives the next fill, and Save applies it.
    w.temp.as_mut().unwrap().rcon_ip = "10.0.0.1".to_string();
    let w = fill_settings_window(w, &s);
    assert_eq!(w.temp.as_ref().unwrap().rcon_ip, "10.0.0.1");
    let (w, saved) = settings_window_buttons(w, &s, buttons(true, false, false));
    assert!(!w.open && w.temp.is_none());
    assert_eq!(saved.unwrap().rcon_ip, "10.0.0.1");

    // Cancel and the close button drop the form without saving.
    let w = fill_settings_window(SettingsWindow { open: true, temp: None }, &s);
    let (w, saved) = settings_window_buttons(w, &s, buttons(false, true, false));
    assert!(!w.open && w.temp.is_none() && saved.is_none());
    let w = fill_settings_window(SettingsWindow { open: true, temp: None }, &s);
    let (w, saved) = settings_window_buttons(w, &s, buttons(false, false, true));
    assert!(!w.open && w.temp.is_none() && saved.is_none());
}
