use spectre_core::enforce::{
    enforce_player_lists, failure_line, joined_line, window_warning, EnforceError, Kick,
};
use spectre_core::inject::{command_keystrokes, InputStep, KICK_DELAY_MS};
use spectre_core::kicked::{listed, KickedNames};
use spectre_core::policy::KickReason;
use spectre_core::roster::PlayerSlot;
use spectre_core::server::{ServerConfig, ServerManager};

fn roster(players: &[(&str, &str)]) -> Vec<PlayerSlot> {
    players.iter().map(|(name, ip)| PlayerSlot::new(name, ip)).collect()
}

fn names(slots: &[PlayerSlot]) -> Vec<String> {
    slots.iter().map(|s| s.name.clone()).collect()
}

fn sorted(mut names: Vec<String>) -> Vec<String> {
    names.sort();
    names
}

#[test]
fn forced_ban_kicks_bob() {
    let mut manager = ServerManager::default();
    manager.forced_ban_list = vec!["1.2.3.4".to_string()];
    let config = ServerConfig::default();
    let slots = roster(&[("", "0.0.0.0"), ("Bob", "1.2.3.4"), ("Eve", "5.5.5.5")]);
    let mut kicked = KickedNames::new();
    let tick =
        enforce_player_lists(Some(&slots), &config, &manager, &mut kicked, None, true).unwrap();
    assert_eq!(names(&tick.connected), vec!["Bob", "Eve"]);
    assert!(!tick.window_missing);
    assert_eq!(tick.kicks.len(), 1);
    let kick = &tick.kicks[0];
    assert_eq!(kick.slot, 1);
    assert_eq!(kick.name, "Bob");
    assert_eq!(kick.ip, "1.2.3.4");
    assert_eq!(kick.reason, KickReason::ForcedBan);
    assert_eq!(kick.entry, Some("1.2.3.4".to_string()));
    assert_eq!(kick.say_command(), "asay Bob is banned. Reason: (none)");
    assert!(kick.say_command().contains("Bob"));
    assert_eq!(kick.kick_command(), "kickplayer Bob");
    assert_eq!(
        kick.log_line(),
        "[DS-Helper] KICK slot 1 \"Bob\" (1.2.3.4) reason: forced_ban list (entry: 1.2.3.4)"
    );
    let mut expected = command_keystrokes("asay Bob is banned. Reason: (none)");
    expected.push(InputStep::Pause(KICK_DELAY_MS));
    expected.extend(command_keystrokes("kickplayer Bob"));
    assert_eq!(kick.steps(), expected);
    assert!(kicked.contains("Bob"));
    assert!(!kicked.contains("Eve"));
    assert_eq!(kicked.names(), vec!["Bob"]);
}

#[test]
fn the_forced_ban_list_needs_no_switch() {
    let mut manager = ServerManager::default();
    manager.enable_forced_ban_list = false;
    manager.forced_ban_list = vec!["1.2.3.4".to_string()];
    let mut config = ServerConfig::default();
    let slots = roster(&[("Bob", "1.2.3.4")]);
    let mut kicked = KickedNames::new();
    let blind =
        enforce_player_lists(Some(&slots), &config, &manager, &mut kicked, None, false).unwrap();
    assert!(blind.window_missing);
    assert!(blind.kicks.is_empty());
    assert_eq!(kicked.len(), 0);
    let tick =
        enforce_player_lists(Some(&slots), &config, &manager, &mut kicked, None, true).unwrap();
    assert_eq!(names(&tick.connected), vec!["Bob"]);
    assert_eq!(tick.kicks.len(), 1);
    assert_eq!(tick.kicks[0].say_command(), "asay Bob is banned. Reason: (none)");
    assert_eq!(tick.kicks[0].kick_command(), "kickplayer Bob");
    assert_eq!(kicked.names(), vec!["Bob"]);
    config.enable_whitelist = true;
    let mut kicked = KickedNames::new();
    let tick =
        enforce_player_lists(Some(&slots), &config, &manager, &mut kicked, None, true).unwrap();
    assert_eq!(tick.kicks[0].reason, KickReason::ForcedBan);
    assert_eq!(tick.kicks[0].notice(), "Bob is banned. Reason: (none)");
}

#[test]
fn a_kicked_name_is_not_kicked_again() {
    let mut manager = ServerManager::default();
    manager.forced_ban_list = vec!["1.2.3.4".to_string()];
    let config = ServerConfig::default();
    let slots = roster(&[("Bob", "1.2.3.4"), ("Eve", "5.5.5.5")]);
    let mut kicked = KickedNames::new();
    let first =
        enforce_player_lists(Some(&slots), &config, &manager, &mut kicked, None, true).unwrap();
    assert_eq!(first.kicks.len(), 1);
    let second = enforce_player_lists(
        Some(&slots),
        &config,
        &manager,
        &mut kicked,
        Some(&first.connected),
        true,
    )
    .unwrap();
    assert!(second.kicks.is_empty());
    assert!(second.joined.is_empty());
    assert!(kicked.contains("Bob"));
}

#[test]
fn a_player_who_left_is_judged_afresh_on_return() {
    let mut manager = ServerManager::default();
    manager.forced_ban_list = vec!["1.2.3.4".to_string()];
    let config = ServerConfig::default();
    let with_bob = roster(&[("Bob", "1.2.3.4"), ("Eve", "5.5.5.5")]);
    let without_bob = roster(&[("", "0.0.0.0"), ("Eve", "5.5.5.5")]);
    let mut kicked = KickedNames::new();
    let first =
        enforce_player_lists(Some(&with_bob), &config, &manager, &mut kicked, None, true).unwrap();
    assert_eq!(first.kicks.len(), 1);
    let away = enforce_player_lists(
        Some(&without_bob),
        &config,
        &manager,
        &mut kicked,
        Some(&first.connected),
        true,
    )
    .unwrap();
    assert!(away.kicks.is_empty());
    assert!(!kicked.contains("Bob"));
    assert_eq!(kicked.len(), 0);
    let back = enforce_player_lists(
        Some(&with_bob),
        &config,
        &manager,
        &mut kicked,
        Some(&away.connected),
        true,
    )
    .unwrap();
    assert_eq!(back.kicks.len(), 1);
    assert_eq!(back.kicks[0].name, "Bob");
    assert_eq!(names(&back.joined), vec!["Bob"]);
    assert!(kicked.contains("Bob"));
}

#[test]
fn a_name_in_two_slots_is_kicked_once() {
    let manager = ServerManager::default();
    let mut config = ServerConfig::default();
    config.ban_list = vec!["1.1.1.1".to_string(), "2.2.2.2:>twin".to_string()];
    let slots = roster(&[("Twin", "1.1.1.1"), ("Twin", "2.2.2.2"), ("Solo", "2.2.2.2")]);
    let mut kicked = KickedNames::new();
    let tick =
        enforce_player_lists(Some(&slots), &config, &manager, &mut kicked, None, true).unwrap();
    assert_eq!(tick.kicks.len(), 2);
    assert_eq!((tick.kicks[0].slot, tick.kicks[0].name.as_str()), (0, "Twin"));
    assert_eq!((tick.kicks[1].slot, tick.kicks[1].name.as_str()), (2, "Solo"));
    assert_eq!(tick.kicks[1].say_command(), "asay Solo is banned. Reason: twin");
    assert_eq!(sorted(kicked.names()), vec!["Solo", "Twin"]);
}

#[test]
fn whitelist_kicks_strangers() {
    let manager = ServerManager::default();
    let mut config = ServerConfig::default();
    config.enable_whitelist = true;
    config.whitelist = vec!["5.5.5.5:>Eve".to_string()];
    let slots = roster(&[("Mallory", "6.6.6.6"), ("Eve", "5.5.5.5")]);
    let mut kicked = KickedNames::new();
    let tick =
        enforce_player_lists(Some(&slots), &config, &manager, &mut kicked, None, true).unwrap();
    assert_eq!(tick.kicks.len(), 1);
    assert_eq!(tick.kicks[0].reason, KickReason::NotInWhitelist);
    assert_eq!(tick.kicks[0].entry, None);
    assert_eq!(tick.kicks[0].say_command(), "asay Mallory not in whitelist.");
    assert_eq!(
        tick.kicks[0].log_line(),
        "[DS-Helper] KICK slot 0 \"Mallory\" (6.6.6.6) reason: not in whitelist"
    );
}

#[test]
fn forced_ban_is_the_reported_reason_even_off_the_whitelist() {
    let mut manager = ServerManager::default();
    manager.forced_ban_list = vec!["6.6.6.6:>fleet".to_string()];
    let mut config = ServerConfig::default();
    config.enable_whitelist = true;
    config.ban_list = vec!["6.6.6.6:>local".to_string()];
    let slots = roster(&[("Mallory", "6.6.6.6")]);
    let mut kicked = KickedNames::new();
    let tick =
        enforce_player_lists(Some(&slots), &config, &manager, &mut kicked, None, true).unwrap();
    assert_eq!(tick.kicks[0].reason, KickReason::ForcedBan);
    assert_eq!(
        tick.kicks[0].log_line(),
        "[DS-Helper] KICK slot 0 \"Mallory\" (6.6.6.6) reason: forced_ban list (entry: 6.6.6.6:>fleet)"
    );
    assert_eq!(tick.kicks[0].notice(), "Mallory is banned. Reason: fleet");
}

#[test]
fn without_a_window_nobody_is_kicked() {
    let mut manager = ServerManager::default();
    manager.forced_ban_list = vec!["1.2.3.4".to_string()];
    let config = ServerConfig::default();
    let slots = roster(&[("Bob", "1.2.3.4")]);
    let mut kicked = KickedNames::new();
    let tick =
        enforce_player_lists(Some(&slots), &config, &manager, &mut kicked, None, false).unwrap();
    assert!(tick.window_missing);
    assert!(tick.kicks.is_empty());
    assert_eq!(names(&tick.connected), vec!["Bob"]);
    assert!(!kicked.contains("Bob"));
    let later = enforce_player_lists(
        Some(&slots),
        &config,
        &manager,
        &mut kicked,
        Some(&tick.connected),
        true,
    )
    .unwrap();
    assert_eq!(later.kicks.len(), 1);
}

#[test]
fn without_rules_the_tick_only_tracks() {
    let manager = ServerManager::default();
    let mut config = ServerConfig::default();
    config.whitelist = vec!["9.9.9.9".to_string()];
    let slots = roster(&[("Bob", "1.2.3.4"), ("", "9.9.9.9")]);
    let mut kicked = KickedNames::new();
    kicked.insert("Bob");
    kicked.insert("Gone");
    let tick =
        enforce_player_lists(Some(&slots), &config, &manager, &mut kicked, None, false).unwrap();
    assert!(!tick.window_missing);
    assert!(tick.kicks.is_empty());
    assert_eq!(names(&tick.connected), vec!["Bob"]);
    assert_eq!(names(&tick.joined), vec!["Bob"]);
    assert_eq!(kicked.names(), vec!["Bob"]);
}

#[test]
fn joins_are_told_by_name_and_address() {
    let manager = ServerManager::default();
    let config = ServerConfig::default();
    let previous = roster(&[("Ann", "1.1.1.1"), ("Bob", "2.2.2.2")]);
    let now = roster(&[("Ann", "1.1.1.1"), ("Bob", "3.3.3.3"), ("Cid", "4.4.4.4")]);
    let mut kicked = KickedNames::new();
    let tick = enforce_player_lists(
        Some(&now),
        &config,
        &manager,
        &mut kicked,
        Some(&previous),
        true,
    )
    .unwrap();
    assert_eq!(names(&tick.joined), vec!["Bob", "Cid"]);
    assert_eq!(joined_line(&tick.joined[0]), "[DS-Helper] player joined: \"Bob\" (3.3.3.3)");
}

#[test]
fn an_unreadable_process_fails_the_tick_and_changes_nothing() {
    let mut manager = ServerManager::default();
    manager.forced_ban_list = vec!["1.2.3.4".to_string()];
    let config = ServerConfig::default();
    let mut kicked = KickedNames::new();
    kicked.insert("Bob");
    let outcome = enforce_player_lists(None, &config, &manager, &mut kicked, None, true);
    assert_eq!(outcome.err(), Some(EnforceError::ProcessUnreadable));
    assert_eq!(kicked.names(), vec!["Bob"]);
    assert_eq!(
        failure_line(22000, EnforceError::ProcessUnreadable),
        "[DS-Helper] port 22000: process unreadable"
    );
}

#[test]
fn window_warning_names_the_port() {
    assert_eq!(
        window_warning(22000),
        "[DS-Helper] port 22000: Could not find DS window (kick command will not be sent)"
    );
}

#[test]
fn kick_commands_use_the_trimmed_name() {
    let kick = Kick {
        slot: 12,
        name: " Bob ".to_string(),
        ip: "1.2.3.4".to_string(),
        reason: KickReason::Ban,
        entry: Some("1.2.3.4:>rude".to_string()),
    };
    assert_eq!(kick.kick_command(), "kickplayer Bob");
    assert_eq!(kick.say_command(), "asay Bob is banned. Reason: rude");
    assert_eq!(
        kick.log_line(),
        "[DS-Helper] KICK slot 12 \" Bob \" (1.2.3.4) reason: ban list (entry: 1.2.3.4:>rude)"
    );
}

#[test]
fn kicked_names_are_a_set() {
    let mut kicked = KickedNames::new();
    assert_eq!(kicked.len(), 0);
    kicked.insert("a");
    kicked.insert("b");
    kicked.insert("a");
    assert_eq!(kicked.len(), 2);
    assert!(kicked.contains("a"));
    assert!(!kicked.contains("c"));
    assert!(!kicked.contains("A"));
    let twin = kicked.copy();
    kicked.retain_among(&vec!["b".to_string(), "c".to_string()]);
    assert_eq!(kicked.names(), vec!["b"]);
    assert_eq!(sorted(twin.names()), vec!["a", "b"]);
    kicked.clear();
    assert_eq!(kicked.len(), 0);
    assert!(listed(&vec!["x".to_string(), "y".to_string()], "y"));
    assert!(!listed(&vec!["x".to_string()], "y"));
}
