use spectre_core::policy::{
    asay_message_for_kick, entry_comment, entry_ip, judge, needs_enforcement, KickReason, Verdict,
    ASA_MAX_LEN, BAN_REASON_MAX_LEN,
};
use spectre_core::server::{ServerConfig, ServerManager};

fn strings(items: &[&str]) -> Vec<String> {
    items.iter().map(|s| s.to_string()).collect()
}

#[test]
fn entries_have_an_address_and_maybe_a_comment() {
    assert_eq!(entry_ip("10.0.0.5:>cheater"), "10.0.0.5");
    assert_eq!(entry_ip("  10.0.0.5  :> cheater "), "10.0.0.5");
    assert_eq!(entry_ip(" 10.0.0.5 "), "10.0.0.5");
    assert_eq!(entry_ip(":>only a comment"), "");
    assert_eq!(entry_ip("a:>b:>c"), "a");
    assert_eq!(entry_comment("10.0.0.5:>cheater"), Some("cheater".to_string()));
    assert_eq!(entry_comment("10.0.0.5:>  spaced out  "), Some("spaced out".to_string()));
    assert_eq!(entry_comment("10.0.0.5:>"), None);
    assert_eq!(entry_comment("10.0.0.5:>   "), None);
    assert_eq!(entry_comment("10.0.0.5"), None);
    assert_eq!(entry_comment("a:>b:>c"), Some("b:>c".to_string()));
}

#[test]
fn ban_matching_is_by_address_only() {
    let manager = ServerManager::default();
    let mut config = ServerConfig::default();
    config.ban_list = strings(&["10.0.0.5:>cheater"]);
    assert_eq!(
        judge("10.0.0.5", &manager, &config),
        Some(Verdict { reason: KickReason::Ban, entry: Some(0) })
    );
    assert_eq!(judge(" 10.0.0.5 ", &manager, &config).map(|v| v.reason), Some(KickReason::Ban));
    assert_eq!(judge("10.0.0.50", &manager, &config), None);
    assert_eq!(judge("10.0.0.", &manager, &config), None);
    assert_eq!(judge("110.0.0.5", &manager, &config), None);
    assert_eq!(judge("cheater", &manager, &config), None);
}

#[test]
fn rules_are_asked_in_order() {
    let mut manager = ServerManager::default();
    manager.forced_ban_list = strings(&["9.9.9.9", "1.2.3.4:>fleet ban"]);
    let mut config = ServerConfig::default();
    config.ban_list = strings(&["1.2.3.4:>local ban", "5.6.7.8"]);
    config.enable_whitelist = true;
    config.whitelist = strings(&["7.7.7.7:>friend"]);
    assert_eq!(
        judge("1.2.3.4", &manager, &config),
        Some(Verdict { reason: KickReason::ForcedBan, entry: Some(1) })
    );
    assert_eq!(
        judge("5.6.7.8", &manager, &config),
        Some(Verdict { reason: KickReason::Ban, entry: Some(1) })
    );
    assert_eq!(
        judge("3.3.3.3", &manager, &config),
        Some(Verdict { reason: KickReason::NotInWhitelist, entry: None })
    );
    assert_eq!(judge("7.7.7.7", &manager, &config), None);
}

#[test]
fn forced_ban_wins_over_the_whitelist() {
    let mut manager = ServerManager::default();
    manager.forced_ban_list = strings(&["1.2.3.4"]);
    let mut config = ServerConfig::default();
    config.enable_whitelist = true;
    config.whitelist = strings(&["8.8.8.8"]);
    assert_eq!(judge("1.2.3.4", &manager, &config).unwrap().reason, KickReason::ForcedBan);
    config.whitelist = strings(&["1.2.3.4"]);
    assert_eq!(judge("1.2.3.4", &manager, &config).unwrap().reason, KickReason::ForcedBan);
}

#[test]
fn a_forced_ban_list_with_an_entry_is_in_force() {
    let mut manager = ServerManager::default();
    let mut config = ServerConfig::default();
    assert!(!needs_enforcement(&manager, &config));
    manager.forced_ban_list = strings(&["1.2.3.4"]);
    for switch in [true, false] {
        manager.enable_forced_ban_list = switch;
        assert!(needs_enforcement(&manager, &config));
        assert_eq!(
            judge("1.2.3.4", &manager, &config),
            Some(Verdict { reason: KickReason::ForcedBan, entry: Some(0) })
        );
        assert_eq!(judge("1.2.3.5", &manager, &config), None);
    }
    config.enable_whitelist = true;
    manager.enable_forced_ban_list = false;
    assert_eq!(judge("1.2.3.4", &manager, &config).unwrap().reason, KickReason::ForcedBan);
}

#[test]
fn enforcement_is_needed_only_with_a_rule_in_force() {
    let manager = ServerManager::default();
    let mut config = ServerConfig::default();
    assert!(!needs_enforcement(&manager, &config));
    config.whitelist = strings(&["1.1.1.1"]);
    assert!(!needs_enforcement(&manager, &config));
    config.enable_whitelist = true;
    assert!(needs_enforcement(&manager, &config));
    config.enable_whitelist = false;
    config.ban_list = strings(&["2.2.2.2"]);
    assert!(needs_enforcement(&manager, &config));
}

#[test]
fn an_empty_whitelist_kicks_everybody() {
    let manager = ServerManager::default();
    let mut config = ServerConfig::default();
    config.enable_whitelist = true;
    assert_eq!(judge("4.4.4.4", &manager, &config).unwrap().reason, KickReason::NotInWhitelist);
}

#[test]
fn notices() {
    assert_eq!(ASA_MAX_LEN, 43);
    assert_eq!(BAN_REASON_MAX_LEN, 21);
    assert_eq!(
        asay_message_for_kick(" Bob ", KickReason::NotInWhitelist, None),
        "Bob not in whitelist."
    );
    assert_eq!(
        asay_message_for_kick("Bob", KickReason::Ban, Some("1.2.3.4:>cheater")),
        "Bob is banned. Reason: cheater"
    );
    assert_eq!(
        asay_message_for_kick("Bob", KickReason::ForcedBan, Some("1.2.3.4")),
        "Bob is banned. Reason: (none)"
    );
    assert_eq!(
        asay_message_for_kick("Bob", KickReason::Ban, None),
        "Bob is banned. Reason: (none)"
    );
    assert_eq!(
        asay_message_for_kick("Al", KickReason::Ban, Some("1.2.3.4:>0123456789012345678901234")),
        "Al is banned. Reason: 012345678901234567890"
    );
    assert_eq!(
        asay_message_for_kick("Bob", KickReason::Ban, Some("1.2.3.4:>0123456789012345678901234")),
        "Bob is banned. Reason: 01234567890123456789"
    );
    let long = asay_message_for_kick(
        "A very long player name indeed",
        KickReason::Ban,
        Some("1.2.3.4:>0123456789012345678901234"),
    );
    assert_eq!(long, "A very long player name indeed is banned. R");
    assert_eq!(long.chars().count(), 43);
    let long = asay_message_for_kick(
        "A player whose name alone is longer than the budget",
        KickReason::NotInWhitelist,
        None,
    );
    assert_eq!(long, "A player whose name alone is longer than th");
}
