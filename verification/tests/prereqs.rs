use spectre_core::prereqs::{
    apply_gamepy_hosts, apply_registry_fix, directplay_enabled, enable_directplay,
    feature_info_enabled, feature_list_enabled, gamepy_hosts_applied, line_has_gamepy_host,
    registry_fix_applied, reported_enabled, run_check_directplay_and_write_result, state_enabled,
    REG_REQUIRED,
};

const HOSTS: [&str; 9] = [
    "key.gamespy.com",
    "master.gamespy.com",
    "master0.gamespy.com",
    "hd2.available.gamespy.com",
    "hd2.master.gamespy.com",
    "hd2.ms14.gamespy.com",
    "natneg1.gamespy.com",
    "natneg2.gamespy.com",
    "natneg3.gamespy.com",
];

fn block() -> String {
    let mut text = String::new();
    for host in HOSTS {
        text.push_str(&format!("78.47.255.224  {}\n", host));
    }
    text
}

#[test]
fn registry_fix_needs_all_four_values() {
    assert_eq!(REG_REQUIRED, 2);
    assert!(registry_fix_applied(Some(2), Some(2), Some(2), Some(2)));
    assert!(!registry_fix_applied(Some(2), Some(2), Some(2), None));
    assert!(!registry_fix_applied(Some(1), Some(2), Some(2), Some(2)));
    assert!(!registry_fix_applied(Some(2), Some(3), Some(2), Some(2)));
    assert!(!registry_fix_applied(None, None, None, None));
    assert_eq!(
        apply_registry_fix(),
        vec![
            ("HD2DS".to_string(), 2),
            ("HD2DS_SabreSquadron".to_string(), 2),
            ("HD2_SabreSquadron".to_string(), 2),
            ("hd2".to_string(), 2),
        ]
    );
}

#[test]
fn feature_report_is_read_by_its_first_state_line() {
    let report = "Feature Name : DirectPlay\r\nDisplay Name : DirectPlay\r\nState : Enabled\r\n";
    assert!(directplay_enabled(Some(report), None, None));
    let report = "Feature Name : DirectPlay\nState : Disabled\nState : Enabled\n";
    assert!(directplay_enabled(Some(report), None, None));
    let report = "Feature Name : DirectPlay\nState : Enabled, was Disabled\nState : Enabled\n";
    assert!(!directplay_enabled(Some(report), None, None));
    let report = "Feature Name : DirectPlay\nState : Disabled\n";
    assert!(!directplay_enabled(Some(report), None, None));
    let report = "Feature Name : Other\nState : Enabled\n";
    assert!(!directplay_enabled(Some(report), None, None));
    assert!(!directplay_enabled(Some("DirectPlay"), None, None));
    assert!(feature_info_enabled("directplay", &vec!["state : enabled".to_string()]));
    assert!(!feature_info_enabled("directplay", &vec!["state : enabled disabled".to_string()]));
    assert!(!feature_info_enabled("other", &vec!["state : enabled".to_string()]));
}

#[test]
fn feature_list_is_read_inside_the_features_block() {
    let list = "Feature Name : Other\nState : Enabled\n\nFeature Name : DirectPlay\nState : Enabled\n";
    assert!(directplay_enabled(None, Some(list), None));
    let list = "Feature Name : DirectPlay\nState : Disabled\n\nFeature Name : Other\nState : Enabled\n";
    assert!(!directplay_enabled(None, Some(list), None));
    let list = "Feature Name : Other\nState : Enabled\n";
    assert!(!directplay_enabled(None, Some(list), None));
    let lines: Vec<String> =
        ["featurename : directplay", "restart : no", "state : enabled"].iter().map(|s| s.to_string()).collect();
    assert!(feature_list_enabled(&lines));
    assert!(!feature_list_enabled(&Vec::new()));
}

#[test]
fn feature_query_is_read_whole() {
    assert!(directplay_enabled(None, None, Some("Enabled\r\n")));
    assert!(!directplay_enabled(None, None, Some("Disabled")));
    assert!(!directplay_enabled(None, None, Some("State: Enabled")));
    assert!(!directplay_enabled(None, None, None));
    assert!(reported_enabled(" ENABLED "));
    assert!(!reported_enabled("disabled"));
    assert!(state_enabled("enabled"));
    assert!(!state_enabled("Enabled"));
}

#[test]
fn any_tool_suffices() {
    assert!(directplay_enabled(Some("nothing"), Some("nothing"), Some("enabled")));
    assert!(directplay_enabled(Some("DirectPlay\nState : Enabled"), Some("x"), Some("disabled")));
    assert_eq!(run_check_directplay_and_write_result(None, None, Some("Enabled")), "enabled");
    assert_eq!(run_check_directplay_and_write_result(None, None, None), "disabled");
}

#[test]
fn enabling_reports_the_tools_errors() {
    assert_eq!(enable_directplay(true, "ignored"), Ok(()));
    assert_eq!(
        enable_directplay(false, "  Error: 740\r\n"),
        Err("DISM failed: Error: 740".to_string())
    );
}

#[test]
fn lines_that_name_a_master_server() {
    assert!(line_has_gamepy_host("1.2.3.4 master.gamespy.com"));
    assert!(line_has_gamepy_host("  1.2.3.4\tMASTER.GameSpy.com  # note"));
    assert!(line_has_gamepy_host("natneg3.gamespy.com"));
    assert!(!line_has_gamepy_host("# 1.2.3.4 master.gamespy.com"));
    assert!(!line_has_gamepy_host("1.2.3.4 master.gamespy.com.evil"));
    assert!(!line_has_gamepy_host("1.2.3.4 xmaster.gamespy.com"));
    assert!(!line_has_gamepy_host("127.0.0.1 localhost"));
    assert!(!line_has_gamepy_host(""));
    assert!(!line_has_gamepy_host("   "));
}

#[test]
fn hosts_count_only_with_the_right_address() {
    assert!(gamepy_hosts_applied(&block()));
    assert!(gamepy_hosts_applied(&format!("127.0.0.1 localhost\r\n{}", block().replace('\n', "\r\n"))));
    assert!(!gamepy_hosts_applied(""));
    assert!(!gamepy_hosts_applied(&block().replace("78.47.255.224  key", "1.1.1.1  key")));
    assert!(!gamepy_hosts_applied(&block().replace("78.47.255.224  natneg2", "# 78.47.255.224  natneg2")));
    let one_line = format!("78.47.255.224 {}", HOSTS.join(" ").to_uppercase());
    assert!(gamepy_hosts_applied(&one_line));
    assert!(!gamepy_hosts_applied(&format!("x {}", one_line)));
}

#[test]
fn hosts_file_is_fixed() {
    let before = "127.0.0.1 localhost\r\n1.1.1.1 key.gamespy.com\n# keep me\n\n9.9.9.9 NATNEG1.gamespy.com other\n";
    let after = apply_gamepy_hosts(before);
    let expected = format!(
        "127.0.0.1 localhost\n# keep me\n\n# HD2 GameSpy (added by Spectre)\n{}",
        block()
    );
    assert_eq!(after, expected);
    assert!(gamepy_hosts_applied(&after));
    assert_eq!(
        apply_gamepy_hosts(&after),
        format!(
            "127.0.0.1 localhost\n# keep me\n\n# HD2 GameSpy (added by Spectre)\n\n# HD2 GameSpy (added by Spectre)\n{}",
            block()
        )
    );
    assert_eq!(
        apply_gamepy_hosts(""),
        format!("\n# HD2 GameSpy (added by Spectre)\n{}", block())
    );
    assert_eq!(
        apply_gamepy_hosts("a"),
        format!("a\n\n# HD2 GameSpy (added by Spectre)\n{}", block())
    );
}
