use spectre_core::launch::{
    commands_basename, get_current_config, get_ds_exe_path, plan_launch, sanitize_for_filename,
    script_file_content, LaunchError,
};
use spectre_core::script::{build_ds_script, compose_script, lives_value, tier_of, voice_token};
use spectre_core::server::{Server, ServerConfig};

#[test]
fn script_build_smoke() {
    let mut server = Server::default();
    server.port = 22000;
    let mut config = ServerConfig::default();
    config.session_name = "Test".to_string();
    config.style = "Occupation".to_string();
    config.maps = vec!["Burma1".to_string()];
    let script = build_ds_script(&server, &config);
    assert!(!script.is_empty());
    assert!(script.iter().any(|s| s.contains("sessionname")));
    assert!(!script.iter().any(|s| s.starts_with("port ")));
    config.domain = "internet".to_string();
    let script_inet = build_ds_script(&server, &config);
    assert!(script_inet.iter().any(|s| s.contains("port 22000")));
}

#[test]
fn script_lists_every_directive_in_order() {
    let mut server = Server::default();
    server.port = 22000;
    let mut config = ServerConfig::default();
    config.session_name = "Test".to_string();
    config.style = "Occupation".to_string();
    config.domain = "Internet".to_string();
    config.maps = vec!["Burma1".to_string(), "Africa1".to_string()];
    config.admin_pass = "secret".to_string();
    config.difficulty = "Very Hard".to_string();
    config.respawn_number = 0;
    config.voice_chat = 4;
    let script = build_ds_script(&server, &config);
    let expected = vec![
        "sessionname \"Test\"",
        "style occupation",
        "mapname Burma1",
        "mapname Africa1",
        "domain internet",
        "dedicated 1",
        "port 22000",
        "password \"\"",
        "adminpass \"secret\"",
        "maxclients 64",
        "pointlimit 0",
        "roundlimit 25",
        "roundcount 1",
        "warmup 10",
        "respawntime 20",
        "allowrespawn 1",
        "friendlyfire 1",
        "autoteambalance 0",
        "3rdpersonview 0",
        "spawnprotection 0",
        "inversedamage 0",
        "fallingdmg 1",
        "maxfreq 0",
        "maxping 0",
        "maxinactivity 0",
        "allowvehicles 1",
        "autorestart 0",
        "coopdifficulty 4",
        "cooplives -1",
        "allowcrosshair 1",
        "spawnonstart 0",
        "teamlives 0",
        "voicechat truespeech",
        "server",
    ];
    assert_eq!(script, expected);
}

#[test]
fn script_is_the_same_when_built_twice() {
    let server = Server::default();
    let mut config = ServerConfig::default();
    config.maps = vec!["Brest".to_string()];
    config.domain = "LAN".to_string();
    assert_eq!(build_ds_script(&server, &config), build_ds_script(&server, &config));
}

#[test]
fn local_domain_in_any_case_omits_the_port() {
    let server = Server::default();
    let mut config = ServerConfig::default();
    for domain in ["local", "Local", "LOCAL"] {
        config.domain = domain.to_string();
        let script = build_ds_script(&server, &config);
        assert!(!script.iter().any(|s| s.starts_with("port ")));
        assert!(script.contains(&"domain local".to_string()));
    }
    config.domain = "internet".to_string();
    let script = build_ds_script(&server, &config);
    assert_eq!(script.iter().filter(|s| s.starts_with("port ")).count(), 1);
}

#[test]
fn internet_domain_sets_the_port() {
    let mut server = Server::default();
    server.port = 22000;
    let mut config = ServerConfig::default();
    config.domain = "internet".to_string();
    let script = build_ds_script(&server, &config);
    assert!(script.contains(&"port 22000".to_string()));
}

#[test]
fn compose_script_takes_the_lowered_settings_as_given() {
    let config = ServerConfig::default();
    let script = compose_script(7, &config, "STYLE", "elsewhere", "easy");
    assert_eq!(script[1], "style STYLE");
    assert_eq!(script[2], "domain elsewhere");
    assert_eq!(script[4], "port 7");
    assert!(script.contains(&"coopdifficulty 1".to_string()));
}

#[test]
fn respawn_zero_means_unlimited() {
    assert_eq!(lives_value(0), "-1");
    assert_eq!(lives_value(1), "1");
    assert_eq!(lives_value(25), "25");
    assert_eq!(lives_value(-7), "-7");
    assert_eq!(lives_value(i32::MAX), "2147483647");
    assert_eq!(lives_value(i32::MIN), "-2147483648");
}

#[test]
fn voice_codecs_by_number() {
    assert_eq!(voice_token(0), None);
    assert_eq!(voice_token(1), Some("vr12"));
    assert_eq!(voice_token(2), Some("sc03"));
    assert_eq!(voice_token(3), Some("sc06"));
    assert_eq!(voice_token(4), Some("truespeech"));
    assert_eq!(voice_token(5), Some("gsm"));
    assert_eq!(voice_token(6), Some("adpcm"));
    assert_eq!(voice_token(7), Some("pcm"));
    assert_eq!(voice_token(8), Some("none"));
    assert_eq!(voice_token(255), Some("none"));
}

#[test]
fn voice_zero_leaves_the_directive_out() {
    let server = Server::default();
    let mut config = ServerConfig::default();
    config.voice_chat = 0;
    let script = build_ds_script(&server, &config);
    assert!(!script.iter().any(|s| s.starts_with("voicechat")));
    assert_eq!(script.last().unwrap(), "server");
    config.voice_chat = 6;
    let script = build_ds_script(&server, &config);
    assert_eq!(script[script.len() - 2], "voicechat adpcm");
    assert_eq!(script.last().unwrap(), "server");
}

#[test]
fn difficulty_tiers() {
    assert_eq!(tier_of("easy"), "1");
    assert_eq!(tier_of("normal"), "2");
    assert_eq!(tier_of("hard"), "3");
    assert_eq!(tier_of("very hard"), "4");
    assert_eq!(tier_of("nightmare"), "3");
    assert_eq!(tier_of(""), "3");
}

#[test]
fn unknown_difficulty_falls_back_to_hard() {
    let server = Server::default();
    let mut config = ServerConfig::default();
    config.difficulty = "Impossible".to_string();
    let script = build_ds_script(&server, &config);
    assert!(script.contains(&"coopdifficulty 3".to_string()));
    config.difficulty = "EASY".to_string();
    let script = build_ds_script(&server, &config);
    assert!(script.contains(&"coopdifficulty 1".to_string()));
}

#[test]
fn empty_admin_password_is_left_out() {
    let server = Server::default();
    let mut config = ServerConfig::default();
    let script = build_ds_script(&server, &config);
    assert!(!script.iter().any(|s| s.starts_with("adminpass")));
    config.admin_pass = "x".to_string();
    let script = build_ds_script(&server, &config);
    assert!(script.contains(&"adminpass \"x\"".to_string()));
}

#[test]
fn executable_path_follows_the_selector() {
    let mut server = Server::default();
    server.hd2ds_path = "C:/games/HD2DS.exe".to_string();
    assert_eq!(get_ds_exe_path(&server).unwrap(), "C:/games/HD2DS.exe");
    server.use_sabre_squadron = true;
    match get_ds_exe_path(&server) {
        Err(LaunchError::Configuration { sabre_squadron }) => assert!(sabre_squadron),
        other => panic!("unexpected {:?}", other),
    }
    server.hd2ds_sabresquadron_path = "C:/games/HD2DS_SabreSquadron.exe".to_string();
    assert_eq!(get_ds_exe_path(&server).unwrap(), "C:/games/HD2DS_SabreSquadron.exe");
}

#[test]
fn launch_errors_in_words() {
    assert_eq!(
        LaunchError::Configuration { sabre_squadron: false }.message(),
        "HD2DS path is not set for this server"
    );
    assert_eq!(
        LaunchError::Configuration { sabre_squadron: true }.message(),
        "HD2DS Sabre Squadron path is not set for this server"
    );
    assert_eq!(
        LaunchError::NotFound { path: "a/b.exe".to_string() }.message(),
        "DS exe not found: a/b.exe"
    );
    assert_eq!(
        LaunchError::ProfileNotFound { profile: "P".to_string(), server: "S".to_string() }
            .message(),
        "Config 'P' not found for server 'S'"
    );
}

#[test]
fn file_names_are_sanitized() {
    assert_eq!(sanitize_for_filename("  My Server  "), "My_Server");
    assert_eq!(sanitize_for_filename("a/b\\c:d*e?f\"g<h>i|j"), "a_b_c_d_e_f_g_h_i_j");
    assert_eq!(sanitize_for_filename("__x__"), "x");
    assert_eq!(sanitize_for_filename("tab\there"), "tab_here");
    assert_eq!(sanitize_for_filename(" ?? "), "");
    assert_eq!(sanitize_for_filename(""), "");
    assert_eq!(sanitize_for_filename("Zoë"), "Zoë");
}

#[test]
fn script_file_is_named_after_the_server_or_its_port() {
    let mut server = Server::default();
    server.port = 22001;
    server.name = "Server 1".to_string();
    assert_eq!(commands_basename(&server), "spectre_ds_Server_1.txt");
    server.name = " :: ".to_string();
    assert_eq!(commands_basename(&server), "spectre_ds_22001.txt");
    server.name = String::new();
    assert_eq!(commands_basename(&server), "spectre_ds_22001.txt");
}

#[test]
fn script_file_has_crlf_lines_and_a_blank_line_at_the_end() {
    let script = vec!["a".to_string(), "b".to_string()];
    assert_eq!(script_file_content(&script), "a\r\nb\r\n\r\n");
    assert_eq!(script_file_content(&Vec::new()), "\r\n\r\n");
    assert_eq!(script_file_content(&vec!["only".to_string()]), "only\r\n\r\n");
}

#[test]
fn current_config_is_the_first_with_the_name() {
    let mut server = Server::default();
    server.name = "S".to_string();
    server.current_config = "B".to_string();
    let mut a = ServerConfig::default();
    a.name = "A".to_string();
    let mut b = ServerConfig::default();
    b.name = "B".to_string();
    b.max_clients = 8;
    let mut b2 = ServerConfig::default();
    b2.name = "B".to_string();
    b2.max_clients = 9;
    server.configs = vec![a, b, b2];
    assert_eq!(get_current_config(&server).unwrap().max_clients, 8);
    server.current_config = "C".to_string();
    match get_current_config(&server) {
        Err(LaunchError::ProfileNotFound { profile, server }) => {
            assert_eq!(profile, "C");
            assert_eq!(server, "S");
        }
        other => panic!("unexpected {:?}", other.map(|c| c.name.clone())),
    }
}

#[test]
fn launch_plan_or_the_first_error() {
    let mut server = Server::default();
    server.name = "Alpha".to_string();
    server.port = 22000;
    server.current_config = "Default".to_string();
    match plan_launch(&server, true) {
        Err(LaunchError::Configuration { sabre_squadron }) => assert!(!sabre_squadron),
        other => panic!("unexpected {:?}", other),
    }
    server.hd2ds_path = "C:/hd2/HD2DS.exe".to_string();
    match plan_launch(&server, false) {
        Err(LaunchError::NotFound { path }) => assert_eq!(path, "C:/hd2/HD2DS.exe"),
        other => panic!("unexpected {:?}", other),
    }
    match plan_launch(&server, true) {
        Err(LaunchError::ProfileNotFound { profile, server }) => {
            assert_eq!(profile, "Default");
            assert_eq!(server, "Alpha");
        }
        other => panic!("unexpected {:?}", other),
    }
    let mut config = ServerConfig::default();
    config.name = "Default".to_string();
    config.domain = "internet".to_string();
    server.configs.push(config);
    let plan = plan_launch(&server, true).unwrap();
    assert_eq!(plan.executable, "C:/hd2/HD2DS.exe");
    assert_eq!(plan.script_name, "spectre_ds_Alpha.txt");
    assert_eq!(plan.arguments, vec!["-cmd", "-exec", "spectre_ds_Alpha.txt"]);
    assert!(plan.script_content.starts_with("sessionname \"HD2 Server\"\r\nstyle cooperative\r\n"));
    assert!(plan.script_content.contains("\r\nport 22000\r\n"));
    assert!(plan.script_content.ends_with("\r\nserver\r\n\r\n"));
}
