use spectre_core::config::{default_fullscreen_dialogs, get_machine_id, Config};
use spectre_core::ipc::{
    app_log_line, browse_hd2_exe, check_save, check_save_of, check_start, check_start_all,
    ensure_server_utility_has_defaults, fixed_answer, generate_token, is_allowed_hd2ds_exe_path,
    is_allowed_sabre_exe_path, is_path_safe, log_is_stale, log_tail, max_clients_of, parse_action,
    path_file_name, path_safe_given, players_answer, push_log, rotate_log, server_paths_safe,
    start_all_answer, start_error, stop_all_request, stop_request, tidy_paths, token_accepted,
    trim_path_quotes, IpcAction, Refusal,
    DEFAULT_MAX_CLIENTS, MAX_LOG_BYTES, MAX_LOG_LINES, MAX_PATH_LEN, TOKEN_LEN,
};
use spectre_core::roster::PlayerSlot;
use spectre_core::server::{Server, ServerConfig, ServerLauncherData};
use spectre_core::supervisor::{Liveness, Supervisor, STILL_ACTIVE};
use spectre_core::web::{card_url, embed_server_utility, embedded_card_html, AppState, CardSources};

#[test]
fn tokens_are_thirty_two_letters_and_digits() {
    assert_eq!(TOKEN_LEN, 32);
    let a = generate_token();
    let b = generate_token();
    for token in [&a, &b] {
        assert_eq!(token.chars().count(), 32);
        assert!(token.chars().all(|c| c.is_ascii_alphanumeric()));
    }
    assert_ne!(a, b);
}

#[test]
fn only_the_bridges_token_passes() {
    assert!(token_accepted("abc", "abc"));
    assert!(!token_accepted("abd", "abc"));
    assert!(!token_accepted("", "abc"));
    assert!(!token_accepted("", ""));
    assert!(!token_accepted("abc ", "abc"));
}

#[test]
fn safe_paths() {
    assert_eq!(MAX_PATH_LEN, 2048);
    assert!(is_path_safe("C:\\Games\\HD2\\HD2DS.exe"));
    assert!(is_path_safe("a/b/../c"));
    assert!(is_path_safe("./a"));
    assert!(is_path_safe("a//b"));
    assert!(!is_path_safe(""));
    assert!(!is_path_safe("a\0b"));
    assert!(!is_path_safe("../a"));
    assert!(!is_path_safe("a/../../b"));
    assert!(!is_path_safe("a\\..\\..\\b"));
    assert!(!is_path_safe("FILE:///etc/passwd"));
    assert!(!is_path_safe("http://x"));
    assert!(!is_path_safe("Https://x"));
    assert!(!is_path_safe("ftp:x"));
    assert!(is_path_safe("ftpx"));
    assert!(is_path_safe(&"a".repeat(2048)));
    assert!(!is_path_safe(&"a".repeat(2049)));
    assert!(is_path_safe(&"é".repeat(1024)));
    assert!(!is_path_safe(&"é".repeat(1025)));
    assert!(!path_safe_given("plain", "http:"));
    assert!(path_safe_given("http:", "plain"));
}

#[test]
fn quotes_around_paths() {
    assert_eq!(trim_path_quotes("  \" C:/a b \"  "), "C:/a b");
    assert_eq!(trim_path_quotes("\"x"), "\"x");
    assert_eq!(trim_path_quotes("\""), "\"");
    assert_eq!(trim_path_quotes("\"\""), "");
    assert_eq!(trim_path_quotes(" plain "), "plain");
    assert_eq!(trim_path_quotes(""), "");
}

#[test]
fn file_names_and_allowed_executables() {
    assert_eq!(path_file_name("C:\\Games\\HD2DS.exe"), "HD2DS.exe");
    assert_eq!(path_file_name(" \"C:/Games/HD2DS.exe\" "), "HD2DS.exe");
    assert_eq!(path_file_name("dir/"), "");
    assert_eq!(path_file_name("plain"), "plain");
    assert_eq!(path_file_name("  "), "");
    assert_eq!(path_file_name("\"\""), "");
    assert!(is_allowed_hd2ds_exe_path(""));
    assert!(is_allowed_hd2ds_exe_path("   "));
    assert!(is_allowed_hd2ds_exe_path("C:\\x\\hd2ds.EXE"));
    assert!(!is_allowed_hd2ds_exe_path("C:\\x\\cmd.exe"));
    assert!(!is_allowed_hd2ds_exe_path("C:\\x\\HD2DS_SabreSquadron.exe"));
    assert!(is_allowed_sabre_exe_path("C:/x/HD2DS_SabreSquadron.exe"));
    assert!(is_allowed_sabre_exe_path(""));
    assert!(!is_allowed_sabre_exe_path("C:/x/HD2DS.exe"));
}

#[test]
fn the_request_log_keeps_the_last_lines() {
    assert_eq!(MAX_LOG_LINES, 500);
    let mut log: Vec<String> = Vec::new();
    for i in 0..500 {
        push_log(&mut log, &format!("line {}", i));
    }
    assert_eq!(log.len(), 500);
    assert_eq!(log[0], "line 0");
    push_log(&mut log, "line 500");
    assert_eq!(log.len(), 500);
    assert_eq!(log[0], "line 1");
    assert_eq!(log[499], "line 500");
    let mut long: Vec<String> = (0..600).map(|i| i.to_string()).collect();
    push_log(&mut long, "x");
    assert_eq!(long.len(), 500);
    assert_eq!(long[0], "101");
    assert_eq!(long[499], "x");
}

#[test]
fn log_files_are_cut_back() {
    let content: Vec<u8> = (0..5000u32).map(|i| (i % 251) as u8).collect();
    assert_eq!(rotate_log(&content, 5000), content);
    assert_eq!(rotate_log(&content, 9000), content);
    let cut = rotate_log(&content, 3000);
    let mut expected = b"--- log rotated ---\n".to_vec();
    expected.extend_from_slice(&content[5000 - 1976..]);
    assert_eq!(cut, expected);
    assert_eq!(rotate_log(&content, 100), b"--- log rotated ---\n".to_vec());
    assert_eq!(rotate_log(&[], 0), Vec::<u8>::new());
    assert_eq!(rotate_log(b"abc", 0), b"--- log rotated ---\n".to_vec());
}

#[test]
fn log_lines_and_staleness() {
    assert_eq!(app_log_line("2024-01-02 03:04:05", "hello"), "[2024-01-02 03:04:05] hello\n");
    assert!(!log_is_stale(0, u64::MAX));
    assert!(log_is_stale(1, 86400));
    assert!(!log_is_stale(1, 86399));
    assert!(log_is_stale(u32::MAX, u32::MAX as u64 * 86400));
    assert!(!log_is_stale(u32::MAX, u32::MAX as u64 * 86400 - 1));
}

#[test]
fn a_configuration_without_servers_gets_one() {
    let mut data = ServerLauncherData::default();
    ensure_server_utility_has_defaults(&mut data);
    assert_eq!(data.servers.len(), 1);
    let server = &data.servers[0];
    assert_eq!(server.name, "Server 1");
    assert_eq!(server.port, 22000);
    assert_eq!(server.current_config, "Default");
    assert_eq!(server.configs.len(), 1);
    assert_eq!(server.configs[0].name, "Default");
    assert_eq!(server.configs[0].session_name, "A Spectre Session");
    assert_eq!(server.configs[0].style, "Occupation");
    data.servers[0].name = "Mine".to_string();
    ensure_server_utility_has_defaults(&mut data);
    assert_eq!(data.servers.len(), 1);
    assert_eq!(data.servers[0].name, "Mine");
}

#[test]
fn settings_are_tied_to_the_machine() {
    assert!(!default_fullscreen_dialogs());
    let fresh = Config::default();
    assert!(!fresh.fullscreen_dialogs);
    assert_eq!(fresh.machine_id, None);
    assert!(!fresh.directplay_detected);
    assert!(!fresh.server_utility_wizard_completed);
    assert_eq!(fresh.server_hd2ds_path, "");

    let (config, save) = Config::load(None, "m1");
    assert!(save);
    assert_eq!(config.machine_id, None);

    let mut stored = Config::default();
    stored.machine_id = Some("m1".to_string());
    stored.directplay_detected = true;
    stored.server_hd2ds_path = "C:/x".to_string();
    let (config, save) = Config::load(Some(stored.clone()), "m1");
    assert!(!save);
    assert!(config.directplay_detected);
    assert_eq!(config.server_hd2ds_path, "C:/x");

    let (config, save) = Config::load(Some(stored.clone()), "m2");
    assert!(save);
    assert!(!config.directplay_detected);
    assert_eq!(config.server_hd2ds_path, "");
    assert_eq!(config.machine_id, Some("m2".to_string()));

    stored.machine_id = None;
    let (config, save) = Config::load(Some(stored), "m1");
    assert!(save);
    assert_eq!(config.machine_id, Some("m1".to_string()));
}

#[test]
fn machine_id_falls_back() {
    assert_eq!(get_machine_id(Some("guid"), Some("pc")), "guid");
    assert_eq!(get_machine_id(Some(""), Some("pc")), "pc");
    assert_eq!(get_machine_id(None, Some("pc")), "pc");
    assert_eq!(get_machine_id(None, None), "unknown");
    assert_eq!(get_machine_id(Some(""), None), "unknown");
}

fn sources() -> CardSources {
    CardSources {
        html: "<head><link rel=\"stylesheet\" href=\"css/style.css\"></head><body><script src=\"js/app.js\"></script></body>".to_string(),
        css: "b{}".to_string(),
        js: "run();".to_string(),
    }
}

#[test]
fn the_page_is_put_into_one_text() {
    assert_eq!(
        embed_server_utility(&sources(), None, false),
        "<head><style>b{}</style></head><body><script>run();</script></body>"
    );
    assert_eq!(
        embed_server_utility(&sources(), None, true),
        "<head><style>b{}</style></head><body><script>window.__spectreDebugMode=true;</script><script>run();</script></body>"
    );
    assert_eq!(
        embed_server_utility(&sources(), Some("{\"a\":\"x\\y\"}\r\n</script>"), false),
        "<head><style>b{}</style></head><body><script>window.__spectreInitialState=JSON.parse(\"{\\\"a\\\":\\\"x\\\\y\\\"}\\r\\n<\\/script>\");</script><script>run();</script></body>"
    );
}

#[test]
fn every_link_and_reference_is_replaced() {
    let twice = CardSources {
        html: "<script src=\"js/app.js\"></script>|<script src=\"js/app.js\"></script>".to_string(),
        css: String::new(),
        js: "j".to_string(),
    };
    assert_eq!(embed_server_utility(&twice, None, false), "<script>j</script>|<script>j</script>");
    let none = CardSources { html: "plain".to_string(), css: "c".to_string(), js: "j".to_string() };
    assert_eq!(embed_server_utility(&none, Some("{}"), true), "plain");
}

#[test]
fn the_server_utility_is_the_only_card() {
    assert_eq!(
        embedded_card_html(&sources(), "server_utility", None, false),
        Ok("<head><style>b{}</style></head><body><script>run();</script></body>".to_string())
    );
    assert_eq!(
        embedded_card_html(&sources(), "other", None, false),
        Err("Unknown card: 'other'. Cards are built into the binary at compile time.".to_string())
    );
    assert_eq!(card_url("server_utility"), Ok("embedded".to_string()));
    assert_eq!(
        card_url(""),
        Err("Unknown card: ''. Cards are built into the binary at compile time.".to_string())
    );
    assert_eq!(AppState::new(), AppState {});
}

fn server_with(hd2ds: &str, sabre: &str, maps: &str, use_sabre: bool) -> Server {
    let mut server = Server::default();
    server.hd2ds_path = hd2ds.to_string();
    server.hd2ds_sabresquadron_path = sabre.to_string();
    server.mpmaplist_path = maps.to_string();
    server.use_sabre_squadron = use_sabre;
    server
}

#[test]
fn actions_by_name() {
    assert_eq!(parse_action("save"), IpcAction::Save);
    assert_eq!(parse_action("start"), IpcAction::Start);
    assert_eq!(parse_action("stop"), IpcAction::Stop);
    assert_eq!(parse_action("stop_all"), IpcAction::StopAll);
    assert_eq!(parse_action("start_all"), IpcAction::StartAll);
    assert_eq!(parse_action("get_running"), IpcAction::GetRunning);
    assert_eq!(parse_action("get_players"), IpcAction::GetPlayers);
    assert_eq!(parse_action("get_log_content"), IpcAction::GetLogContent);
    assert_eq!(parse_action("repaint"), IpcAction::Repaint);
    assert_eq!(parse_action("refresh_mpmaplist"), IpcAction::RefreshMpmaplist);
    assert_eq!(parse_action("browse_mpmaplist"), IpcAction::Browse);
    assert_eq!(parse_action("browse_hd2_dir"), IpcAction::Browse);
    assert_eq!(parse_action("open_log_file"), IpcAction::OpenLogFile);
    assert_eq!(parse_action("Save"), IpcAction::Unknown);
    assert_eq!(parse_action(""), IpcAction::Unknown);
}

#[test]
fn servers_are_checked_before_they_are_saved_or_started() {
    let good = server_with("C:/hd2/HD2DS.exe", "C:/hd2/HD2DS_SabreSquadron.exe", "C:/hd2/maps", false);
    assert!(server_paths_safe(&good));
    assert_eq!(check_save_of(&good), None);
    assert_eq!(check_start(&good), None);
    let empty = server_with("C:/hd2/HD2DS.exe", "", "C:/hd2/maps", false);
    assert!(!server_paths_safe(&empty));
    assert_eq!(check_save_of(&empty), Some(Refusal::UnsafePath));
    assert_eq!(check_start(&empty), Some(Refusal::UnsafePath));
    let climbing = server_with("../HD2DS.exe", "C:/hd2/HD2DS_SabreSquadron.exe", "m", false);
    assert_eq!(check_save_of(&climbing), Some(Refusal::UnsafePath));
    let wrong = server_with("C:/hd2/HD2DS.exe", "C:/hd2/cmd.exe", "m", false);
    assert_eq!(check_save_of(&wrong), Some(Refusal::WrongExecutable));
    assert_eq!(check_start(&wrong), None);
    let wrong_selected = server_with("C:/hd2/HD2DS.exe", "C:/hd2/cmd.exe", "m", true);
    assert_eq!(check_start(&wrong_selected), Some(Refusal::WrongExecutable));
    assert_eq!(check_save(&vec![]), None);
    assert_eq!(check_save(&vec![good.clone(), wrong.clone(), empty.clone()]), Some(Refusal::WrongExecutable));
    assert_eq!(check_save(&vec![good.clone(), empty.clone(), wrong.clone()]), Some(Refusal::UnsafePath));
    assert_eq!(check_start_all(&vec![good.clone(), wrong.clone()]), None);
    assert_eq!(check_start_all(&vec![good.clone(), wrong_selected]), Some(Refusal::WrongExecutable));
    assert_eq!(Refusal::UnsafePath.message(), "Invalid path (unsafe characters or traversal)");
    assert_eq!(
        Refusal::WrongExecutable.message(),
        "Executable path must be HD2DS.exe or HD2DS_SabreSquadron.exe"
    );
    let mut quoted = server_with(" \"C:/hd2/HD2DS.exe\" ", "\" x \"", "  m  ", false);
    quoted.name = "kept".to_string();
    tidy_paths(&mut quoted);
    assert_eq!(quoted.hd2ds_path, "C:/hd2/HD2DS.exe");
    assert_eq!(quoted.hd2ds_sabresquadron_path, "x");
    assert_eq!(quoted.mpmaplist_path, "m");
    assert_eq!(quoted.name, "kept");
}

#[test]
fn the_end_of_the_log_is_shown() {
    assert_eq!(MAX_LOG_BYTES, 32768);
    assert_eq!(log_tail(b"one\r\ntwo\0\r\n"), "one\ntwo\n");
    assert_eq!(log_tail(b""), "");
    assert_eq!(log_tail(&[b'a', 0xFF, b'b']), "a\u{FFFD}b");
    let mut long = vec![b'x'; 40000];
    long[40000 - 32768] = b'y';
    long[40000 - 32769] = b'z';
    let shown = log_tail(&long);
    assert_eq!(shown.len(), 32768);
    assert!(shown.starts_with("yx"));
    assert!(!shown.contains('z'));
}

#[test]
fn a_chosen_executable_is_told_with_its_kind() {
    assert_eq!(browse_hd2_exe("sabre", Some("C:/x.exe")), "HD2DS_SABRE_PATH:C:/x.exe");
    assert_eq!(browse_hd2_exe("hd2ds", Some("C:/x.exe")), "HD2DS_PATH:C:/x.exe");
    assert_eq!(browse_hd2_exe("", Some("")), "HD2DS_PATH:");
    assert_eq!(browse_hd2_exe("sabre", None), "HD2DS_PATH_CANCELLED");
}

#[test]
fn a_stop_is_answered() {
    let mut a = Server::default();
    a.port = 1;
    let mut b = Server::default();
    b.port = 2;
    let servers = vec![a, b];
    let mut books = Supervisor::new();
    books.insert(1, 10);
    books.insert(2, 20);
    assert_eq!(stop_request(&mut books, &servers, 5), (None, "Invalid server index"));
    assert_eq!(books.len(), 2);
    assert_eq!(stop_request(&mut books, &servers, 1), (Some(20), "Stopped OK"));
    assert_eq!(stop_request(&mut books, &servers, 1), (None, "Server not running"));
    assert_eq!(books.snapshot(), vec![(1, 10)]);
    assert_eq!(books.sweep(&Vec::new()), vec![1]);
    assert_eq!(stop_request(&mut books, &servers, 0), (None, "Server not running"));
    assert!(books.awaiting_start().is_empty());
    assert_eq!(stop_request(&mut books, &Vec::new(), 0), (None, "Invalid server index"));
}

#[test]
fn players_are_counted_against_what_the_profile_admits() {
    assert_eq!(DEFAULT_MAX_CLIENTS, 32);
    let mut server = Server::default();
    assert_eq!(max_clients_of(&server), 32);
    let mut profile = ServerConfig::default();
    profile.name = "P".to_string();
    profile.max_clients = 12;
    server.configs.push(profile);
    assert_eq!(max_clients_of(&server), 32);
    server.current_config = "P".to_string();
    assert_eq!(max_clients_of(&server), 12);
    let roster = vec![
        PlayerSlot::new("Ann", "1.1.1.1"),
        PlayerSlot::new("", "0.0.0.0"),
        PlayerSlot::new("Bob", "2.2.2.2"),
    ];
    assert_eq!(players_answer(Some(&roster), &server), "PLAYERS:2,12");
    assert_eq!(players_answer(Some(&Vec::new()), &Server::default()), "PLAYERS:0,32");
    assert_eq!(players_answer(None, &server), "PLAYERS:--,--");
}

#[test]
fn a_stop_of_all_strikes_each_servers_port() {
    let mut a = Server::default();
    a.port = 1;
    let mut b = Server::default();
    b.port = 2;
    let mut c = Server::default();
    c.port = 3;
    let mut books = Supervisor::new();
    books.insert(3, 30);
    books.insert(1, 10);
    books.insert(4, 40);
    books.insert(5, 50);
    let gone = vec![
        Liveness { port: 1, exit_code: Some(STILL_ACTIVE) },
        Liveness { port: 3, exit_code: Some(STILL_ACTIVE) },
        Liveness { port: 4, exit_code: Some(STILL_ACTIVE) },
    ];
    assert_eq!(books.sweep(&gone), vec![5]);
    c.port = 5;
    let mut d = Server::default();
    d.port = 3;
    assert_eq!(stop_all_request(&mut books, &vec![a, b, c, d.clone(), d]), vec![10, 30]);
    assert_eq!(books.snapshot(), vec![(4, 40)]);
    assert!(books.awaiting_start().is_empty());
    assert_eq!(stop_all_request(&mut books, &Vec::new()), Vec::<u32>::new());
}

#[test]
fn starts_and_requests_without_work_are_answered() {
    assert_eq!(start_all_answer(&Vec::new()), "All servers started");
    let mut server = Server::default();
    server.name = "Alpha".to_string();
    let errors = vec![start_error(&server, "DS exe not found: x"), "B: y".to_string()];
    assert_eq!(errors[0], "Alpha: DS exe not found: x");
    assert_eq!(start_all_answer(&errors), "Alpha: DS exe not found: x; B: y");
    assert_eq!(fixed_answer(IpcAction::Repaint), Some("REPAINT"));
    assert_eq!(fixed_answer(IpcAction::Browse), Some("BROWSE_NOT_AVAILABLE"));
    assert_eq!(fixed_answer(IpcAction::Save), None);
    assert_eq!(fixed_answer(IpcAction::Unknown), None);
}
