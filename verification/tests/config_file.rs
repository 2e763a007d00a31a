use spectre_core::config_file::is_true;
use spectre_core::server::{Server, ServerConfig, ServerLauncherData, ServerManager, User};

const SAMPLE: &str = "// comment\r\n\
<ServerManager>\r\n\
   ServerIP             = 192.168.0.2\r\n\
   ServerPort           = 2400\r\n\
   EnableWatchDog       = false\r\n\
   WatchdogInterval     = 30\r\n\
   EnableMessaging      = TRUE\r\n\
   MessagingInterval    = many\r\n\
   EnableReboot         = true\r\n\
   RebootInterval       = 12\r\n\
   EnableForcedMessages = true\r\n\
   ForcedMessages       = hello , world\r\n\
   EnableForcedBanList  = false\r\n\
   ForcedBanList        = \"1.2.3.4:>bad, 5.6.7.8\"\r\n\
</ServerManager>\r\n\
<Users>\r\n\
   user = \"root\",\"pw\",1\r\n\
   user = \"odd\",\"x\",high\r\n\
   user = \"short\",\"x\"\r\n\
   nothing = \"a\",\"b\",1\r\n\
</Users>\r\n\
<Servers>\r\n\
   <Server>\r\n\
      name          = \"Alpha\"\r\n\
      running       = true\r\n\
      watchdog      = true\r\n\
      messages      = false\r\n\
      users         = \"root, odd\"\r\n\
      port          = 22010\r\n\
      usesabresquadron = true\r\n\
      currentconfig = \"Coop\"\r\n\
      <config>\r\n\
         name            = \"Coop\"\r\n\
         domain          = Internet\r\n\
         style           = Cooperative\r\n\
         sessionname     = \"My Session\"\r\n\
         maxclients      = 8\r\n\
         pointlimit      = 300\r\n\
         roundlimit      = x\r\n\
         respawntime     = 70000\r\n\
         friendlyfire    = false\r\n\
         3rdpersonview   = true\r\n\
         dificulty       = Very Hard\r\n\
         respawnnumber   = -3\r\n\
         password        = \"pw\"\r\n\
         adminpass       = \"admin\"\r\n\
         maxping         = 250\r\n\
         voicechat       = 3\r\n\
         maps            = \"Burma1, Africa1\"\r\n\
         messages        = hi there, bye\r\n\
         banlist         = 9.9.9.9:>x\r\n\
         enableautokick  = true\r\n\
         clantag         = \"[X]\"\r\n\
         clanside        = allies\r\n\
         clanreserve    = 2\r\n\
      </config>\r\n\
      <config>\r\n\
         name = \"Empty\"\r\n\
         maps = \"\"\r\n\
      </config>\r\n\
   </Server>\r\n\
   <Server>\r\n\
      name = \"Beta\"\r\n\
      port = none\r\n\
   </Server>\r\n\
</Servers>\r\n";

#[test]
fn defaults() {
    let manager = ServerManager::default();
    assert_eq!(manager.server_ip, "10.0.0.1");
    assert_eq!(manager.server_port, 2332);
    assert!(manager.enable_watchdog);
    assert_eq!(manager.watchdog_interval, 15);
    assert!(manager.enable_messaging);
    assert_eq!(manager.messaging_interval, 180);
    assert!(!manager.enable_reboot);
    assert_eq!(manager.reboot_interval, 48);
    assert_eq!(manager.restart_interval_days, 0);
    assert!(!manager.enable_forced_messages);
    assert!(manager.enable_forced_ban_list);
    assert!(manager.forced_ban_list.is_empty());
    let config = ServerConfig::default();
    assert_eq!(config.name, "");
    assert_eq!(config.domain, "Local");
    assert_eq!(config.style, "Cooperative");
    assert_eq!(config.session_name, "HD2 Server");
    assert_eq!(config.max_clients, 64);
    assert_eq!(config.round_limit, 25);
    assert_eq!(config.round_count, 1);
    assert_eq!(config.respawn_time, 20);
    assert_eq!(config.warmup, 10);
    assert!(config.friendly_fire);
    assert!(!config.auto_team_balance);
    assert!(config.allow_crosshair);
    assert_eq!(config.difficulty, "Hard");
    assert_eq!(config.respawn_number, 1);
    assert_eq!(config.voice_chat, 0);
    assert!(!config.enable_whitelist);
    assert!(config.whitelist.is_empty());
    assert_eq!(config.clan_side, "axis");
    let server = Server::default();
    assert_eq!(server.port, 22000);
    assert!(!server.use_sabre_squadron);
    assert!(server.configs.is_empty());
    let data = ServerLauncherData::default();
    assert_eq!(data.users.len(), 1);
    assert_eq!(data.users[0].username, "Admin");
    assert_eq!(data.users[0].password, "");
    assert_eq!(data.users[0].privilege_level, 2);
    assert!(data.servers.is_empty());
}

#[test]
fn values_of_lines() {
    assert_eq!(ServerLauncherData::parse_string_value("key = value here "), "value here");
    assert_eq!(ServerLauncherData::parse_string_value("key = a = b"), "a");
    assert_eq!(ServerLauncherData::parse_string_value("key"), "");
    assert_eq!(ServerLauncherData::parse_string_value("key ="), "");
    assert_eq!(ServerLauncherData::parse_quoted_string_value("key = \"quoted\" "), "quoted");
    assert_eq!(ServerLauncherData::parse_quoted_string_value("key = \"\"a\"\""), "a");
    assert_eq!(ServerLauncherData::parse_quoted_string_value("key = plain"), "plain");
    assert_eq!(ServerLauncherData::parse_quoted_string_value("key"), "");
    assert!(ServerLauncherData::parse_bool_value("k = true"));
    assert!(ServerLauncherData::parse_bool_value("k = TRUE"));
    assert!(!ServerLauncherData::parse_bool_value("k = yes"));
    assert!(!ServerLauncherData::parse_bool_value("k"));
    assert_eq!(ServerLauncherData::parse_u8_value("k = 255"), Some(255));
    assert_eq!(ServerLauncherData::parse_u8_value("k = 256"), None);
    assert_eq!(ServerLauncherData::parse_u16_value("k = 65535"), Some(65535));
    assert_eq!(ServerLauncherData::parse_u16_value("k = -1"), None);
    assert_eq!(ServerLauncherData::parse_u32_value("k = 4294967295"), Some(u32::MAX));
    assert_eq!(ServerLauncherData::parse_u32_value("k = "), None);
    assert_eq!(ServerLauncherData::parse_i32_value("k = -2147483648"), Some(i32::MIN));
    assert_eq!(ServerLauncherData::parse_i32_value("k = 2147483648"), None);
    assert_eq!(ServerLauncherData::default().bool_to_str(true), "true");
    assert_eq!(ServerLauncherData::default().bool_to_str(false), "false");
    assert!(is_true("true"));
    assert!(!is_true("True"));
}

#[test]
fn a_file_is_read() {
    let data = ServerLauncherData::parse_config(SAMPLE).unwrap();
    let m = &data.server_manager;
    assert_eq!(m.server_ip, "192.168.0.2");
    assert_eq!(m.server_port, 2400);
    assert!(!m.enable_watchdog);
    assert_eq!(m.watchdog_interval, 30);
    assert!(m.enable_messaging);
    assert_eq!(m.messaging_interval, 180);
    assert!(m.enable_reboot);
    assert_eq!(m.reboot_interval, 12);
    assert!(m.enable_forced_messages);
    assert_eq!(m.forced_messages, vec!["hello", "world"]);
    assert!(!m.enable_forced_ban_list);
    assert_eq!(m.forced_ban_list, vec!["1.2.3.4:>bad", "5.6.7.8"]);

    let users: Vec<(&str, &str, u8)> =
        data.users.iter().map(|u| (u.username.as_str(), u.password.as_str(), u.privilege_level)).collect();
    assert_eq!(users, vec![("Admin", "", 2), ("root", "pw", 1), ("odd", "x", 2)]);

    assert_eq!(data.servers.len(), 2);
    let alpha = &data.servers[0];
    assert_eq!(alpha.name, "Alpha");
    assert!(alpha.running);
    assert!(alpha.watchdog);
    assert!(!alpha.messages);
    assert_eq!(alpha.users, vec!["root", "odd"]);
    assert_eq!(alpha.port, 22010);
    assert!(alpha.use_sabre_squadron);
    assert_eq!(alpha.current_config, "Coop");
    assert_eq!(alpha.configs.len(), 2);
    let coop = &alpha.configs[0];
    assert_eq!(coop.name, "Coop");
    assert_eq!(coop.domain, "Internet");
    assert_eq!(coop.style, "Cooperative");
    assert_eq!(coop.session_name, "My Session");
    assert_eq!(coop.max_clients, 8);
    assert_eq!(coop.point_limit, 0);
    assert_eq!(coop.round_limit, 0);
    assert_eq!(coop.round_count, 1);
    assert_eq!(coop.respawn_time, 20);
    assert!(!coop.friendly_fire);
    assert!(coop.third_person_view);
    assert_eq!(coop.difficulty, "Very Hard");
    assert_eq!(coop.respawn_number, -3);
    assert_eq!(coop.password, "pw");
    assert_eq!(coop.admin_pass, "admin");
    assert_eq!(coop.max_ping, 250);
    assert_eq!(coop.voice_chat, 3);
    assert_eq!(coop.maps, vec!["Burma1", "Africa1"]);
    assert_eq!(coop.messages, vec!["hi there", "bye"]);
    assert_eq!(coop.ban_list, vec!["9.9.9.9:>x"]);
    assert!(coop.enable_auto_kick);
    assert_eq!(coop.clan_tag, "[X]");
    assert_eq!(coop.clan_side, "allies");
    assert_eq!(coop.clan_reserve, 2);
    let empty = &alpha.configs[1];
    assert_eq!(empty.name, "Empty");
    assert_eq!(empty.maps, vec![""]);
    assert_eq!(empty.domain, "Local");
    let beta = &data.servers[1];
    assert_eq!(beta.name, "Beta");
    assert_eq!(beta.port, 22000);
    assert!(beta.configs.is_empty());
}

#[test]
fn sections_may_run_to_the_end_of_the_file() {
    let data = ServerLauncherData::parse_config("<Servers>\n<Server>\nname = \"A\"\n<config>\nname = \"C\"").unwrap();
    assert_eq!(data.servers.len(), 1);
    assert_eq!(data.servers[0].name, "A");
    assert_eq!(data.servers[0].configs.len(), 1);
    assert_eq!(data.servers[0].configs[0].name, "C");
    let data = ServerLauncherData::parse_config("<ServerManager>\nServerPort = 1").unwrap();
    assert_eq!(data.server_manager.server_port, 1);
    let data = ServerLauncherData::parse_config("").unwrap();
    assert_eq!(data.users.len(), 1);
    assert!(data.servers.is_empty());
    let data = ServerLauncherData::parse_config("ServerPort = 1\n<Users>\n</Users>\n<Server>\n").unwrap();
    assert_eq!(data.server_manager.server_port, 2332);
    assert!(data.servers.is_empty());
}

#[test]
fn section_readers_give_the_line_of_the_end_tag() {
    let lines: Vec<Vec<char>> = ["x", "ServerPort = 7", "</ServerManager>", "ServerPort = 8"]
        .iter()
        .map(|l| l.chars().collect())
        .collect();
    let mut manager = ServerManager::default();
    assert_eq!(ServerLauncherData::parse_server_manager(&lines, 1, &mut manager), 2);
    assert_eq!(manager.server_port, 7);
    assert_eq!(ServerLauncherData::parse_server_manager(&lines, 3, &mut manager), 4);
    assert_eq!(manager.server_port, 8);
    assert_eq!(ServerLauncherData::parse_server_manager(&lines, 9, &mut manager), 4);
    let mut users: Vec<User> = Vec::new();
    assert_eq!(ServerLauncherData::parse_users(&lines, 0, &mut users), 4);
    assert!(users.is_empty());
    let mut config = ServerConfig::default();
    assert_eq!(ServerLauncherData::parse_config_section(&lines, 0, &mut config), 4);
    let mut server = Server::default();
    assert_eq!(ServerLauncherData::parse_server(&lines, 0, &mut server), 4);
    let mut servers: Vec<Server> = Vec::new();
    assert_eq!(ServerLauncherData::parse_servers(&lines, 0, &mut servers), 4);
}

#[test]
fn a_fresh_configuration_is_written() {
    let text = ServerLauncherData::default().to_config_string();
    let expected = "// HD2DS Server configuration file\n\
// Generated and managed by Spectre\n\
// Please edit this file using Spectre's Server Utility module\n\
// Manual editing may cause formatting issues\n\
// Value changes are allowed, but use Spectre for best results\n\n\
// Part of service configuration\n\n\
<ServerManager>\n\n   ServerIP             = 10.0.0.1\n   ServerPort           = 2332\n   EnableWatchDog       = true\n   WatchdogInterval     = 15\n\n   EnableMessaging      = true\n   MessagingInterval    = 180\n\n   EnableReboot         = false\n   RebootInterval       = 48\n\n   EnableForcedMessages = false\n   ForcedMessages       = \n\n   EnableForcedBanList  = true\n   ForcedBanList        = \"\"\n\n</ServerManager>\n\n\
// Part of users configuration\n\n<Users>\n\n   user = \"Admin\",\"\",2\n\n</Users>\n\n\
// Dedicated servers configurations\n\n<Servers>\n\n</Servers>\n\n";
    assert_eq!(text, expected);
}

#[test]
fn a_server_is_written() {
    let mut data = ServerLauncherData::default();
    data.users.clear();
    let mut config = ServerConfig::default();
    config.name = "Coop".to_string();
    config.maps = vec!["Burma1".to_string(), "Africa1".to_string()];
    config.respawn_number = -1;
    config.ban_list = vec!["1.2.3.4:>x".to_string()];
    let mut server = Server::default();
    server.name = "Alpha".to_string();
    server.users = vec!["Admin".to_string(), "root".to_string()];
    server.current_config = "Coop".to_string();
    server.configs.push(config);
    data.servers.push(server);
    let text = data.to_config_string();
    let from = text.find("<Servers>").unwrap();
    let expected = "<Servers>\n\n   <Server>\n\n      name          = \"Alpha\"\n      running       = false\n      watchdog      = false\n      messages      = false\n\n      users         = \"Admin,root\"\n\n      port          = 22000\n\n      usesabresquadron = false\n\n      currentconfig = \"Coop\"\n\n      <config>\n\n         name            = \"Coop\"\n\n         domain          = Local\n         style           = Cooperative\n         sessionname     = \"HD2 Server\"\n         maxclients      = 64\n         pointlimit      = 0\n         roundlimit      = 25\n         roundcount      = 1\n         respawntime     = 20\n         spawnprotection = 0\n         warmup          = 10\n         inversedamage   = 0\n         friendlyfire    = true\n         autoteambalance = false\n         3rdpersonview   = false\n         allowcrosshair  = true\n         fallingdmg      = true\n         allowrespawn    = true\n         allowvehicles   = true\n         dificulty       = Hard\n         respawnnumber   = -1\n         teamrespawn     = false\n\n         password        = \"\"\n         adminpass       = \"\"\n\n         maxping         = 0\n         maxfreq         = 0\n         maxinactivity   = 0\n         voicechat       = 0\n\n         maps            = \"Burma1,Africa1\"\n\n         messages        = \n         banlist         = 1.2.3.4:>x\n\n         enableautokick  = false\n         clantag         = \"\"\n         clanside        = axis\n         clanreserve    = 0\n\n      </config>\n\n   </Server>\n\n</Servers>\n\n";
    assert_eq!(&text[from..], expected);
    assert!(text.contains("<Users>\n\n</Users>\n\n"));
}

#[test]
fn what_is_written_can_be_read_back() {
    let data = ServerLauncherData::parse_config(SAMPLE).unwrap();
    let again = ServerLauncherData::parse_config(&data.to_config_string()).unwrap();
    assert_eq!(again.to_config_string(), {
        let mut with_admin_twice = data;
        with_admin_twice.users.insert(
            0,
            User { username: "Admin".to_string(), password: String::new(), privilege_level: 2 },
        );
        with_admin_twice.to_config_string()
    });
}
