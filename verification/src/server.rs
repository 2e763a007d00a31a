//! The fleet's configuration: servers, their profiles, the accounts, and the settings
//! shared by all.

use vstd::prelude::*;
use vstd::string::StringExecFns;
use crate::text::texts;

verus! {

/// The views of a list of values.
pub open spec fn views<T: View>(v: Seq<T>) -> Seq<T::V> {
    Seq::new(v.len(), |i: int| v[i]@)
}

/// Settings that hold for the whole fleet.
#[derive(Debug, Clone)]
pub struct ServerManager {
    pub server_ip: String,
    pub server_port: u16,
    /// Where the standard server executable lies.
    pub hd2ds_path: String,
    /// Where the expansion's server executable lies.
    pub hd2ds_sabresquadron_path: String,
    pub mpmaplist_path: String,
    pub enable_watchdog: bool,
    pub watchdog_interval: u32,
    pub enable_messaging: bool,
    pub messaging_interval: u32,
    pub enable_reboot: bool,
    pub reboot_interval: u32,
    /// Days between two restarts of the whole fleet; zero for none.
    pub restart_interval_days: u32,
    pub enable_forced_messages: bool,
    pub forced_messages: Vec<String>,
    /// A switch that the configuration file carries. It does not decide whether the
    /// forced ban list is in force: that list is, as soon as it holds an entry.
    pub enable_forced_ban_list: bool,
    /// Ban entries that hold on every server.
    pub forced_ban_list: Vec<String>,
}

/// What a [`ServerManager`] holds, as plain values.
pub struct ServerManagerView {
    pub server_ip: Seq<char>,
    pub server_port: u16,
    pub hd2ds_path: Seq<char>,
    pub hd2ds_sabresquadron_path: Seq<char>,
    pub mpmaplist_path: Seq<char>,
    pub enable_watchdog: bool,
    pub watchdog_interval: u32,
    pub enable_messaging: bool,
    pub messaging_interval: u32,
    pub enable_reboot: bool,
    pub reboot_interval: u32,
    pub restart_interval_days: u32,
    pub enable_forced_messages: bool,
    pub forced_messages: Seq<Seq<char>>,
    pub enable_forced_ban_list: bool,
    pub forced_ban_list: Seq<Seq<char>>,
}

impl View for ServerManager {
    type V = ServerManagerView;

    open spec fn view(&self) -> ServerManagerView {
        ServerManagerView {
            server_ip: self.server_ip@,
            server_port: self.server_port,
            hd2ds_path: self.hd2ds_path@,
            hd2ds_sabresquadron_path: self.hd2ds_sabresquadron_path@,
            mpmaplist_path: self.mpmaplist_path@,
            enable_watchdog: self.enable_watchdog,
            watchdog_interval: self.watchdog_interval,
            enable_messaging: self.enable_messaging,
            messaging_interval: self.messaging_interval,
            enable_reboot: self.enable_reboot,
            reboot_interval: self.reboot_interval,
            restart_interval_days: self.restart_interval_days,
            enable_forced_messages: self.enable_forced_messages,
            forced_messages: texts(self.forced_messages@),
            enable_forced_ban_list: self.enable_forced_ban_list,
            forced_ban_list: texts(self.forced_ban_list@),
        }
    }
}

impl ServerManager {
    /// The settings of a fresh [`ServerManager`].
    pub open spec fn initial() -> ServerManagerView {
        ServerManagerView {
            server_ip: "10.0.0.1"@,
            server_port: 2332,
            hd2ds_path: Seq::empty(),
            hd2ds_sabresquadron_path: Seq::empty(),
            mpmaplist_path: Seq::empty(),
            enable_watchdog: true,
            watchdog_interval: 15,
            enable_messaging: true,
            messaging_interval: 180,
            enable_reboot: false,
            reboot_interval: 48,
            restart_interval_days: 0,
            enable_forced_messages: false,
            forced_messages: Seq::empty(),
            enable_forced_ban_list: true,
            forced_ban_list: Seq::empty(),
        }
    }
}

impl Default for ServerManager {
    fn default() -> (r: Self)
        ensures
            r@ == ServerManager::initial(),
    {
        let r = ServerManager {
            server_ip: String::from_str("10.0.0.1"),
            server_port: 2332,
            hd2ds_path: String::new(),
            hd2ds_sabresquadron_path: String::new(),
            mpmaplist_path: String::new(),
            enable_watchdog: true,
            watchdog_interval: 15,
            enable_messaging: true,
            messaging_interval: 180,
            enable_reboot: false,
            reboot_interval: 48,
            restart_interval_days: 0,
            enable_forced_messages: false,
            forced_messages: Vec::new(),
            enable_forced_ban_list: true,
            forced_ban_list: Vec::new(),
        };
        assert(texts(r.forced_messages@) =~= Seq::<Seq<char>>::empty());
        assert(texts(r.forced_ban_list@) =~= Seq::<Seq<char>>::empty());
        r
    }
}

/// An account that may administer the servers.
#[derive(Debug, Clone)]
pub struct User {
    pub username: String,
    pub password: String,
    pub privilege_level: u8,
}

/// What a [`User`] holds, as plain values.
pub struct UserView {
    pub username: Seq<char>,
    pub password: Seq<char>,
    pub privilege_level: u8,
}

impl View for User {
    type V = UserView;

    open spec fn view(&self) -> UserView {
        UserView {
            username: self.username@,
            password: self.password@,
            privilege_level: self.privilege_level,
        }
    }
}

/// One profile of a server: what a session is started with.
#[derive(Debug, Clone)]
pub struct ServerConfig {
    pub name: String,
    pub domain: String,
    pub style: String,
    pub session_name: String,
    pub max_clients: u8,
    pub point_limit: u8,
    pub round_limit: u8,
    pub round_count: u8,
    pub respawn_time: u16,
    pub spawn_protection: u8,
    pub warmup: u8,
    pub inverse_damage: u8,
    pub friendly_fire: bool,
    pub auto_team_balance: bool,
    pub third_person_view: bool,
    pub allow_crosshair: bool,
    pub falling_dmg: bool,
    pub allow_respawn: bool,
    pub allow_vehicles: bool,
    pub difficulty: String,
    /// Lives in cooperative play; zero for no limit.
    pub respawn_number: i32,
    pub team_respawn: bool,
    pub password: String,
    pub admin_pass: String,
    pub max_ping: u16,
    pub max_freq: u16,
    pub max_inactivity: u16,
    /// The voice codec, by number; zero for none.
    pub voice_chat: u8,
    pub maps: Vec<String>,
    pub messages: Vec<String>,
    /// Ban entries of this profile: an address, or an address, `:>` and a comment.
    pub ban_list: Vec<String>,
    pub enable_whitelist: bool,
    /// The addresses that may stay connected while `enable_whitelist` is set.
    pub whitelist: Vec<String>,
    pub enable_auto_kick: bool,
    pub clan_tag: String,
    pub clan_side: String,
    pub clan_reserve: u8,
}

/// What a [`ServerConfig`] holds, as plain values.
pub struct ServerConfigView {
    pub name: Seq<char>,
    pub domain: Seq<char>,
    pub style: Seq<char>,
    pub session_name: Seq<char>,
    pub max_clients: u8,
    pub point_limit: u8,
    pub round_limit: u8,
    pub round_count: u8,
    pub respawn_time: u16,
    pub spawn_protection: u8,
    pub warmup: u8,
    pub inverse_damage: u8,
    pub friendly_fire: bool,
    pub auto_team_balance: bool,
    pub third_person_view: bool,
    pub allow_crosshair: bool,
    pub falling_dmg: bool,
    pub allow_respawn: bool,
    pub allow_vehicles: bool,
    pub difficulty: Seq<char>,
    pub respawn_number: i32,
    pub team_respawn: bool,
    pub password: Seq<char>,
    pub admin_pass: Seq<char>,
    pub max_ping: u16,
    pub max_freq: u16,
    pub max_inactivity: u16,
    pub voice_chat: u8,
    pub maps: Seq<Seq<char>>,
    pub messages: Seq<Seq<char>>,
    pub ban_list: Seq<Seq<char>>,
    pub enable_whitelist: bool,
    pub whitelist: Seq<Seq<char>>,
    pub enable_auto_kick: bool,
    pub clan_tag: Seq<char>,
    pub clan_side: Seq<char>,
    pub clan_reserve: u8,
}

impl View for ServerConfig {
    type V = ServerConfigView;

    open spec fn view(&self) -> ServerConfigView {
        ServerConfigView {
            name: self.name@,
            domain: self.domain@,
            style: self.style@,
            session_name: self.session_name@,
            max_clients: self.max_clients,
            point_limit: self.point_limit,
            round_limit: self.round_limit,
            round_count: self.round_count,
            respawn_time: self.respawn_time,
            spawn_protection: self.spawn_protection,
            warmup: self.warmup,
            inverse_damage: self.inverse_damage,
            friendly_fire: self.friendly_fire,
            auto_team_balance: self.auto_team_balance,
            third_person_view: self.third_person_view,
            allow_crosshair: self.allow_crosshair,
            falling_dmg: self.falling_dmg,
            allow_respawn: self.allow_respawn,
            allow_vehicles: self.allow_vehicles,
            difficulty: self.difficulty@,
            respawn_number: self.respawn_number,
            team_respawn: self.team_respawn,
            password: self.password@,
            admin_pass: self.admin_pass@,
            max_ping: self.max_ping,
            max_freq: self.max_freq,
            max_inactivity: self.max_inactivity,
            voice_chat: self.voice_chat,
            maps: texts(self.maps@),
            messages: texts(self.messages@),
            ban_list: texts(self.ban_list@),
            enable_whitelist: self.enable_whitelist,
            whitelist: texts(self.whitelist@),
            enable_auto_kick: self.enable_auto_kick,
            clan_tag: self.clan_tag@,
            clan_side: self.clan_side@,
            clan_reserve: self.clan_reserve,
        }
    }
}

impl ServerConfig {
    /// The settings of a fresh [`ServerConfig`].
    pub open spec fn initial() -> ServerConfigView {
        ServerConfigView {
            name: Seq::empty(),
            domain: "Local"@,
            style: "Cooperative"@,
            session_name: "HD2 Server"@,
            max_clients: 64,
            point_limit: 0,
            round_limit: 25,
            round_count: 1,
            respawn_time: 20,
            spawn_protection: 0,
            warmup: 10,
            inverse_damage: 0,
            friendly_fire: true,
            auto_team_balance: false,
            third_person_view: false,
            allow_crosshair: true,
            falling_dmg: true,
            allow_respawn: true,
            allow_vehicles: true,
            difficulty: "Hard"@,
            respawn_number: 1,
            team_respawn: false,
            password: Seq::empty(),
            admin_pass: Seq::empty(),
            max_ping: 0,
            max_freq: 0,
            max_inactivity: 0,
            voice_chat: 0,
            maps: Seq::empty(),
            messages: Seq::empty(),
            ban_list: Seq::empty(),
            enable_whitelist: false,
            whitelist: Seq::empty(),
            enable_auto_kick: false,
            clan_tag: Seq::empty(),
            clan_side: "axis"@,
            clan_reserve: 0,
        }
    }
}

impl Default for ServerConfig {
    fn default() -> (r: Self)
        ensures
            r@ == ServerConfig::initial(),
    {
        let r = ServerConfig {
            name: String::new(),
            domain: String::from_str("Local"),
            style: String::from_str("Cooperative"),
            session_name: String::from_str("HD2 Server"),
            max_clients: 64,
            point_limit: 0,
            round_limit: 25,
            round_count: 1,
            respawn_time: 20,
            spawn_protection: 0,
            warmup: 10,
            inverse_damage: 0,
            friendly_fire: true,
            auto_team_balance: false,
            third_person_view: false,
            allow_crosshair: true,
            falling_dmg: true,
            allow_respawn: true,
            allow_vehicles: true,
            difficulty: String::from_str("Hard"),
            respawn_number: 1,
            team_respawn: false,
            password: String::new(),
            admin_pass: String::new(),
            max_ping: 0,
            max_freq: 0,
            max_inactivity: 0,
            voice_chat: 0,
            maps: Vec::new(),
            messages: Vec::new(),
            ban_list: Vec::new(),
            enable_whitelist: false,
            whitelist: Vec::new(),
            enable_auto_kick: false,
            clan_tag: String::new(),
            clan_side: String::from_str("axis"),
            clan_reserve: 0,
        };
        assert(texts(r.maps@) =~= Seq::<Seq<char>>::empty());
        assert(texts(r.messages@) =~= Seq::<Seq<char>>::empty());
        assert(texts(r.ban_list@) =~= Seq::<Seq<char>>::empty());
        assert(texts(r.whitelist@) =~= Seq::<Seq<char>>::empty());
        r
    }
}

/// One server of the fleet: its identity and its profiles.
#[derive(Debug, Clone)]
pub struct Server {
    pub name: String,
    pub running: bool,
    pub watchdog: bool,
    pub messages: bool,
    pub users: Vec<String>,
    /// The network port, which also tells the servers of a fleet apart.
    pub port: u16,
    /// Whether the expansion's executable is the one to start.
    pub use_sabre_squadron: bool,
    /// Where the standard server executable lies.
    pub hd2ds_path: String,
    /// Where the expansion's server executable lies.
    pub hd2ds_sabresquadron_path: String,
    pub mpmaplist_path: String,
    /// The name of the profile in use.
    pub current_config: String,
    pub configs: Vec<ServerConfig>,
}

/// What a [`Server`] holds, as plain values.
pub struct ServerView {
    pub name: Seq<char>,
    pub running: bool,
    pub watchdog: bool,
    pub messages: bool,
    pub users: Seq<Seq<char>>,
    pub port: u16,
    pub use_sabre_squadron: bool,
    pub hd2ds_path: Seq<char>,
    pub hd2ds_sabresquadron_path: Seq<char>,
    pub mpmaplist_path: Seq<char>,
    pub current_config: Seq<char>,
    pub configs: Seq<ServerConfigView>,
}

impl View for Server {
    type V = ServerView;

    open spec fn view(&self) -> ServerView {
        ServerView {
            name: self.name@,
            running: self.running,
            watchdog: self.watchdog,
            messages: self.messages,
            users: texts(self.users@),
            port: self.port,
            use_sabre_squadron: self.use_sabre_squadron,
            hd2ds_path: self.hd2ds_path@,
            hd2ds_sabresquadron_path: self.hd2ds_sabresquadron_path@,
            mpmaplist_path: self.mpmaplist_path@,
            current_config: self.current_config@,
            configs: views(self.configs@),
        }
    }
}

impl Server {
    /// The settings of a fresh [`Server`].
    pub open spec fn initial() -> ServerView {
        ServerView {
            name: Seq::empty(),
            running: false,
            watchdog: false,
            messages: false,
            users: Seq::empty(),
            port: 22000,
            use_sabre_squadron: false,
            hd2ds_path: Seq::empty(),
            hd2ds_sabresquadron_path: Seq::empty(),
            mpmaplist_path: Seq::empty(),
            current_config: Seq::empty(),
            configs: Seq::empty(),
        }
    }
}

impl Default for Server {
    fn default() -> (r: Self)
        ensures
            r@ == Server::initial(),
    {
        let r = Server {
            name: String::new(),
            running: false,
            watchdog: false,
            messages: false,
            users: Vec::new(),
            port: 22000,
            use_sabre_squadron: false,
            hd2ds_path: String::new(),
            hd2ds_sabresquadron_path: String::new(),
            mpmaplist_path: String::new(),
            current_config: String::new(),
            configs: Vec::new(),
        };
        assert(texts(r.users@) =~= Seq::<Seq<char>>::empty());
        assert(views(r.configs@) =~= Seq::<ServerConfigView>::empty());
        r
    }
}

/// Everything that is configured: the shared settings, the accounts and the servers.
#[derive(Debug, Clone)]
pub struct ServerLauncherData {
    pub server_manager: ServerManager,
    pub users: Vec<User>,
    pub servers: Vec<Server>,
}

/// What a [`ServerLauncherData`] holds, as plain values.
pub struct ServerLauncherDataView {
    pub server_manager: ServerManagerView,
    pub users: Seq<UserView>,
    pub servers: Seq<ServerView>,
}

impl View for ServerLauncherData {
    type V = ServerLauncherDataView;

    open spec fn view(&self) -> ServerLauncherDataView {
        ServerLauncherDataView {
            server_manager: self.server_manager@,
            users: views(self.users@),
            servers: views(self.servers@),
        }
    }
}

impl ServerLauncherData {
    /// A fresh configuration: default settings, one administrator without a password,
    /// no server.
    pub open spec fn initial() -> ServerLauncherDataView {
        ServerLauncherDataView {
            server_manager: ServerManager::initial(),
            users: seq![
                UserView { username: "Admin"@, password: Seq::empty(), privilege_level: 2 },
            ],
            servers: Seq::empty(),
        }
    }
}

impl Default for ServerLauncherData {
    fn default() -> (r: Self)
        ensures
            r@ == ServerLauncherData::initial(),
    {
        let mut users: Vec<User> = Vec::new();
        users.push(
            User {
                username: String::from_str("Admin"),
                password: String::new(),
                privilege_level: 2,
            },
        );
        let r = ServerLauncherData {
            server_manager: ServerManager::default(),
            users,
            servers: Vec::new(),
        };
        assert(views(r.users@) =~= ServerLauncherData::initial().users);
        assert(views(r.servers@) =~= Seq::<ServerView>::empty());
        r
    }
}

} // verus!
