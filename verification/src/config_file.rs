//! The configuration as a text file: sections in angle brackets, and in them one setting
//! to a line, the key before an equals sign and the value after it.

use vstd::prelude::*;
use vstd::string::StringExecFns;
use crate::decimal::{
    decimal, parse_i32, parse_signed, parse_u16, parse_u32, parse_u8, parse_unsigned,
    push_decimal, push_signed, signed_decimal,
};
use crate::server::{
    views, Server, ServerConfig, ServerConfigView, ServerLauncherData, ServerLauncherDataView,
    ServerManager, ServerManagerView, ServerView, User, UserView,
};
use crate::text::{
    begins_with, contains, from_chars, includes, join, joined, lines, rows, split,
    split_at_each, split_lines, starts_with, text_is, texts, to_chars, trim, trim_matches,
    trimmed, trimmed_of,
};
use crate::trusted::{lowercase_of, to_lowercase};

verus! {

/// The value of a line: what stands between the first and the second equals sign,
/// trimmed; empty if the line has no equals sign.
#[verifier::opaque]
pub open spec fn string_value(line: Seq<char>) -> Seq<char> {
    let parts = split(line, '=');
    if parts.len() >= 2 {
        trim(parts[1])
    } else {
        Seq::empty()
    }
}

/// The value of a line without the double quotes around it.
#[verifier::opaque]
pub open spec fn quoted_value(line: Seq<char>) -> Seq<char> {
    let parts = split(line, '=');
    if parts.len() >= 2 {
        trim_matches(trim(parts[1]), '"')
    } else {
        Seq::empty()
    }
}

/// Whether the value of a line is `true`, in whatever case.
#[verifier::opaque]
pub open spec fn bool_value(line: Seq<char>) -> bool {
    lowercase_of(string_value(line)) == "true"@
}

/// The items of a list: the pieces between commas, each trimmed.
#[verifier::opaque]
pub open spec fn items(value: Seq<char>) -> Seq<Seq<char>> {
    Seq::new(split(value, ',').len(), |i: int| trim(split(value, ',')[i]))
}

fn string_of(line: &Vec<char>) -> (r: Vec<char>)
    ensures
        r@ == string_value(line@),
{
    reveal(string_value);
    let parts = split_at_each(line, '=');
    assert(rows(parts@).len() == parts@.len());
    if parts.len() >= 2 {
        assert(rows(parts@)[1] == parts@[1]@);
        trimmed(&parts[1])
    } else {
        Vec::new()
    }
}

fn quoted_of(line: &Vec<char>) -> (r: Vec<char>)
    ensures
        r@ == quoted_value(line@),
{
    reveal(quoted_value);
    let parts = split_at_each(line, '=');
    assert(rows(parts@).len() == parts@.len());
    if parts.len() >= 2 {
        assert(rows(parts@)[1] == parts@[1]@);
        trimmed_of(&trimmed(&parts[1]), '"')
    } else {
        Vec::new()
    }
}

/// Whether a text, put in lower case, is `true`.
pub fn is_true(lowered: &str) -> (r: bool)
    ensures
        r == (lowered@ == "true"@),
{
    text_is(lowered, "true")
}

fn bool_of(line: &Vec<char>) -> (r: bool)
    ensures
        r == bool_value(line@),
{
    reveal(bool_value);
    let value = from_chars(&string_of(line));
    is_true(to_lowercase(value.as_str()).as_str())
}

fn items_of(value: &Vec<char>) -> (r: Vec<String>)
    ensures
        texts(r@) == items(value@),
{
    reveal(items);
    let parts = split_at_each(value, ',');
    assert(rows(parts@).len() == parts@.len());
    let mut r: Vec<String> = Vec::new();
    let mut i: usize = 0;
    while i < parts.len()
        invariant
            i <= parts.len(),
            rows(parts@) == split(value@, ','),
            r@.len() == i,
            forall|j: int| 0 <= j < i ==> (#[trigger] r@[j])@ == items(value@)[j],
        decreases parts.len() - i,
    {
        proof {
            reveal(items);
            assert(rows(parts@)[i as int] == parts@[i as int]@);
        }
        r.push(from_chars(&trimmed(&parts[i])));
        i += 1;
    }
    assert(texts(r@) =~= items(value@));
    r
}

/// The value of a line as a number of 8 bits, if it is one.
#[verifier::opaque]
pub open spec fn u8_value(line: Seq<char>) -> Option<u8> {
    match parse_unsigned(string_value(line), 0xFF) {
        Some(v) => Some(v as u8),
        None => None,
    }
}

/// The value of a line as a number of 16 bits, if it is one.
#[verifier::opaque]
pub open spec fn u16_value(line: Seq<char>) -> Option<u16> {
    match parse_unsigned(string_value(line), 0xFFFF) {
        Some(v) => Some(v as u16),
        None => None,
    }
}

/// The value of a line as a number of 32 bits, if it is one.
#[verifier::opaque]
pub open spec fn u32_value(line: Seq<char>) -> Option<u32> {
    match parse_unsigned(string_value(line), 0xFFFF_FFFF) {
        Some(v) => Some(v as u32),
        None => None,
    }
}

/// The value of a line as a signed number of 32 bits, if it is one.
#[verifier::opaque]
pub open spec fn i32_value(line: Seq<char>) -> Option<i32> {
    match parse_signed(string_value(line), -0x8000_0000, 0x7FFF_FFFF) {
        Some(v) => Some(v as i32),
        None => None,
    }
}

fn u8_of(line: &Vec<char>) -> (r: Option<u8>)
    ensures
        r == u8_value(line@),
{
    reveal(u8_value);
    parse_u8(&string_of(line))
}

fn u16_of(line: &Vec<char>) -> (r: Option<u16>)
    ensures
        r == u16_value(line@),
{
    reveal(u16_value);
    parse_u16(&string_of(line))
}

fn u32_of(line: &Vec<char>) -> (r: Option<u32>)
    ensures
        r == u32_value(line@),
{
    reveal(u32_value);
    parse_u32(&string_of(line))
}

fn i32_of(line: &Vec<char>) -> (r: Option<i32>)
    ensures
        r == i32_value(line@),
{
    reveal(i32_value);
    parse_i32(&string_of(line))
}

fn begins(line: &Vec<char>, key: &str) -> (r: bool)
    ensures
        r == starts_with(line@, key@),
{
    begins_with(line, &to_chars(key))
}

fn holds(line: &Vec<char>, word: &str) -> (r: bool)
    ensures
        r == contains(line@, word@),
{
    includes(line, &to_chars(word))
}

/// The fleet's settings after one more line of their section. The first key that the line
/// begins with decides what the line sets; a line that begins with no key sets nothing.
#[verifier::opaque]
pub open spec fn manager_line(x: ServerManagerView, line: Seq<char>) -> ServerManagerView {
    if starts_with(line, "ServerIP"@) {
        ServerManagerView { server_ip: string_value(line), ..x }
    } else if starts_with(line, "ServerPort"@) {
        ServerManagerView {
            server_port: match u16_value(line) {
                Some(v) => v,
                None => 2332,
            },
            ..x
        }
    } else if starts_with(line, "EnableWatchDog"@) {
        ServerManagerView { enable_watchdog: bool_value(line), ..x }
    } else if starts_with(line, "WatchdogInterval"@) {
        ServerManagerView {
            watchdog_interval: match u32_value(line) {
                Some(v) => v,
                None => 15,
            },
            ..x
        }
    } else if starts_with(line, "EnableMessaging"@) {
        ServerManagerView { enable_messaging: bool_value(line), ..x }
    } else if starts_with(line, "MessagingInterval"@) {
        ServerManagerView {
            messaging_interval: match u32_value(line) {
                Some(v) => v,
                None => 180,
            },
            ..x
        }
    } else if starts_with(line, "EnableReboot"@) {
        ServerManagerView { enable_reboot: bool_value(line), ..x }
    } else if starts_with(line, "RebootInterval"@) {
        ServerManagerView {
            reboot_interval: match u32_value(line) {
                Some(v) => v,
                None => 48,
            },
            ..x
        }
    } else if starts_with(line, "EnableForcedMessages"@) {
        ServerManagerView { enable_forced_messages: bool_value(line), ..x }
    } else if starts_with(line, "ForcedMessages"@) && !contains(line, "Enable"@) {
        ServerManagerView {
            forced_messages: if string_value(line).len() > 0 {
                items(string_value(line))
            } else {
                x.forced_messages
            },
            ..x
        }
    } else if starts_with(line, "EnableForcedBanList"@) {
        ServerManagerView { enable_forced_ban_list: bool_value(line), ..x }
    } else if starts_with(line, "ForcedBanList"@) && !contains(line, "Enable"@) {
        ServerManagerView {
            forced_ban_list: if quoted_value(line).len() > 0 {
                items(quoted_value(line))
            } else {
                x.forced_ban_list
            },
            ..x
        }
    } else {
        x
    }
}

fn apply_manager_line(x: &mut ServerManager, line: &Vec<char>)
    ensures
        final(x)@ == manager_line(old(x)@, line@),
{
    reveal(manager_line);
    if begins(line, "ServerIP") {
        x.server_ip = from_chars(&string_of(line));
    } else if begins(line, "ServerPort") {
        x.server_port = match u16_of(line) {
            Some(v) => v,
            None => 2332,
        };
    } else if begins(line, "EnableWatchDog") {
        x.enable_watchdog = bool_of(line);
    } else if begins(line, "WatchdogInterval") {
        x.watchdog_interval = match u32_of(line) {
            Some(v) => v,
            None => 15,
        };
    } else if begins(line, "EnableMessaging") {
        x.enable_messaging = bool_of(line);
    } else if begins(line, "MessagingInterval") {
        x.messaging_interval = match u32_of(line) {
            Some(v) => v,
            None => 180,
        };
    } else if begins(line, "EnableReboot") {
        x.enable_reboot = bool_of(line);
    } else if begins(line, "RebootInterval") {
        x.reboot_interval = match u32_of(line) {
            Some(v) => v,
            None => 48,
        };
    } else if begins(line, "EnableForcedMessages") {
        x.enable_forced_messages = bool_of(line);
    } else if begins(line, "ForcedMessages") && !holds(line, "Enable") {
        let value = string_of(line);
        if value.len() > 0 {
            x.forced_messages = items_of(&value);
        }
    } else if begins(line, "EnableForcedBanList") {
        x.enable_forced_ban_list = bool_of(line);
    } else if begins(line, "ForcedBanList") && !holds(line, "Enable") {
        let value = quoted_of(line);
        if value.len() > 0 {
            x.forced_ban_list = items_of(&value);
        }
    } else {
        
    }
}

/// A server after one more line of its section, but for its profiles.
#[verifier::opaque]
pub open spec fn server_line(x: ServerView, line: Seq<char>) -> ServerView {
    if starts_with(line, "name"@) {
        ServerView { name: quoted_value(line), ..x }
    } else if starts_with(line, "running"@) {
        ServerView { running: bool_value(line), ..x }
    } else if starts_with(line, "watchdog"@) {
        ServerView { watchdog: bool_value(line), ..x }
    } else if starts_with(line, "messages"@) && !contains(line, "Interval"@) {
        ServerView { messages: bool_value(line), ..x }
    } else if starts_with(line, "users"@) {
        ServerView { users: items(quoted_value(line)), ..x }
    } else if starts_with(line, "port"@) {
        ServerView {
            port: match u16_value(line) {
                Some(v) => v,
                None => 22000,
            },
            ..x
        }
    } else if starts_with(line, "usesabresquadron"@) {
        ServerView { use_sabre_squadron: bool_value(line), ..x }
    } else if starts_with(line, "currentconfig"@) {
        ServerView { current_config: quoted_value(line), ..x }
    } else {
        x
    }
}

fn apply_server_line(x: &mut Server, line: &Vec<char>)
    ensures
        final(x)@ == server_line(old(x)@, line@),
{
    reveal(server_line);
    if begins(line, "name") {
        x.name = from_chars(&quoted_of(line));
    } else if begins(line, "running") {
        x.running = bool_of(line);
    } else if begins(line, "watchdog") {
        x.watchdog = bool_of(line);
    } else if begins(line, "messages") && !holds(line, "Interval") {
        x.messages = bool_of(line);
    } else if begins(line, "users") {
        x.users = items_of(&quoted_of(line));
    } else if begins(line, "port") {
        x.port = match u16_of(line) {
            Some(v) => v,
            None => 22000,
        };
    } else if begins(line, "usesabresquadron") {
        x.use_sabre_squadron = bool_of(line);
    } else if begins(line, "currentconfig") {
        x.current_config = from_chars(&quoted_of(line));
    } else {
        
    }
}

/// A profile after one more line of its section. The first key that the line begins with
/// decides; the keys are asked in the order of the file.
#[verifier::opaque]
pub open spec fn config_line(x: ServerConfigView, line: Seq<char>) -> ServerConfigView {
    if starts_with(line, "name"@) {
        ServerConfigView { name: quoted_value(line), ..x }
    } else if starts_with(line, "domain"@) {
        ServerConfigView { domain: string_value(line), ..x }
    } else if starts_with(line, "style"@) {
        ServerConfigView { style: string_value(line), ..x }
    } else if starts_with(line, "sessionname"@) {
        ServerConfigView { session_name: quoted_value(line), ..x }
    } else if starts_with(line, "maxclients"@) {
        ServerConfigView {
            max_clients: match u8_value(line) {
                Some(v) => v,
                None => 64,
            },
            ..x
        }
    } else if starts_with(line, "pointlimit"@) {
        ServerConfigView {
            point_limit: match u8_value(line) {
                Some(v) => v,
                None => 0,
            },
            ..x
        }
    } else {
        config_limits_line(x, line)
    }
}

/// A profile after a line that is not about the session.
#[verifier::opaque]
pub open spec fn config_limits_line(x: ServerConfigView, line: Seq<char>) -> ServerConfigView {
    if starts_with(line, "roundlimit"@) {
        ServerConfigView {
            round_limit: match u8_value(line) {
                Some(v) => v,
                None => 0,
            },
            ..x
        }
    } else if starts_with(line, "roundcount"@) {
        ServerConfigView {
            round_count: match u8_value(line) {
                Some(v) => v,
                None => 0,
            },
            ..x
        }
    } else if starts_with(line, "respawntime"@) {
        ServerConfigView {
            respawn_time: match u16_value(line) {
                Some(v) => v,
                None => 20,
            },
            ..x
        }
    } else if starts_with(line, "spawnprotection"@) {
        ServerConfigView {
            spawn_protection: match u8_value(line) {
                Some(v) => v,
                None => 0,
            },
            ..x
        }
    } else if starts_with(line, "warmup"@) {
        ServerConfigView {
            warmup: match u8_value(line) {
                Some(v) => v,
                None => 0,
            },
            ..x
        }
    } else if starts_with(line, "inversedamage"@) {
        ServerConfigView {
            inverse_damage: match u8_value(line) {
                Some(v) => v,
                None => 0,
            },
            ..x
        }
    } else {
        config_play_line(x, line)
    }
}

/// A profile after a line that is not about the session or its limits.
#[verifier::opaque]
pub open spec fn config_play_line(x: ServerConfigView, line: Seq<char>) -> ServerConfigView {
    if starts_with(line, "friendlyfire"@) {
        ServerConfigView { friendly_fire: bool_value(line), ..x }
    } else if starts_with(line, "autoteambalance"@) {
        ServerConfigView { auto_team_balance: bool_value(line), ..x }
    } else if starts_with(line, "3rdpersonview"@) {
        ServerConfigView { third_person_view: bool_value(line), ..x }
    } else if starts_with(line, "allowcrosshair"@) {
        ServerConfigView { allow_crosshair: bool_value(line), ..x }
    } else if starts_with(line, "fallingdmg"@) {
        ServerConfigView { falling_dmg: bool_value(line), ..x }
    } else if starts_with(line, "allowrespawn"@) {
        ServerConfigView { allow_respawn: bool_value(line), ..x }
    } else if starts_with(line, "allowvehicles"@) {
        ServerConfigView { allow_vehicles: bool_value(line), ..x }
    } else {
        config_rules_line(x, line)
    }
}

/// A profile after a line that is not about the session, its limits or the play.
#[verifier::opaque]
pub open spec fn config_rules_line(x: ServerConfigView, line: Seq<char>) -> ServerConfigView {
    if starts_with(line, "dificulty"@) {
        ServerConfigView { difficulty: string_value(line), ..x }
    } else if starts_with(line, "respawnnumber"@) {
        ServerConfigView {
            respawn_number: match i32_value(line) {
                Some(v) => v,
                None => 0,
            },
            ..x
        }
    } else if starts_with(line, "teamrespawn"@) {
        ServerConfigView { team_respawn: bool_value(line), ..x }
    } else if starts_with(line, "password"@) && !contains(line, "admin"@) {
        ServerConfigView { password: quoted_value(line), ..x }
    } else if starts_with(line, "adminpass"@) {
        ServerConfigView { admin_pass: quoted_value(line), ..x }
    } else {
        config_net_line(x, line)
    }
}

/// A profile after a line that can only be about the network, the lists or the clan.
#[verifier::opaque]
pub open spec fn config_net_line(x: ServerConfigView, line: Seq<char>) -> ServerConfigView {
    if starts_with(line, "maxping"@) {
        ServerConfigView {
            max_ping: match u16_value(line) {
                Some(v) => v,
                None => 0,
            },
            ..x
        }
    } else if starts_with(line, "maxfreq"@) {
        ServerConfigView {
            max_freq: match u16_value(line) {
                Some(v) => v,
                None => 0,
            },
            ..x
        }
    } else if starts_with(line, "maxinactivity"@) {
        ServerConfigView {
            max_inactivity: match u16_value(line) {
                Some(v) => v,
                None => 0,
            },
            ..x
        }
    } else if starts_with(line, "voicechat"@) {
        ServerConfigView {
            voice_chat: match u8_value(line) {
                Some(v) => v,
                None => 0,
            },
            ..x
        }
    } else if starts_with(line, "maps"@) {
        ServerConfigView { maps: items(quoted_value(line)), ..x }
    } else if starts_with(line, "messages"@) && !contains(line, "Interval"@) && !contains(
        line,
        "Enable"@,
    ) {
        ServerConfigView {
            messages: if string_value(line).len() > 0 {
                items(string_value(line))
            } else {
                x.messages
            },
            ..x
        }
    } else if starts_with(line, "banlist"@) {
        ServerConfigView {
            ban_list: if string_value(line).len() > 0 {
                items(string_value(line))
            } else {
                x.ban_list
            },
            ..x
        }
    } else {
        config_clan_line(x, line)
    }
}

/// A profile after a line that can only be about the clan.
#[verifier::opaque]
pub open spec fn config_clan_line(x: ServerConfigView, line: Seq<char>) -> ServerConfigView {
    if starts_with(line, "enableautokick"@) {
        ServerConfigView { enable_auto_kick: bool_value(line), ..x }
    } else if starts_with(line, "clantag"@) {
        ServerConfigView { clan_tag: quoted_value(line), ..x }
    } else if starts_with(line, "clanside"@) {
        ServerConfigView { clan_side: string_value(line), ..x }
    } else if starts_with(line, "clanreserve"@) {
        ServerConfigView {
            clan_reserve: match u8_value(line) {
                Some(v) => v,
                None => 0,
            },
            ..x
        }
    } else {
        x
    }
}

fn apply_config_line(x: &mut ServerConfig, line: &Vec<char>)
    ensures
        final(x)@ == config_line(old(x)@, line@),
{
    reveal(config_line);
    if begins(line, "name") {
        x.name = from_chars(&quoted_of(line));
    } else if begins(line, "domain") {
        x.domain = from_chars(&string_of(line));
    } else if begins(line, "style") {
        x.style = from_chars(&string_of(line));
    } else if begins(line, "sessionname") {
        x.session_name = from_chars(&quoted_of(line));
    } else if begins(line, "maxclients") {
        x.max_clients = match u8_of(line) {
            Some(v) => v,
            None => 64,
        };
    } else if begins(line, "pointlimit") {
        x.point_limit = match u8_of(line) {
            Some(v) => v,
            None => 0,
        };
    } else {
        apply_config_limits_line(x, line);
    }
}

#[verifier::rlimit(30)]
fn apply_config_limits_line(x: &mut ServerConfig, line: &Vec<char>)
    ensures
        final(x)@ == config_limits_line(old(x)@, line@),
{
    reveal(config_limits_line);
    if begins(line, "roundlimit") {
        x.round_limit = match u8_of(line) {
            Some(v) => v,
            None => 0,
        };
    } else if begins(line, "roundcount") {
        x.round_count = match u8_of(line) {
            Some(v) => v,
            None => 0,
        };
    } else if begins(line, "respawntime") {
        x.respawn_time = match u16_of(line) {
            Some(v) => v,
            None => 20,
        };
    } else if begins(line, "spawnprotection") {
        x.spawn_protection = match u8_of(line) {
            Some(v) => v,
            None => 0,
        };
    } else if begins(line, "warmup") {
        x.warmup = match u8_of(line) {
            Some(v) => v,
            None => 0,
        };
    } else if begins(line, "inversedamage") {
        x.inverse_damage = match u8_of(line) {
            Some(v) => v,
            None => 0,
        };
    } else {
        apply_config_play_line(x, line);
    }
}

fn apply_config_play_line(x: &mut ServerConfig, line: &Vec<char>)
    ensures
        final(x)@ == config_play_line(old(x)@, line@),
{
    reveal(config_play_line);
    if begins(line, "friendlyfire") {
        x.friendly_fire = bool_of(line);
    } else if begins(line, "autoteambalance") {
        x.auto_team_balance = bool_of(line);
    } else if begins(line, "3rdpersonview") {
        x.third_person_view = bool_of(line);
    } else if begins(line, "allowcrosshair") {
        x.allow_crosshair = bool_of(line);
    } else if begins(line, "fallingdmg") {
        x.falling_dmg = bool_of(line);
    } else if begins(line, "allowrespawn") {
        x.allow_respawn = bool_of(line);
    } else if begins(line, "allowvehicles") {
        x.allow_vehicles = bool_of(line);
    } else {
        apply_config_rules_line(x, line);
    }
}

fn apply_config_rules_line(x: &mut ServerConfig, line: &Vec<char>)
    ensures
        final(x)@ == config_rules_line(old(x)@, line@),
{
    reveal(config_rules_line);
    if begins(line, "dificulty") {
        x.difficulty = from_chars(&string_of(line));
    } else if begins(line, "respawnnumber") {
        x.respawn_number = match i32_of(line) {
            Some(v) => v,
            None => 0,
        };
    } else if begins(line, "teamrespawn") {
        x.team_respawn = bool_of(line);
    } else if begins(line, "password") && !holds(line, "admin") {
        x.password = from_chars(&quoted_of(line));
    } else if begins(line, "adminpass") {
        x.admin_pass = from_chars(&quoted_of(line));
    } else {
        apply_config_net_line(x, line);
    }
}

fn apply_config_net_line(x: &mut ServerConfig, line: &Vec<char>)
    ensures
        final(x)@ == config_net_line(old(x)@, line@),
{
    reveal(config_net_line);
    if begins(line, "maxping") {
        x.max_ping = match u16_of(line) {
            Some(v) => v,
            None => 0,
        };
    } else if begins(line, "maxfreq") {
        x.max_freq = match u16_of(line) {
            Some(v) => v,
            None => 0,
        };
    } else if begins(line, "maxinactivity") {
        x.max_inactivity = match u16_of(line) {
            Some(v) => v,
            None => 0,
        };
    } else if begins(line, "voicechat") {
        x.voice_chat = match u8_of(line) {
            Some(v) => v,
            None => 0,
        };
    } else if begins(line, "maps") {
        x.maps = items_of(&quoted_of(line));
    } else if begins(line, "messages") && !holds(line, "Interval") && !holds(line, "Enable") {
        let value = string_of(line);
        if value.len() > 0 {
            x.messages = items_of(&value);
        }
    } else if begins(line, "banlist") {
        let value = string_of(line);
        if value.len() > 0 {
            x.ban_list = items_of(&value);
        }
    } else {
        apply_config_clan_line(x, line);
    }
}

fn apply_config_clan_line(x: &mut ServerConfig, line: &Vec<char>)
    ensures
        final(x)@ == config_clan_line(old(x)@, line@),
{
    reveal(config_clan_line);
    if begins(line, "enableautokick") {
        x.enable_auto_kick = bool_of(line);
    } else if begins(line, "clantag") {
        x.clan_tag = from_chars(&quoted_of(line));
    } else if begins(line, "clanside") {
        x.clan_side = from_chars(&string_of(line));
    } else if begins(line, "clanreserve") {
        x.clan_reserve = match u8_of(line) {
            Some(v) => v,
            None => 0,
        };
    } else {
        
    }
}

/// Whether a line of a server's section begins with one of the server's keys.
#[verifier::opaque]
pub open spec fn server_keyed(line: Seq<char>) -> bool {
    starts_with(line, "name"@)
        || starts_with(line, "running"@)
        || starts_with(line, "watchdog"@)
        || (starts_with(line, "messages"@) && !contains(line, "Interval"@))
        || starts_with(line, "users"@)
        || starts_with(line, "port"@)
        || starts_with(line, "usesabresquadron"@)
        || starts_with(line, "currentconfig"@)
}

fn is_server_keyed(line: &Vec<char>) -> (r: bool)
    ensures
        r == server_keyed(line@),
{
    reveal(server_keyed);
    begins(line, "name")
        || begins(line, "running")
        || begins(line, "watchdog")
        || (begins(line, "messages") && !holds(line, "Interval"))
        || begins(line, "users")
        || begins(line, "port")
        || begins(line, "usesabresquadron")
        || begins(line, "currentconfig")
}

/// Where the section of the fleet's settings ends, from line `from` on, and the settings
/// after it. The section ends at the line that begins with its end tag, or with the last
/// line. The lines are taken to be trimmed.
pub open spec fn manager_section(ls: Seq<Seq<char>>, from: int, x: ServerManagerView) -> (
    int,
    ServerManagerView,
)
    decreases ls.len() - from,
{
    if from < 0 || from >= ls.len() {
        (ls.len() as int, x)
    } else if starts_with(ls[from], "</ServerManager>"@) {
        (from, x)
    } else {
        manager_section(ls, from + 1, manager_line(x, ls[from]))
    }
}

/// The account that a line of the accounts' section declares, if it declares one: a name
/// and a password in double quotes and a privilege level, parted by commas. A level that
/// is no number counts as 2.
pub open spec fn user_of(line: Seq<char>) -> Option<UserView> {
    let parts = split(line, '=');
    if starts_with(line, "user"@) && parts.len() >= 2 {
        let fields = split(trim(parts[1]), ',');
        if fields.len() >= 3 {
            Some(
                UserView {
                    username: trim_matches(fields[0], '"'),
                    password: trim_matches(fields[1], '"'),
                    privilege_level: match parse_unsigned(trim(fields[2]), 0xFF) {
                        Some(v) => v as u8,
                        None => 2,
                    },
                },
            )
        } else {
            None
        }
    } else {
        None
    }
}

/// Where the section of the accounts ends, from line `from` on, and the accounts after
/// it.
pub open spec fn users_section(ls: Seq<Seq<char>>, from: int, users: Seq<UserView>) -> (
    int,
    Seq<UserView>,
)
    decreases ls.len() - from,
{
    if from < 0 || from >= ls.len() {
        (ls.len() as int, users)
    } else if starts_with(ls[from], "</Users>"@) {
        (from, users)
    } else {
        users_section(
            ls,
            from + 1,
            match user_of(ls[from]) {
                Some(u) => users.push(u),
                None => users,
            },
        )
    }
}

/// Where the section of a profile ends, from line `from` on, and the profile after it.
pub open spec fn config_section(ls: Seq<Seq<char>>, from: int, x: ServerConfigView) -> (
    int,
    ServerConfigView,
)
    decreases ls.len() - from,
{
    if from < 0 || from >= ls.len() {
        (ls.len() as int, x)
    } else if starts_with(ls[from], "</config>"@) {
        (from, x)
    } else {
        config_section(ls, from + 1, config_line(x, ls[from]))
    }
}

/// A section ends no earlier than it begins.
pub proof fn lemma_config_section(ls: Seq<Seq<char>>, from: int, x: ServerConfigView)
    requires
        0 <= from <= ls.len(),
    ensures
        from <= config_section(ls, from, x).0 <= ls.len(),
    decreases ls.len() - from,
{
    if from < ls.len() && !starts_with(ls[from], "</config>"@) {
        lemma_config_section(ls, from + 1, config_line(x, ls[from]));
    }
}

/// Where the section of a server ends, from line `from` on, and the server after it. A
/// line that opens a profile starts a fresh profile, which is read to its end and added
/// to the server's profiles.
pub open spec fn server_section(ls: Seq<Seq<char>>, from: int, x: ServerView) -> (int, ServerView)
    decreases ls.len() - from + 1,
{
    if from < 0 || from >= ls.len() {
        (ls.len() as int, x)
    } else if starts_with(ls[from], "</Server>"@) {
        (from, x)
    } else if server_keyed(ls[from]) {
        server_section(ls, from + 1, server_line(x, ls[from]))
    } else if starts_with(ls[from], "<config>"@) {
        let inner = config_section(ls, from + 1, ServerConfig::initial());
        proof {
            lemma_config_section(ls, from + 1, ServerConfig::initial());
        }
        server_section(ls, inner.0 + 1, ServerView { configs: x.configs.push(inner.1), ..x })
    } else {
        server_section(ls, from + 1, x)
    }
}

/// A section ends no earlier than it begins.
pub proof fn lemma_server_section(ls: Seq<Seq<char>>, from: int, x: ServerView)
    requires
        0 <= from <= ls.len(),
    ensures
        from <= server_section(ls, from, x).0 <= ls.len(),
    decreases ls.len() - from + 1,
{
    if from < ls.len() && !starts_with(ls[from], "</Server>"@) {
        if server_keyed(ls[from]) {
            lemma_server_section(ls, from + 1, server_line(x, ls[from]));
        } else if starts_with(ls[from], "<config>"@) {
            let inner = config_section(ls, from + 1, ServerConfig::initial());
            lemma_config_section(ls, from + 1, ServerConfig::initial());
            let next = ServerView { configs: x.configs.push(inner.1), ..x };
            if inner.0 + 1 <= ls.len() {
                lemma_server_section(ls, inner.0 + 1, next);
            } else {
                assert(server_section(ls, inner.0 + 1, next).0 == ls.len());
            }
        } else {
            lemma_server_section(ls, from + 1, x);
        }
    }
}

/// Where the section of the servers ends, from line `from` on, and the servers after it.
/// A line that opens a server starts a fresh server, which is read to its end and added.
pub open spec fn servers_section(ls: Seq<Seq<char>>, from: int, servers: Seq<ServerView>) -> (
    int,
    Seq<ServerView>,
)
    decreases ls.len() - from + 1,
{
    if from < 0 || from >= ls.len() {
        (ls.len() as int, servers)
    } else if starts_with(ls[from], "</Servers>"@) {
        (from, servers)
    } else if starts_with(ls[from], "<Server>"@) {
        let inner = server_section(ls, from + 1, Server::initial());
        proof {
            lemma_server_section(ls, from + 1, Server::initial());
        }
        servers_section(ls, inner.0 + 1, servers.push(inner.1))
    } else {
        servers_section(ls, from + 1, servers)
    }
}

/// A section ends no earlier than it begins.
pub proof fn lemma_servers_section(ls: Seq<Seq<char>>, from: int, servers: Seq<ServerView>)
    requires
        0 <= from <= ls.len(),
    ensures
        from <= servers_section(ls, from, servers).0 <= ls.len(),
    decreases ls.len() - from + 1,
{
    if from < ls.len() && !starts_with(ls[from], "</Servers>"@) {
        if starts_with(ls[from], "<Server>"@) {
            let inner = server_section(ls, from + 1, Server::initial());
            lemma_server_section(ls, from + 1, Server::initial());
            if inner.0 + 1 <= ls.len() {
                lemma_servers_section(ls, inner.0 + 1, servers.push(inner.1));
            } else {
                assert(servers_section(ls, inner.0 + 1, servers.push(inner.1)).0 == ls.len());
            }
        } else {
            lemma_servers_section(ls, from + 1, servers);
        }
    }
}

/// A section ends no earlier than it begins.
pub proof fn lemma_manager_section(ls: Seq<Seq<char>>, from: int, x: ServerManagerView)
    requires
        0 <= from <= ls.len(),
    ensures
        from <= manager_section(ls, from, x).0 <= ls.len(),
    decreases ls.len() - from,
{
    if from < ls.len() && !starts_with(ls[from], "</ServerManager>"@) {
        lemma_manager_section(ls, from + 1, manager_line(x, ls[from]));
    }
}

/// A section ends no earlier than it begins.
pub proof fn lemma_users_section(ls: Seq<Seq<char>>, from: int, users: Seq<UserView>)
    requires
        0 <= from <= ls.len(),
    ensures
        from <= users_section(ls, from, users).0 <= ls.len(),
    decreases ls.len() - from,
{
    if from < ls.len() && !starts_with(ls[from], "</Users>"@) {
        lemma_users_section(
            ls,
            from + 1,
            match user_of(ls[from]) {
                Some(u) => users.push(u),
                None => users,
            },
        );
    }
}

/// The configuration after the lines from `from` on. A line that opens a section has the
/// section read; any other line outside a section is passed over.
pub open spec fn document(ls: Seq<Seq<char>>, from: int, x: ServerLauncherDataView)
    -> ServerLauncherDataView
    decreases ls.len() - from + 1,
{
    if from < 0 || from >= ls.len() {
        x
    } else if starts_with(ls[from], "<ServerManager>"@) {
        let inner = manager_section(ls, from + 1, x.server_manager);
        proof {
            lemma_manager_section(ls, from + 1, x.server_manager);
        }
        document(ls, inner.0 + 1, ServerLauncherDataView { server_manager: inner.1, ..x })
    } else if starts_with(ls[from], "<Users>"@) {
        let inner = users_section(ls, from + 1, x.users);
        proof {
            lemma_users_section(ls, from + 1, x.users);
        }
        document(ls, inner.0 + 1, ServerLauncherDataView { users: inner.1, ..x })
    } else if starts_with(ls[from], "<Servers>"@) {
        let inner = servers_section(ls, from + 1, x.servers);
        proof {
            lemma_servers_section(ls, from + 1, x.servers);
        }
        document(ls, inner.0 + 1, ServerLauncherDataView { servers: inner.1, ..x })
    } else {
        document(ls, from + 1, x)
    }
}

/// The lines of a text, each trimmed.
pub open spec fn trimmed_lines(content: Seq<char>) -> Seq<Seq<char>> {
    Seq::new(lines(content).len(), |i: int| trim(lines(content)[i]))
}

/// The configuration that a text stands for: what its sections set, on top of a fresh
/// configuration.
pub open spec fn parsed(content: Seq<char>) -> ServerLauncherDataView {
    document(trimmed_lines(content), 0, ServerLauncherData::initial())
}

/// The comment at the head of the file.
#[verifier::opaque]
pub open spec fn preamble(acc: Seq<char>) -> Seq<char> {
    acc
        + "// HD2DS Server configuration file
// Generated and managed by Spectre
// Please edit this file using Spectre's Server Utility module
// Manual editing may cause formatting issues
// Value changes are allowed, but use Spectre for best results

// Part of service configuration

"@
}

fn push_preamble(out: &mut String)
    ensures
        final(out)@ == preamble(old(out)@),
{
    reveal(preamble);
    out.append("// HD2DS Server configuration file
// Generated and managed by Spectre
// Please edit this file using Spectre's Server Utility module
// Manual editing may cause formatting issues
// Value changes are allowed, but use Spectre for best results

// Part of service configuration

");
}

/// The section of the fleet's settings, added to `acc`.
#[verifier::opaque]
pub open spec fn manager_text(acc: Seq<char>, m: ServerManagerView) -> Seq<char> {
    acc
        + "<ServerManager>

   ServerIP             = "@
        + m.server_ip
        + "
   ServerPort           = "@
        + decimal(m.server_port as nat)
        + "
   EnableWatchDog       = "@
        + truth(m.enable_watchdog)
        + "
   WatchdogInterval     = "@
        + decimal(m.watchdog_interval as nat)
        + "

   EnableMessaging      = "@
        + truth(m.enable_messaging)
        + "
   MessagingInterval    = "@
        + decimal(m.messaging_interval as nat)
        + "

   EnableReboot         = "@
        + truth(m.enable_reboot)
        + "
   RebootInterval       = "@
        + decimal(m.reboot_interval as nat)
        + "

   EnableForcedMessages = "@
        + truth(m.enable_forced_messages)
        + "
   ForcedMessages       = "@
        + join(m.forced_messages, ","@)
        + "

   EnableForcedBanList  = "@
        + truth(m.enable_forced_ban_list)
        + "
   ForcedBanList        = \""@
        + join(m.forced_ban_list, ","@)
        + "\"

</ServerManager>

"@
}

fn push_manager_text(out: &mut String, m: &ServerManager)
    ensures
        final(out)@ == manager_text(old(out)@, m@),
{
    reveal(manager_text);
    out.append("<ServerManager>

   ServerIP             = ");
    out.append(m.server_ip.as_str());
    out.append("
   ServerPort           = ");
    push_decimal(out, m.server_port as u64);
    out.append("
   EnableWatchDog       = ");
    out.append(truth_of(m.enable_watchdog));
    out.append("
   WatchdogInterval     = ");
    push_decimal(out, m.watchdog_interval as u64);
    out.append("

   EnableMessaging      = ");
    out.append(truth_of(m.enable_messaging));
    out.append("
   MessagingInterval    = ");
    push_decimal(out, m.messaging_interval as u64);
    out.append("

   EnableReboot         = ");
    out.append(truth_of(m.enable_reboot));
    out.append("
   RebootInterval       = ");
    push_decimal(out, m.reboot_interval as u64);
    out.append("

   EnableForcedMessages = ");
    out.append(truth_of(m.enable_forced_messages));
    out.append("
   ForcedMessages       = ");
    out.append(joined(&m.forced_messages, ",").as_str());
    out.append("

   EnableForcedBanList  = ");
    out.append(truth_of(m.enable_forced_ban_list));
    out.append("
   ForcedBanList        = \"");
    out.append(joined(&m.forced_ban_list, ",").as_str());
    out.append("\"

</ServerManager>

");
}

/// The line of one account, added to `acc`.
#[verifier::opaque]
pub open spec fn user_text(acc: Seq<char>, u: UserView) -> Seq<char> {
    acc
        + "   user = \""@
        + u.username
        + "\",\""@
        + u.password
        + "\","@
        + decimal(u.privilege_level as nat)
        + "

"@
}

fn push_user_text(out: &mut String, u: &User)
    ensures
        final(out)@ == user_text(old(out)@, u@),
{
    reveal(user_text);
    out.append("   user = \"");
    out.append(u.username.as_str());
    out.append("\",\"");
    out.append(u.password.as_str());
    out.append("\",");
    push_decimal(out, u.privilege_level as u64);
    out.append("

");
}

/// The settings of a server, without its profiles, added to `acc`.
#[verifier::opaque]
pub open spec fn server_head(acc: Seq<char>, s: ServerView) -> Seq<char> {
    acc
        + "   <Server>

      name          = \""@
        + s.name
        + "\"
      running       = "@
        + truth(s.running)
        + "
      watchdog      = "@
        + truth(s.watchdog)
        + "
      messages      = "@
        + truth(s.messages)
        + "

      users         = \""@
        + join(s.users, ","@)
        + "\"

      port          = "@
        + decimal(s.port as nat)
        + "

      usesabresquadron = "@
        + truth(s.use_sabre_squadron)
        + "

      currentconfig = \""@
        + s.current_config
        + "\"

"@
}

fn push_server_head(out: &mut String, s: &Server)
    ensures
        final(out)@ == server_head(old(out)@, s@),
{
    reveal(server_head);
    out.append("   <Server>

      name          = \"");
    out.append(s.name.as_str());
    out.append("\"
      running       = ");
    out.append(truth_of(s.running));
    out.append("
      watchdog      = ");
    out.append(truth_of(s.watchdog));
    out.append("
      messages      = ");
    out.append(truth_of(s.messages));
    out.append("

      users         = \"");
    out.append(joined(&s.users, ",").as_str());
    out.append("\"

      port          = ");
    push_decimal(out, s.port as u64);
    out.append("

      usesabresquadron = ");
    out.append(truth_of(s.use_sabre_squadron));
    out.append("

      currentconfig = \"");
    out.append(s.current_config.as_str());
    out.append("\"

");
}

/// The section of one profile, added to `acc`.
#[verifier::opaque]
pub open spec fn config_text(acc: Seq<char>, c: ServerConfigView) -> Seq<char> {
    acc
        + "      <config>

         name            = \""@
        + c.name
        + "\"

         domain          = "@
        + c.domain
        + "
         style           = "@
        + c.style
        + "
         sessionname     = \""@
        + c.session_name
        + "\"
         maxclients      = "@
        + decimal(c.max_clients as nat)
        + "
         pointlimit      = "@
        + decimal(c.point_limit as nat)
        + "
         roundlimit      = "@
        + decimal(c.round_limit as nat)
        + "
         roundcount      = "@
        + decimal(c.round_count as nat)
        + "
         respawntime     = "@
        + decimal(c.respawn_time as nat)
        + "
         spawnprotection = "@
        + decimal(c.spawn_protection as nat)
        + "
         warmup          = "@
        + decimal(c.warmup as nat)
        + "
         inversedamage   = "@
        + decimal(c.inverse_damage as nat)
        + "
         friendlyfire    = "@
        + truth(c.friendly_fire)
        + "
         autoteambalance = "@
        + truth(c.auto_team_balance)
        + "
         3rdpersonview   = "@
        + truth(c.third_person_view)
        + "
         allowcrosshair  = "@
        + truth(c.allow_crosshair)
        + "
         fallingdmg      = "@
        + truth(c.falling_dmg)
        + "
         allowrespawn    = "@
        + truth(c.allow_respawn)
        + "
         allowvehicles   = "@
        + truth(c.allow_vehicles)
        + "
         dificulty       = "@
        + c.difficulty
        + "
         respawnnumber   = "@
        + signed_decimal(c.respawn_number as int)
        + "
         teamrespawn     = "@
        + truth(c.team_respawn)
        + "

         password        = \""@
        + c.password
        + "\"
         adminpass       = \""@
        + c.admin_pass
        + "\"

         maxping         = "@
        + decimal(c.max_ping as nat)
        + "
         maxfreq         = "@
        + decimal(c.max_freq as nat)
        + "
         maxinactivity   = "@
        + decimal(c.max_inactivity as nat)
        + "
         voicechat       = "@
        + decimal(c.voice_chat as nat)
        + "

         maps            = \""@
        + join(c.maps, ","@)
        + "\"

         messages        = "@
        + join(c.messages, ","@)
        + "
         banlist         = "@
        + join(c.ban_list, ","@)
        + "

         enableautokick  = "@
        + truth(c.enable_auto_kick)
        + "
         clantag         = \""@
        + c.clan_tag
        + "\"
         clanside        = "@
        + c.clan_side
        + "
         clanreserve    = "@
        + decimal(c.clan_reserve as nat)
        + "

      </config>

"@
}

fn push_config_text(out: &mut String, c: &ServerConfig)
    ensures
        final(out)@ == config_text(old(out)@, c@),
{
    reveal(config_text);
    out.append("      <config>

         name            = \"");
    out.append(c.name.as_str());
    out.append("\"

         domain          = ");
    out.append(c.domain.as_str());
    out.append("
         style           = ");
    out.append(c.style.as_str());
    out.append("
         sessionname     = \"");
    out.append(c.session_name.as_str());
    out.append("\"
         maxclients      = ");
    push_decimal(out, c.max_clients as u64);
    out.append("
         pointlimit      = ");
    push_decimal(out, c.point_limit as u64);
    out.append("
         roundlimit      = ");
    push_decimal(out, c.round_limit as u64);
    out.append("
         roundcount      = ");
    push_decimal(out, c.round_count as u64);
    out.append("
         respawntime     = ");
    push_decimal(out, c.respawn_time as u64);
    out.append("
         spawnprotection = ");
    push_decimal(out, c.spawn_protection as u64);
    out.append("
         warmup          = ");
    push_decimal(out, c.warmup as u64);
    out.append("
         inversedamage   = ");
    push_decimal(out, c.inverse_damage as u64);
    out.append("
         friendlyfire    = ");
    out.append(truth_of(c.friendly_fire));
    out.append("
         autoteambalance = ");
    out.append(truth_of(c.auto_team_balance));
    out.append("
         3rdpersonview   = ");
    out.append(truth_of(c.third_person_view));
    out.append("
         allowcrosshair  = ");
    out.append(truth_of(c.allow_crosshair));
    out.append("
         fallingdmg      = ");
    out.append(truth_of(c.falling_dmg));
    out.append("
         allowrespawn    = ");
    out.append(truth_of(c.allow_respawn));
    out.append("
         allowvehicles   = ");
    out.append(truth_of(c.allow_vehicles));
    out.append("
         dificulty       = ");
    out.append(c.difficulty.as_str());
    out.append("
         respawnnumber   = ");
    push_signed(out, c.respawn_number);
    out.append("
         teamrespawn     = ");
    out.append(truth_of(c.team_respawn));
    out.append("

         password        = \"");
    out.append(c.password.as_str());
    out.append("\"
         adminpass       = \"");
    out.append(c.admin_pass.as_str());
    out.append("\"

         maxping         = ");
    push_decimal(out, c.max_ping as u64);
    out.append("
         maxfreq         = ");
    push_decimal(out, c.max_freq as u64);
    out.append("
         maxinactivity   = ");
    push_decimal(out, c.max_inactivity as u64);
    out.append("
         voicechat       = ");
    push_decimal(out, c.voice_chat as u64);
    out.append("

         maps            = \"");
    out.append(joined(&c.maps, ",").as_str());
    out.append("\"

         messages        = ");
    out.append(joined(&c.messages, ",").as_str());
    out.append("
         banlist         = ");
    out.append(joined(&c.ban_list, ",").as_str());
    out.append("

         enableautokick  = ");
    out.append(truth_of(c.enable_auto_kick));
    out.append("
         clantag         = \"");
    out.append(c.clan_tag.as_str());
    out.append("\"
         clanside        = ");
    out.append(c.clan_side.as_str());
    out.append("
         clanreserve    = ");
    push_decimal(out, c.clan_reserve as u64);
    out.append("

      </config>

");
}

/// How a switch is written in the file.
pub open spec fn truth(b: bool) -> Seq<char> {
    if b {
        "true"@
    } else {
        "false"@
    }
}

fn truth_of(b: bool) -> (r: &'static str)
    ensures
        r@ == truth(b),
{
    if b {
        "true"
    } else {
        "false"
    }
}

/// The lines of all accounts, added to `acc`.
pub open spec fn users_text(acc: Seq<char>, users: Seq<UserView>) -> Seq<char>
    decreases users.len(),
{
    if users.len() == 0 {
        acc
    } else {
        user_text(users_text(acc, users.drop_last()), users.last())
    }
}

/// The sections of all profiles of a server, added to `acc`.
pub open spec fn configs_text(acc: Seq<char>, configs: Seq<ServerConfigView>) -> Seq<char>
    decreases configs.len(),
{
    if configs.len() == 0 {
        acc
    } else {
        config_text(configs_text(acc, configs.drop_last()), configs.last())
    }
}

/// The section of one server, added to `acc`.
pub open spec fn server_text(acc: Seq<char>, s: ServerView) -> Seq<char> {
    configs_text(server_head(acc, s), s.configs) + "   </Server>\n\n"@
}

/// The sections of all servers, added to `acc`.
pub open spec fn servers_text(acc: Seq<char>, servers: Seq<ServerView>) -> Seq<char>
    decreases servers.len(),
{
    if servers.len() == 0 {
        acc
    } else {
        server_text(servers_text(acc, servers.drop_last()), servers.last())
    }
}

/// The whole file: the comment at its head, then the fleet's settings, the accounts
/// and the servers, each in its section.
pub open spec fn config_file(x: ServerLauncherDataView) -> Seq<char> {
    let head = manager_text(preamble(Seq::empty()), x.server_manager);
    let accounts = users_text(head + "// Part of users configuration\n\n<Users>\n\n"@, x.users)
        + "</Users>\n\n"@;
    servers_text(accounts + "// Dedicated servers configurations\n\n<Servers>\n\n"@, x.servers)
        + "</Servers>\n\n"@
}

fn push_configs(out: &mut String, configs: &Vec<ServerConfig>)
    ensures
        final(out)@ == configs_text(old(out)@, views(configs@)),
{
    let mut i: usize = 0;
    assert(views(configs@).take(0) =~= Seq::<ServerConfigView>::empty());
    while i < configs.len()
        invariant
            i <= configs.len(),
            out@ == configs_text(old(out)@, views(configs@).take(i as int)),
        decreases configs.len() - i,
    {
        proof {
            let upto = views(configs@).take(i + 1);
            assert(upto.drop_last() =~= views(configs@).take(i as int));
            assert(upto.last() == configs@[i as int]@);
        }
        push_config_text(out, &configs[i]);
        i += 1;
    }
    assert(views(configs@).take(configs.len() as int) =~= views(configs@));
}

fn push_server(out: &mut String, s: &Server)
    ensures
        final(out)@ == server_text(old(out)@, s@),
{
    push_server_head(out, s);
    push_configs(out, &s.configs);
    out.append("   </Server>\n\n");
}

impl ServerLauncherData {
    /// The value of a line.
    pub fn parse_string_value(line: &str) -> (r: String)
        ensures
            r@ == string_value(line@),
    {
        from_chars(&string_of(&to_chars(line)))
    }

    /// The value of a line without the double quotes around it.
    pub fn parse_quoted_string_value(line: &str) -> (r: String)
        ensures
            r@ == quoted_value(line@),
    {
        from_chars(&quoted_of(&to_chars(line)))
    }

    /// Whether the value of a line is `true`, in whatever case.
    pub fn parse_bool_value(line: &str) -> (r: bool)
        ensures
            r == bool_value(line@),
    {
        bool_of(&to_chars(line))
    }

    /// The value of a line as a number, if it is one that fits.
    pub fn parse_u8_value(line: &str) -> (r: Option<u8>)
        ensures
            r == u8_value(line@),
    {
        u8_of(&to_chars(line))
    }

    /// The value of a line as a number, if it is one that fits.
    pub fn parse_u16_value(line: &str) -> (r: Option<u16>)
        ensures
            r == u16_value(line@),
    {
        u16_of(&to_chars(line))
    }

    /// The value of a line as a number, if it is one that fits.
    pub fn parse_u32_value(line: &str) -> (r: Option<u32>)
        ensures
            r == u32_value(line@),
    {
        u32_of(&to_chars(line))
    }

    /// The value of a line as a number, if it is one that fits.
    pub fn parse_i32_value(line: &str) -> (r: Option<i32>)
        ensures
            r == i32_value(line@),
    {
        i32_of(&to_chars(line))
    }

    /// How a switch is written in the file.
    pub fn bool_to_str(&self, value: bool) -> (r: &str)
        ensures
            r@ == truth(value),
    {
        truth_of(value)
    }

    /// Reads the section of the fleet's settings from line `start` on, and gives the
    /// line at which it ends. The lines are taken to be trimmed.
    pub fn parse_server_manager(
        lines: &Vec<Vec<char>>,
        start: usize,
        sm: &mut ServerManager,
    ) -> (end: usize)
        ensures
            (end as int, final(sm)@) == manager_section(rows(lines@), start as int, old(sm)@),
            end <= lines.len(),
    {
        let mut i: usize = start;
        while i < lines.len()
            invariant
                start <= i,
                manager_section(rows(lines@), start as int, old(sm)@) == manager_section(
                    rows(lines@),
                    i as int,
                    sm@,
                ),
            decreases lines.len() - i,
        {
            let line = &lines[i];
            assert(rows(lines@)[i as int] == line@);
            if begins(line, "</ServerManager>") {
                return i;
            }
            apply_manager_line(sm, line);
            i += 1;
        }
        lines.len()
    }

    /// Reads the section of the accounts from line `start` on, and gives the line at
    /// which it ends. The lines are taken to be trimmed.
    pub fn parse_users(lines: &Vec<Vec<char>>, start: usize, users: &mut Vec<User>) -> (end: usize)
        ensures
            (end as int, views(final(users)@)) == users_section(
                rows(lines@),
                start as int,
                views(old(users)@),
            ),
            end <= lines.len(),
    {
        let mut i: usize = start;
        while i < lines.len()
            invariant
                start <= i,
                users_section(rows(lines@), start as int, views(old(users)@)) == users_section(
                    rows(lines@),
                    i as int,
                    views(users@),
                ),
            decreases lines.len() - i,
        {
            let line = &lines[i];
            assert(rows(lines@)[i as int] == line@);
            if begins(line, "</Users>") {
                return i;
            }
            match read_user(line) {
                Some(u) => {
                    let ghost before = views(users@);
                    users.push(u);
                    assert(views(users@) =~= before.push(u@));
                },
                None => {},
            }
            i += 1;
        }
        lines.len()
    }

    /// Reads the section of a profile from line `start` on, and gives the line at which
    /// it ends. The lines are taken to be trimmed.
    pub fn parse_config_section(
        lines: &Vec<Vec<char>>,
        start: usize,
        config: &mut ServerConfig,
    ) -> (end: usize)
        ensures
            (end as int, final(config)@) == config_section(
                rows(lines@),
                start as int,
                old(config)@,
            ),
            end <= lines.len(),
    {
        let mut i: usize = start;
        while i < lines.len()
            invariant
                start <= i,
                config_section(rows(lines@), start as int, old(config)@) == config_section(
                    rows(lines@),
                    i as int,
                    config@,
                ),
            decreases lines.len() - i,
        {
            let line = &lines[i];
            assert(rows(lines@)[i as int] == line@);
            if begins(line, "</config>") {
                return i;
            }
            apply_config_line(config, line);
            i += 1;
        }
        lines.len()
    }

    /// Reads the section of a server from line `start` on, and gives the line at which
    /// it ends. The lines are taken to be trimmed.
    pub fn parse_server(lines: &Vec<Vec<char>>, start: usize, server: &mut Server) -> (end: usize)
        ensures
            (end as int, final(server)@) == server_section(
                rows(lines@),
                start as int,
                old(server)@,
            ),
            end <= lines.len(),
    {
        let mut i: usize = start;
        while i < lines.len()
            invariant
                start <= i,
                server_section(rows(lines@), start as int, old(server)@) == server_section(
                    rows(lines@),
                    i as int,
                    server@,
                ),
            decreases lines.len() - i,
        {
            let line = &lines[i];
            assert(rows(lines@)[i as int] == line@);
            if begins(line, "</Server>") {
                return i;
            }
            if is_server_keyed(line) {
                apply_server_line(server, line);
            } else if begins(line, "<config>") {
                let mut config = ServerConfig::default();
                let inner = ServerLauncherData::parse_config_section(lines, i + 1, &mut config);
                let ghost before = server@;
                server.configs.push(config);
                proof {
                    assert(views(server.configs@) =~= before.configs.push(config@));
                    assert(server@ == (ServerView {
                        configs: before.configs.push(config@),
                        ..before
                    }));
                    lemma_config_section(rows(lines@), i + 1, ServerConfig::initial());
                    assert(inner >= lines.len() ==> server_section(
                        rows(lines@),
                        inner + 1,
                        server@,
                    ) == (lines.len() as int, server@));
                }
                if inner >= lines.len() {
                    return lines.len();
                }
                i = inner;
            }
            i += 1;
        }
        lines.len()
    }

    /// Reads the section of the servers from line `start` on, and gives the line at
    /// which it ends. The lines are taken to be trimmed.
    pub fn parse_servers(
        lines: &Vec<Vec<char>>,
        start: usize,
        servers: &mut Vec<Server>,
    ) -> (end: usize)
        ensures
            (end as int, views(final(servers)@)) == servers_section(
                rows(lines@),
                start as int,
                views(old(servers)@),
            ),
            end <= lines.len(),
    {
        let mut i: usize = start;
        while i < lines.len()
            invariant
                start <= i,
                servers_section(rows(lines@), start as int, views(old(servers)@))
                    == servers_section(rows(lines@), i as int, views(servers@)),
            decreases lines.len() - i,
        {
            let line = &lines[i];
            assert(rows(lines@)[i as int] == line@);
            if begins(line, "</Servers>") {
                return i;
            }
            if begins(line, "<Server>") {
                let mut server = Server::default();
                let inner = ServerLauncherData::parse_server(lines, i + 1, &mut server);
                let ghost before = views(servers@);
                servers.push(server);
                proof {
                    assert(views(servers@) =~= before.push(server@));
                    lemma_server_section(rows(lines@), i + 1, Server::initial());
                    assert(inner >= lines.len() ==> servers_section(
                        rows(lines@),
                        inner + 1,
                        views(servers@),
                    ) == (lines.len() as int, views(servers@)));
                }
                if inner >= lines.len() {
                    return lines.len();
                }
                i = inner;
            }
            i += 1;
        }
        lines.len()
    }

    /// Reads a configuration from the text of its file. There is no text that cannot be
    /// read: what makes no sense is passed over.
    pub fn parse_config(content: &str) -> (r: Result<Self, String>)
        ensures
            r is Ok,
            r.unwrap()@ == parsed(content@),
    {
        let raw = split_lines(&to_chars(content));
        let mut all: Vec<Vec<char>> = Vec::new();
        let mut k: usize = 0;
        while k < raw.len()
            invariant
                k <= raw.len(),
                rows(raw@) == lines(content@),
                all@.len() == k,
                forall|j: int| 0 <= j < k ==> (#[trigger] all@[j])@ == trimmed_lines(content@)[j],
            decreases raw.len() - k,
        {
            assert(rows(raw@)[k as int] == raw@[k as int]@);
            all.push(trimmed(&raw[k]));
            k += 1;
        }
        assert(rows(all@) =~= trimmed_lines(content@));
        let mut data = ServerLauncherData::default();
        let mut i: usize = 0;
        while i < all.len()
            invariant
                rows(all@) == trimmed_lines(content@),
                parsed(content@) == document(rows(all@), i as int, data@),
            decreases all.len() - i,
        {
            let line = &all[i];
            assert(rows(all@)[i as int] == line@);
            let ghost before = data@;
            if begins(line, "<ServerManager>") {
                let inner = ServerLauncherData::parse_server_manager(
                    &all,
                    i + 1,
                    &mut data.server_manager,
                );
                proof {
                    lemma_manager_section(rows(all@), i + 1, before.server_manager);
                    assert(inner >= all.len() ==> document(rows(all@), inner + 1, data@) == data@);
                }
                if inner >= all.len() {
                    return Ok(data);
                }
                i = inner;
            } else if begins(line, "<Users>") {
                let inner = ServerLauncherData::parse_users(&all, i + 1, &mut data.users);
                proof {
                    lemma_users_section(rows(all@), i + 1, before.users);
                    assert(inner >= all.len() ==> document(rows(all@), inner + 1, data@) == data@);
                }
                if inner >= all.len() {
                    return Ok(data);
                }
                i = inner;
            } else if begins(line, "<Servers>") {
                let inner = ServerLauncherData::parse_servers(&all, i + 1, &mut data.servers);
                proof {
                    lemma_servers_section(rows(all@), i + 1, before.servers);
                    assert(inner >= all.len() ==> document(rows(all@), inner + 1, data@) == data@);
                }
                if inner >= all.len() {
                    return Ok(data);
                }
                i = inner;
            }
            i += 1;
        }
        Ok(data)
    }

    /// The configuration as the text of its file.
    pub fn to_config_string(&self) -> (r: String)
        ensures
            r@ == config_file(self@),
    {
        let mut out = String::new();
        push_preamble(&mut out);
        push_manager_text(&mut out, &self.server_manager);
        out.append("// Part of users configuration\n\n<Users>\n\n");
        push_users(&mut out, &self.users);
        out.append("</Users>\n\n");
        out.append("// Dedicated servers configurations\n\n<Servers>\n\n");
        push_servers(&mut out, &self.servers);
        out.append("</Servers>\n\n");
        out
    }
}

fn push_users(out: &mut String, users: &Vec<User>)
    ensures
        final(out)@ == users_text(old(out)@, views(users@)),
{
    let mut i: usize = 0;
    assert(views(users@).take(0) =~= Seq::<UserView>::empty());
    while i < users.len()
        invariant
            i <= users.len(),
            out@ == users_text(old(out)@, views(users@).take(i as int)),
        decreases users.len() - i,
    {
        proof {
            let upto = views(users@).take(i + 1);
            assert(upto.drop_last() =~= views(users@).take(i as int));
            assert(upto.last() == users@[i as int]@);
        }
        push_user_text(out, &users[i]);
        i += 1;
    }
    assert(views(users@).take(users.len() as int) =~= views(users@));
}

fn push_servers(out: &mut String, servers: &Vec<Server>)
    ensures
        final(out)@ == servers_text(old(out)@, views(servers@)),
{
    let mut i: usize = 0;
    assert(views(servers@).take(0) =~= Seq::<ServerView>::empty());
    while i < servers.len()
        invariant
            i <= servers.len(),
            out@ == servers_text(old(out)@, views(servers@).take(i as int)),
        decreases servers.len() - i,
    {
        proof {
            let upto = views(servers@).take(i + 1);
            assert(upto.drop_last() =~= views(servers@).take(i as int));
            assert(upto.last() == servers@[i as int]@);
        }
        push_server(out, &servers[i]);
        i += 1;
    }
    assert(views(servers@).take(servers.len() as int) =~= views(servers@));
}

fn read_user(line: &Vec<char>) -> (r: Option<User>)
    ensures
        match r {
            Some(u) => user_of(line@) == Some(u@),
            None => user_of(line@) is None,
        },
{
    if !begins(line, "user") {
        return None;
    }
    let parts = split_at_each(line, '=');
    assert(rows(parts@).len() == parts@.len());
    if parts.len() < 2 {
        return None;
    }
    assert(rows(parts@)[1] == parts@[1]@);
    let fields = split_at_each(&trimmed(&parts[1]), ',');
    assert(rows(fields@).len() == fields@.len());
    if fields.len() < 3 {
        return None;
    }
    assert(rows(fields@)[0] == fields@[0]@);
    assert(rows(fields@)[1] == fields@[1]@);
    assert(rows(fields@)[2] == fields@[2]@);
    Some(
        User {
            username: from_chars(&trimmed_of(&fields[0], '"')),
            password: from_chars(&trimmed_of(&fields[1], '"')),
            privilege_level: match parse_u8(&trimmed(&fields[2])) {
                Some(v) => v,
                None => 2,
            },
        },
    )
}

} // verus!
