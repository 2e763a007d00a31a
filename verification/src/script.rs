//! The start-up script of a server: the directives that its console runs when it starts.
//!
//! The server reads the script line by line and by position, so the order of the
//! directives is part of the contract.

use vstd::prelude::*;
use vstd::string::StringExecFns;
use crate::decimal::{decimal, push_decimal, push_signed, signed_decimal};
use crate::server::{Server, ServerConfig, ServerConfigView};
use crate::text::{starts_with, text_is, texts};
use crate::trusted::{lowercase_of, to_lowercase};

verus! {

/// How a switch is written: `1` for on, `0` for off.
pub open spec fn flag(b: bool) -> Seq<char> {
    if b {
        "1"@
    } else {
        "0"@
    }
}

/// The number of lives as the server wants it: `-1` stands for no limit, which the
/// configuration writes as zero.
pub open spec fn lives_text(respawn_number: i32) -> Seq<char> {
    if respawn_number == 0 {
        "-1"@
    } else {
        signed_decimal(respawn_number as int)
    }
}

/// The difficulty tier for a difficulty given in lower case; an unknown one counts as hard.
pub open spec fn difficulty_tier(lowered: Seq<char>) -> Seq<char> {
    if lowered == "easy"@ {
        "1"@
    } else if lowered == "normal"@ {
        "2"@
    } else if lowered == "hard"@ {
        "3"@
    } else if lowered == "very hard"@ {
        "4"@
    } else {
        "3"@
    }
}

/// The codec's token for a voice setting; none for zero, which leaves the directive out.
pub open spec fn voice_codec(setting: u8) -> Option<Seq<char>> {
    if setting == 0 {
        None
    } else if setting == 1 {
        Some("vr12"@)
    } else if setting == 2 {
        Some("sc03"@)
    } else if setting == 3 {
        Some("sc06"@)
    } else if setting == 4 {
        Some("truespeech"@)
    } else if setting == 5 {
        Some("gsm"@)
    } else if setting == 6 {
        Some("adpcm"@)
    } else if setting == 7 {
        Some("pcm"@)
    } else {
        Some("none"@)
    }
}

/// The first two directives: the name of the session and the style of play.
pub open spec fn script_opening(c: ServerConfigView, style_lower: Seq<char>) -> Seq<Seq<char>> {
    seq!["sessionname \""@ + c.session_name + "\""@, "style "@ + style_lower]
}

/// One directive for each map of the rotation, in its order.
pub open spec fn map_lines(maps: Seq<Seq<char>>) -> Seq<Seq<char>> {
    Seq::new(maps.len(), |i: int| "mapname "@ + maps[i])
}

/// The directives on the network: the port is left out on the local domain.
pub open spec fn script_network(port: u16, domain_lower: Seq<char>) -> Seq<Seq<char>> {
    let fixed = seq!["domain "@ + domain_lower, "dedicated 1"@];
    if domain_lower != "local"@ {
        fixed.push("port "@ + decimal(port as nat))
    } else {
        fixed
    }
}

/// The passwords: the administrator's is left out when it is empty.
pub open spec fn script_access(c: ServerConfigView) -> Seq<Seq<char>> {
    let fixed = seq!["password \""@ + c.password + "\""@];
    if c.admin_pass.len() > 0 {
        fixed.push("adminpass \""@ + c.admin_pass + "\""@)
    } else {
        fixed
    }
}

/// The numeric limits of a round.
pub open spec fn script_limits(c: ServerConfigView) -> Seq<Seq<char>> {
    seq![
        "maxclients "@ + decimal(c.max_clients as nat),
        "pointlimit "@ + decimal(c.point_limit as nat),
        "roundlimit "@ + decimal(c.round_limit as nat),
        "roundcount "@ + decimal(c.round_count as nat),
        "warmup "@ + decimal(c.warmup as nat),
        "respawntime "@ + decimal(c.respawn_time as nat),
    ]
}

/// How the teams are handled.
pub open spec fn script_team(c: ServerConfigView) -> Seq<Seq<char>> {
    seq![
        "allowrespawn "@ + flag(c.allow_respawn),
        "friendlyfire "@ + flag(c.friendly_fire),
        "autoteambalance "@ + flag(c.auto_team_balance),
        "3rdpersonview "@ + flag(c.third_person_view),
    ]
}

/// How play is constrained.
pub open spec fn script_play(c: ServerConfigView) -> Seq<Seq<char>> {
    seq![
        "spawnprotection "@ + decimal(c.spawn_protection as nat),
        "inversedamage "@ + decimal(c.inverse_damage as nat),
        "fallingdmg "@ + flag(c.falling_dmg),
        "maxfreq "@ + decimal(c.max_freq as nat),
        "maxping "@ + decimal(c.max_ping as nat),
        "maxinactivity "@ + decimal(c.max_inactivity as nat),
        "allowvehicles "@ + flag(c.allow_vehicles),
    ]
}

/// Cooperative play and what follows it.
pub open spec fn script_coop(c: ServerConfigView, difficulty_lower: Seq<char>) -> Seq<Seq<char>> {
    seq![
        "autorestart 0"@,
        "coopdifficulty "@ + difficulty_tier(difficulty_lower),
        "cooplives "@ + lives_text(c.respawn_number),
        "allowcrosshair "@ + flag(c.allow_crosshair),
        "spawnonstart 0"@,
        "teamlives "@ + flag(c.team_respawn),
    ]
}

/// The directives on the rules of play, in their fixed order.
pub open spec fn script_rules(c: ServerConfigView, difficulty_lower: Seq<char>) -> Seq<Seq<char>> {
    script_limits(c) + script_team(c) + script_play(c) + script_coop(c, difficulty_lower)
}

/// The last directives: the voice codec, if one is set, and the command that starts
/// the server.
pub open spec fn script_closing(c: ServerConfigView) -> Seq<Seq<char>> {
    match voice_codec(c.voice_chat) {
        Some(token) => seq!["voicechat "@ + token, "server"@],
        None => seq!["server"@],
    }
}

/// The whole script, section after section, given the three settings that are written in
/// lower case.
pub open spec fn script_lines(
    port: u16,
    c: ServerConfigView,
    style_lower: Seq<char>,
    domain_lower: Seq<char>,
    difficulty_lower: Seq<char>,
) -> Seq<Seq<char>> {
    script_opening(c, style_lower) + map_lines(c.maps) + script_network(port, domain_lower)
        + script_access(c) + script_rules(c, difficulty_lower) + script_closing(c)
}

/// Whether `l` begins with the three given characters.
pub open spec fn leads(l: Seq<char>, a: char, b: char, c: char) -> bool {
    l.len() >= 3 && l[0] == a && l[1] == b && l[2] == c
}

/// Whether a line sets the port, or the voice codec: no other directive begins like these.
pub open spec fn marked(l: Seq<char>) -> bool {
    leads(l, 'p', 'o', 'r') || leads(l, 'v', 'o', 'i')
}

proof fn lemma_leads(l: Seq<char>, pat: Seq<char>)
    requires
        starts_with(l, pat),
        pat.len() >= 3,
    ensures
        leads(l, pat[0], pat[1], pat[2]),
{
    let head = l.subrange(0, pat.len() as int);
    assert(head[0] == l[0] && head[1] == l[1] && head[2] == l[2]);
}

proof fn lemma_limits_unmarked(c: ServerConfigView)
    ensures
        forall|j: int|
            0 <= j < script_limits(c).len() ==> !marked(#[trigger] script_limits(c)[j]),
{
    reveal_strlit("maxclients ");
    reveal_strlit("pointlimit ");
    reveal_strlit("roundlimit ");
    reveal_strlit("roundcount ");
    reveal_strlit("warmup ");
    reveal_strlit("respawntime ");
    let s = script_limits(c);
    assert(s[0][0] == 'm' && s[0][1] == 'a' && s[0][2] == 'x');
    assert(s[1][0] == 'p' && s[1][1] == 'o' && s[1][2] == 'i');
    assert(s[2][0] == 'r' && s[2][1] == 'o' && s[2][2] == 'u');
    assert(s[3][0] == 'r' && s[3][1] == 'o' && s[3][2] == 'u');
    assert(s[4][0] == 'w' && s[4][1] == 'a' && s[4][2] == 'r');
    assert(s[5][0] == 'r' && s[5][1] == 'e' && s[5][2] == 's');
}

proof fn lemma_team_unmarked(c: ServerConfigView)
    ensures
        forall|j: int|
            0 <= j < script_team(c).len() ==> !marked(#[trigger] script_team(c)[j]),
{
    reveal_strlit("allowrespawn ");
    reveal_strlit("friendlyfire ");
    reveal_strlit("autoteambalance ");
    reveal_strlit("3rdpersonview ");
    let s = script_team(c);
    assert(s[0][0] == 'a' && s[0][1] == 'l' && s[0][2] == 'l');
    assert(s[1][0] == 'f' && s[1][1] == 'r' && s[1][2] == 'i');
    assert(s[2][0] == 'a' && s[2][1] == 'u' && s[2][2] == 't');
    assert(s[3][0] == '3' && s[3][1] == 'r' && s[3][2] == 'd');
}

proof fn lemma_play_unmarked(c: ServerConfigView)
    ensures
        forall|j: int|
            0 <= j < script_play(c).len() ==> !marked(#[trigger] script_play(c)[j]),
{
    reveal_strlit("spawnprotection ");
    reveal_strlit("inversedamage ");
    reveal_strlit("fallingdmg ");
    reveal_strlit("maxfreq ");
    reveal_strlit("maxping ");
    reveal_strlit("maxinactivity ");
    reveal_strlit("allowvehicles ");
    let s = script_play(c);
    assert(s[0][0] == 's' && s[0][1] == 'p' && s[0][2] == 'a');
    assert(s[1][0] == 'i' && s[1][1] == 'n' && s[1][2] == 'v');
    assert(s[2][0] == 'f' && s[2][1] == 'a' && s[2][2] == 'l');
    assert(s[3][0] == 'm' && s[3][1] == 'a' && s[3][2] == 'x');
    assert(s[4][0] == 'm' && s[4][1] == 'a' && s[4][2] == 'x');
    assert(s[5][0] == 'm' && s[5][1] == 'a' && s[5][2] == 'x');
    assert(s[6][0] == 'a' && s[6][1] == 'l' && s[6][2] == 'l');
}

proof fn lemma_coop_unmarked(c: ServerConfigView, difficulty_lower: Seq<char>)
    ensures
        forall|j: int|
            0 <= j < script_coop(c, difficulty_lower).len() ==> !marked(
                #[trigger] script_coop(c, difficulty_lower)[j],
            ),
{
    reveal_strlit("autorestart 0");
    reveal_strlit("coopdifficulty ");
    reveal_strlit("cooplives ");
    reveal_strlit("allowcrosshair ");
    reveal_strlit("spawnonstart 0");
    reveal_strlit("teamlives ");
    let s = script_coop(c, difficulty_lower);
    assert(s[0][0] == 'a' && s[0][1] == 'u' && s[0][2] == 't');
    assert(s[1][0] == 'c' && s[1][1] == 'o' && s[1][2] == 'o');
    assert(s[2][0] == 'c' && s[2][1] == 'o' && s[2][2] == 'o');
    assert(s[3][0] == 'a' && s[3][1] == 'l' && s[3][2] == 'l');
    assert(s[4][0] == 's' && s[4][1] == 'p' && s[4][2] == 'a');
    assert(s[5][0] == 't' && s[5][1] == 'e' && s[5][2] == 'a');
}

proof fn lemma_rules_unmarked(c: ServerConfigView, difficulty_lower: Seq<char>)
    ensures
        forall|j: int|
            0 <= j < script_rules(c, difficulty_lower).len() ==> !marked(
                #[trigger] script_rules(c, difficulty_lower)[j],
            ),
        script_rules(c, difficulty_lower).len() == 23,
{
    lemma_limits_unmarked(c);
    lemma_team_unmarked(c);
    lemma_play_unmarked(c);
    lemma_coop_unmarked(c, difficulty_lower);
}

proof fn lemma_opening_unmarked(c: ServerConfigView, style_lower: Seq<char>)
    ensures
        forall|j: int|
            0 <= j < script_opening(c, style_lower).len() ==> !marked(
                #[trigger] script_opening(c, style_lower)[j],
            ),
{
    reveal_strlit("sessionname \"");
    reveal_strlit("style ");
    let s = script_opening(c, style_lower);
    assert(s[0][0] == 's' && s[1][0] == 's');
}

proof fn lemma_maps_unmarked(maps: Seq<Seq<char>>)
    ensures
        forall|j: int| 0 <= j < map_lines(maps).len() ==> !marked(#[trigger] map_lines(maps)[j]),
{
    reveal_strlit("mapname ");
    assert forall|j: int| 0 <= j < map_lines(maps).len() implies !marked(
        #[trigger] map_lines(maps)[j],
    ) by {
        assert(map_lines(maps)[j][0] == 'm');
    }
}

proof fn lemma_access_unmarked(c: ServerConfigView)
    ensures
        forall|j: int|
            0 <= j < script_access(c).len() ==> !marked(#[trigger] script_access(c)[j]),
{
    reveal_strlit("password \"");
    reveal_strlit("adminpass \"");
    let s = script_access(c);
    assert(s[0][0] == 'p' && s[0][1] == 'a');
    if c.admin_pass.len() > 0 {
        assert(s[1][0] == 'a');
    }
}

proof fn lemma_network(port: u16, domain_lower: Seq<char>)
    ensures
        ({
            let s = script_network(port, domain_lower);
            &&& !marked(s[0])
            &&& !marked(s[1])
            &&& domain_lower == "local"@ ==> s.len() == 2
            &&& domain_lower != "local"@ ==> s.len() == 3 && s[2] == "port "@ + decimal(port as nat)
                && starts_with(s[2], "port "@)
        }),
{
    reveal_strlit("domain ");
    reveal_strlit("dedicated 1");
    reveal_strlit("port ");
    let s = script_network(port, domain_lower);
    assert(s[0][0] == 'd' && s[1][0] == 'd');
    if domain_lower != "local"@ {
        assert(s[2].subrange(0, 5) =~= "port "@);
    }
}

proof fn lemma_closing(c: ServerConfigView)
    ensures
        ({
            let s = script_closing(c);
            &&& c.voice_chat == 0 ==> s.len() == 1 && !marked(s[0])
            &&& c.voice_chat != 0 ==> s.len() == 2 && !marked(s[1]) && starts_with(
                s[0],
                "voicechat "@,
            ) && Some(s[0]) == match voice_codec(c.voice_chat) {
                Some(token) => Some("voicechat "@ + token),
                None => None,
            }
        }),
{
    reveal_strlit("voicechat ");
    reveal_strlit("server");
    let s = script_closing(c);
    if c.voice_chat == 0 {
        assert(s[0][0] == 's');
    } else {
        assert(s[1][0] == 's');
        assert(s[0].subrange(0, 10) =~= "voicechat "@);
    }
}

/// Where the port directive stands in a script with `maps` maps, if it has one.
pub open spec fn port_position(maps: nat) -> int {
    4 + maps as int
}

/// On the local domain no line of the script begins with the port directive. On any other
/// domain exactly one does: it stands after the domain and the dedicated-mode flag, and
/// names the server's port.
pub proof fn port_directive_law(
    port: u16,
    c: ServerConfigView,
    style_lower: Seq<char>,
    domain_lower: Seq<char>,
    difficulty_lower: Seq<char>,
)
    ensures
        ({
            let lines = script_lines(port, c, style_lower, domain_lower, difficulty_lower);
            let at = port_position(c.maps.len());
            &&& forall|i: int|
                0 <= i < lines.len() && starts_with(#[trigger] lines[i], "port "@) ==> domain_lower
                    != "local"@ && i == at
            &&& domain_lower != "local"@ ==> at < lines.len() && lines[at] == "port "@ + decimal(
                port as nat,
            ) && starts_with(lines[at], "port "@)
        }),
{
    let lines = script_lines(port, c, style_lower, domain_lower, difficulty_lower);
    lemma_opening_unmarked(c, style_lower);
    lemma_maps_unmarked(c.maps);
    lemma_network(port, domain_lower);
    lemma_access_unmarked(c);
    lemma_rules_unmarked(c, difficulty_lower);
    lemma_closing(c);
    reveal_strlit("port ");
    reveal_strlit("voicechat ");
    let a = script_opening(c, style_lower);
    let m = map_lines(c.maps);
    let n = script_network(port, domain_lower);
    let x = script_access(c);
    let r = script_rules(c, difficulty_lower);
    let z = script_closing(c);
    assert forall|i: int|
        0 <= i < lines.len() && starts_with(#[trigger] lines[i], "port "@) implies domain_lower
        != "local"@ && i == port_position(c.maps.len()) by {
        lemma_leads(lines[i], "port "@);
        if i < a.len() {
            assert(lines[i] == a[i]);
        } else if i < a.len() + m.len() {
            assert(lines[i] == m[i - a.len()]);
        } else if i < a.len() + m.len() + n.len() {
            assert(lines[i] == n[i - a.len() - m.len()]);
        } else if i < a.len() + m.len() + n.len() + x.len() {
            assert(lines[i] == x[i - a.len() - m.len() - n.len()]);
        } else if i < a.len() + m.len() + n.len() + x.len() + r.len() {
            assert(lines[i] == r[i - a.len() - m.len() - n.len() - x.len()]);
        } else {
            let k = i - a.len() - m.len() - n.len() - x.len() - r.len();
            assert(lines[i] == z[k]);
            if c.voice_chat != 0 && k == 0 {
                lemma_leads(z[0], "voicechat "@);
            }
        }
    }
    if domain_lower != "local"@ {
        assert(lines[port_position(c.maps.len())] == n[2]);
    }
}

/// A voice setting of zero leaves the voice directive out altogether. Any other setting
/// gives exactly one, with the codec's token, as the last line but one.
pub proof fn voice_directive_law(
    port: u16,
    c: ServerConfigView,
    style_lower: Seq<char>,
    domain_lower: Seq<char>,
    difficulty_lower: Seq<char>,
)
    ensures
        ({
            let lines = script_lines(port, c, style_lower, domain_lower, difficulty_lower);
            &&& forall|i: int|
                0 <= i < lines.len() && starts_with(#[trigger] lines[i], "voicechat "@)
                    ==> c.voice_chat != 0 && i == lines.len() - 2
            &&& c.voice_chat != 0 ==> lines.len() >= 2 && starts_with(
                lines[lines.len() - 2],
                "voicechat "@,
            ) && Some(lines[lines.len() - 2]) == match voice_codec(c.voice_chat) {
                Some(token) => Some("voicechat "@ + token),
                None => None,
            }
        }),
{
    let lines = script_lines(port, c, style_lower, domain_lower, difficulty_lower);
    lemma_opening_unmarked(c, style_lower);
    lemma_maps_unmarked(c.maps);
    lemma_network(port, domain_lower);
    lemma_access_unmarked(c);
    lemma_rules_unmarked(c, difficulty_lower);
    lemma_closing(c);
    reveal_strlit("port ");
    reveal_strlit("voicechat ");
    let a = script_opening(c, style_lower);
    let m = map_lines(c.maps);
    let n = script_network(port, domain_lower);
    let x = script_access(c);
    let r = script_rules(c, difficulty_lower);
    let z = script_closing(c);
    assert forall|i: int|
        0 <= i < lines.len() && starts_with(
            #[trigger] lines[i],
            "voicechat "@,
        ) implies c.voice_chat != 0 && i == lines.len() - 2 by {
        lemma_leads(lines[i], "voicechat "@);
        if i < a.len() {
            assert(lines[i] == a[i]);
        } else if i < a.len() + m.len() {
            assert(lines[i] == m[i - a.len()]);
        } else if i < a.len() + m.len() + n.len() {
            let k = i - a.len() - m.len();
            assert(lines[i] == n[k]);
            if k == 2 {
                lemma_leads(n[2], "port "@);
            }
        } else if i < a.len() + m.len() + n.len() + x.len() {
            assert(lines[i] == x[i - a.len() - m.len() - n.len()]);
        } else if i < a.len() + m.len() + n.len() + x.len() + r.len() {
            assert(lines[i] == r[i - a.len() - m.len() - n.len() - x.len()]);
        } else {
            assert(lines[i] == z[i - a.len() - m.len() - n.len() - x.len() - r.len()]);
        }
    }
    if c.voice_chat != 0 {
        assert(lines[lines.len() - 2] == z[0]);
    }
}

fn push_line(lines: &mut Vec<String>, line: String)
    ensures
        texts(final(lines)@) == texts(old(lines)@).push(line@),
{
    lines.push(line);
    assert(texts(lines@) =~= texts(old(lines)@).push(line@));
}

fn directive(key: &str, value: &str) -> (r: String)
    ensures
        r@ == key@ + value@,
{
    let mut r = String::from_str(key);
    r.append(value);
    r
}

fn quoted_directive(key: &str, value: &str) -> (r: String)
    ensures
        r@ == key@ + value@ + "\""@,
{
    let mut r = String::from_str(key);
    r.append(value);
    r.append("\"");
    r
}

fn number_directive(key: &str, n: u64) -> (r: String)
    ensures
        r@ == key@ + decimal(n as nat),
{
    let mut r = String::from_str(key);
    push_decimal(&mut r, n);
    r
}

fn flag_directive(key: &str, on: bool) -> (r: String)
    ensures
        r@ == key@ + flag(on),
{
    let mut r = String::from_str(key);
    if on {
        r.append("1");
    } else {
        r.append("0");
    }
    r
}

/// The number of lives as the script writes it.
pub fn lives_value(respawn_number: i32) -> (r: String)
    ensures
        r@ == lives_text(respawn_number),
{
    if respawn_number == 0 {
        String::from_str("-1")
    } else {
        let mut r = String::new();
        push_signed(&mut r, respawn_number);
        assert(r@ =~= signed_decimal(respawn_number as int));
        r
    }
}

/// The difficulty tier for a difficulty given in lower case.
pub fn tier_of(difficulty_lower: &str) -> (r: &'static str)
    ensures
        r@ == difficulty_tier(difficulty_lower@),
{
    if text_is(difficulty_lower, "easy") {
        "1"
    } else if text_is(difficulty_lower, "normal") {
        "2"
    } else if text_is(difficulty_lower, "hard") {
        "3"
    } else if text_is(difficulty_lower, "very hard") {
        "4"
    } else {
        "3"
    }
}

/// The codec's token for a voice setting.
pub fn voice_token(setting: u8) -> (r: Option<&'static str>)
    ensures
        match r {
            Some(token) => voice_codec(setting) == Some(token@),
            None => voice_codec(setting) is None,
        },
        setting == 0 <==> r is None,
{
    if setting == 0 {
        None
    } else if setting == 1 {
        Some("vr12")
    } else if setting == 2 {
        Some("sc03")
    } else if setting == 3 {
        Some("sc06")
    } else if setting == 4 {
        Some("truespeech")
    } else if setting == 5 {
        Some("gsm")
    } else if setting == 6 {
        Some("adpcm")
    } else if setting == 7 {
        Some("pcm")
    } else {
        Some("none")
    }
}

fn push_maps(lines: &mut Vec<String>, maps: &Vec<String>)
    ensures
        texts(final(lines)@) == texts(old(lines)@) + map_lines(texts(maps@)),
{
    let mut i: usize = 0;
    assert(texts(lines@) =~= texts(old(lines)@) + map_lines(texts(maps@)).take(0));
    while i < maps.len()
        invariant
            i <= maps.len(),
            texts(lines@) == texts(old(lines)@) + map_lines(texts(maps@)).take(i as int),
        decreases maps.len() - i,
    {
        let ghost before = texts(lines@);
        push_line(lines, directive("mapname ", maps[i].as_str()));
        proof {
            let all = map_lines(texts(maps@));
            assert(all[i as int] == "mapname "@ + maps@[i as int]@);
            assert(all.take(i + 1) =~= all.take(i as int).push(all[i as int]));
            assert(texts(lines@) =~= texts(old(lines)@) + all.take(i + 1));
        }
        i += 1;
    }
    assert(map_lines(texts(maps@)).take(maps.len() as int) =~= map_lines(texts(maps@)));
}

fn push_limits(lines: &mut Vec<String>, c: &ServerConfig)
    ensures
        texts(final(lines)@) == texts(old(lines)@) + script_limits(c@),
{
    push_line(lines, number_directive("maxclients ", c.max_clients as u64));
    push_line(lines, number_directive("pointlimit ", c.point_limit as u64));
    push_line(lines, number_directive("roundlimit ", c.round_limit as u64));
    push_line(lines, number_directive("roundcount ", c.round_count as u64));
    push_line(lines, number_directive("warmup ", c.warmup as u64));
    push_line(lines, number_directive("respawntime ", c.respawn_time as u64));
    assert(texts(lines@) =~= texts(old(lines)@) + script_limits(c@));
}

fn push_team(lines: &mut Vec<String>, c: &ServerConfig)
    ensures
        texts(final(lines)@) == texts(old(lines)@) + script_team(c@),
{
    push_line(lines, flag_directive("allowrespawn ", c.allow_respawn));
    push_line(lines, flag_directive("friendlyfire ", c.friendly_fire));
    push_line(lines, flag_directive("autoteambalance ", c.auto_team_balance));
    push_line(lines, flag_directive("3rdpersonview ", c.third_person_view));
    assert(texts(lines@) =~= texts(old(lines)@) + script_team(c@));
}

fn push_play(lines: &mut Vec<String>, c: &ServerConfig)
    ensures
        texts(final(lines)@) == texts(old(lines)@) + script_play(c@),
{
    push_line(lines, number_directive("spawnprotection ", c.spawn_protection as u64));
    push_line(lines, number_directive("inversedamage ", c.inverse_damage as u64));
    push_line(lines, flag_directive("fallingdmg ", c.falling_dmg));
    push_line(lines, number_directive("maxfreq ", c.max_freq as u64));
    push_line(lines, number_directive("maxping ", c.max_ping as u64));
    push_line(lines, number_directive("maxinactivity ", c.max_inactivity as u64));
    push_line(lines, flag_directive("allowvehicles ", c.allow_vehicles));
    assert(texts(lines@) =~= texts(old(lines)@) + script_play(c@));
}

fn push_coop(lines: &mut Vec<String>, c: &ServerConfig, difficulty_lower: &str)
    ensures
        texts(final(lines)@) == texts(old(lines)@) + script_coop(c@, difficulty_lower@),
{
    push_line(lines, String::from_str("autorestart 0"));
    push_line(lines, directive("coopdifficulty ", tier_of(difficulty_lower)));
    let lives = lives_value(c.respawn_number);
    push_line(lines, directive("cooplives ", lives.as_str()));
    push_line(lines, flag_directive("allowcrosshair ", c.allow_crosshair));
    push_line(lines, String::from_str("spawnonstart 0"));
    push_line(lines, flag_directive("teamlives ", c.team_respawn));
    assert(texts(lines@) =~= texts(old(lines)@) + script_coop(c@, difficulty_lower@));
}

fn push_rules(lines: &mut Vec<String>, c: &ServerConfig, difficulty_lower: &str)
    ensures
        texts(final(lines)@) == texts(old(lines)@) + script_rules(c@, difficulty_lower@),
{
    push_limits(lines, c);
    push_team(lines, c);
    push_play(lines, c);
    push_coop(lines, c, difficulty_lower);
    assert(texts(lines@) =~= texts(old(lines)@) + script_rules(c@, difficulty_lower@));
}

/// The script for a server on `port` with profile `config`, given the profile's style,
/// domain and difficulty in lower case.
pub fn compose_script(
    port: u16,
    config: &ServerConfig,
    style_lower: &str,
    domain_lower: &str,
    difficulty_lower: &str,
) -> (script: Vec<String>)
    ensures
        texts(script@) == script_lines(
            port,
            config@,
            style_lower@,
            domain_lower@,
            difficulty_lower@,
        ),
{
    let mut lines: Vec<String> = Vec::new();
    assert(texts(lines@) =~= Seq::<Seq<char>>::empty());
    push_line(&mut lines, quoted_directive("sessionname \"", config.session_name.as_str()));
    push_line(&mut lines, directive("style ", style_lower));
    assert(texts(lines@) =~= script_opening(config@, style_lower@));
    push_maps(&mut lines, &config.maps);
    let ghost upto_maps = texts(lines@);
    push_line(&mut lines, directive("domain ", domain_lower));
    push_line(&mut lines, String::from_str("dedicated 1"));
    if !text_is(domain_lower, "local") {
        push_line(&mut lines, number_directive("port ", port as u64));
    }
    assert(texts(lines@) =~= upto_maps + script_network(port, domain_lower@));
    let ghost upto_network = texts(lines@);
    push_line(&mut lines, quoted_directive("password \"", config.password.as_str()));
    if !config.admin_pass.as_str().is_empty() {
        push_line(&mut lines, quoted_directive("adminpass \"", config.admin_pass.as_str()));
    }
    assert(texts(lines@) =~= upto_network + script_access(config@));
    push_rules(&mut lines, config, difficulty_lower);
    let ghost upto_rules = texts(lines@);
    match voice_token(config.voice_chat) {
        Some(token) => {
            push_line(&mut lines, directive("voicechat ", token));
        },
        None => {},
    }
    push_line(&mut lines, String::from_str("server"));
    assert(texts(lines@) =~= upto_rules + script_closing(config@));
    lines
}

/// The start-up script for `server` with profile `config`.
///
/// Style, domain and difficulty are written in lower case, as `str::to_lowercase` gives
/// them; all else follows [`script_lines`].
pub fn build_ds_script(server: &Server, config: &ServerConfig) -> (script: Vec<String>)
    ensures
        texts(script@) == script_lines(
            server.port,
            config@,
            lowercase_of(config.style@),
            lowercase_of(config.domain@),
            lowercase_of(config.difficulty@),
        ),
{
    let style_lower = to_lowercase(config.style.as_str());
    let domain_lower = to_lowercase(config.domain.as_str());
    let difficulty_lower = to_lowercase(config.difficulty.as_str());
    compose_script(
        server.port,
        config,
        style_lower.as_str(),
        domain_lower.as_str(),
        difficulty_lower.as_str(),
    )
}

} // verus!
