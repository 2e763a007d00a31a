//! One tick of access control for one server: who has joined, who is forgiven, who is
//! kicked and what the console is told.
//!
//! The caller reads the roster and finds the console window; this module decides. It
//! never learns whether a kick took effect: the console gives no answer. So a kick is
//! issued once, the name is remembered, and the name is forgotten again when the player
//! is gone.

use vstd::prelude::*;
use vstd::string::StringExecFns;
use crate::decimal::{decimal, push_decimal};
use crate::inject::{command_keystrokes, keystrokes, InputStep, KICK_DELAY_MS};
use crate::kicked::{name_set, KickedNames};
use crate::policy::{
    asay_message_for_kick, enforcement_needed, judge, needs_enforcement, notice, verdict,
    verdict_entry, KickReason, Verdict,
};
use crate::roster::{get_player_list, lemma_occupied, occupied, PlayerSlot, PlayerSlotView};
use crate::server::{views, ServerConfig, ServerConfigView, ServerManager, ServerManagerView};
use crate::text::{from_chars, texts, to_chars, trim, trimmed};

verus! {

/// Why a tick could not be made.
#[derive(Debug, Clone, Copy, PartialEq, Eq, Structural)]
pub enum EnforceError {
    /// The process could not be opened, or its roster could not be read.
    ProcessUnreadable,
}

/// A player who is kicked.
#[derive(Debug)]
pub struct Kick {
    /// The slot that the player holds.
    pub slot: usize,
    pub name: String,
    pub ip: String,
    pub reason: KickReason,
    /// The ban entry that matched, for a ban.
    pub entry: Option<String>,
}

/// What a [`Kick`] holds, as plain values.
pub struct KickView {
    pub slot: usize,
    pub name: Seq<char>,
    pub ip: Seq<char>,
    pub reason: KickReason,
    pub entry: Option<Seq<char>>,
}

impl View for Kick {
    type V = KickView;

    open spec fn view(&self) -> KickView {
        KickView {
            slot: self.slot,
            name: self.name@,
            ip: self.ip@,
            reason: self.reason,
            entry: match self.entry {
                Some(e) => Some(e@),
                None => None,
            },
        }
    }
}

impl KickView {
    /// What the players are told.
    pub open spec fn notice(self) -> Seq<char> {
        notice(self.name, self.reason, self.entry)
    }

    /// The console command that tells the players.
    pub open spec fn say_command(self) -> Seq<char> {
        "asay "@ + self.notice()
    }

    /// The console command that kicks the player, by name.
    pub open spec fn kick_command(self) -> Seq<char> {
        "kickplayer "@ + trim(self.name)
    }

    /// The input for the console: the notice, a pause, the kick.
    pub open spec fn steps(self) -> Seq<InputStep> {
        keystrokes(self.say_command()) + seq![InputStep::Pause(KICK_DELAY_MS)] + keystrokes(
            self.kick_command(),
        )
    }

    /// The reason in words, as the log has it.
    pub open spec fn reason_text(self) -> Seq<char> {
        match self.reason {
            KickReason::NotInWhitelist => "not in whitelist"@,
            KickReason::ForcedBan => "forced_ban list (entry: "@ + self.entry_text() + ")"@,
            KickReason::Ban => "ban list (entry: "@ + self.entry_text() + ")"@,
        }
    }

    /// The matching entry as the log shows it; nothing where there is none.
    pub open spec fn entry_text(self) -> Seq<char> {
        match self.entry {
            Some(e) => e,
            None => Seq::empty(),
        }
    }

    /// The line that the log gets for the kick.
    pub open spec fn log_line(self) -> Seq<char> {
        "[DS-Helper] KICK slot "@ + decimal(self.slot as nat) + " \""@ + self.name + "\" ("@
            + self.ip + ") reason: "@ + self.reason_text()
    }
}

impl Kick {
    /// What the players are told.
    pub fn notice(&self) -> (r: String)
        ensures
            r@ == self@.notice(),
    {
        match &self.entry {
            Some(e) => asay_message_for_kick(self.name.as_str(), self.reason, Some(e.as_str())),
            None => asay_message_for_kick(self.name.as_str(), self.reason, None),
        }
    }

    /// The console command that tells the players.
    pub fn say_command(&self) -> (r: String)
        ensures
            r@ == self@.say_command(),
    {
        let mut r = String::from_str("asay ");
        r.append(self.notice().as_str());
        r
    }

    /// The console command that kicks the player, by name.
    pub fn kick_command(&self) -> (r: String)
        ensures
            r@ == self@.kick_command(),
    {
        let chars = to_chars(self.name.as_str());
        let who = trimmed(&chars);
        let mut r = String::from_str("kickplayer ");
        r.append(from_chars(&who).as_str());
        r
    }

    /// The input for the console: the notice, a pause, the kick.
    pub fn steps(&self) -> (r: Vec<InputStep>)
        ensures
            r@ == self@.steps(),
    {
        let mut r = command_keystrokes(self.say_command().as_str());
        r.push(InputStep::Pause(KICK_DELAY_MS));
        let ghost head = r@;
        let tail = command_keystrokes(self.kick_command().as_str());
        let mut i: usize = 0;
        while i < tail.len()
            invariant
                i <= tail.len(),
                r@ == head + tail@.take(i as int),
            decreases tail.len() - i,
        {
            r.push(tail[i]);
            assert(r@ =~= head + tail@.take(i + 1));
            i += 1;
        }
        assert(tail@.take(tail.len() as int) =~= tail@);
        assert(r@ =~= self@.steps());
        r
    }

    /// The line that the log gets for the kick.
    pub fn log_line(&self) -> (r: String)
        ensures
            r@ == self@.log_line(),
    {
        let mut r = String::from_str("[DS-Helper] KICK slot ");
        push_decimal(&mut r, self.slot as u64);
        r.append(" \"");
        r.append(self.name.as_str());
        r.append("\" (");
        r.append(self.ip.as_str());
        r.append(") reason: ");
        match self.reason {
            KickReason::NotInWhitelist => {
                r.append("not in whitelist");
            },
            KickReason::ForcedBan => {
                r.append("forced_ban list (entry: ");
                match &self.entry {
                    Some(e) => {
                        r.append(e.as_str());
                    },
                    None => {},
                }
                r.append(")");
            },
            KickReason::Ban => {
                r.append("ban list (entry: ");
                match &self.entry {
                    Some(e) => {
                        r.append(e.as_str());
                    },
                    None => {},
                }
                r.append(")");
            },
        }
        assert(r@ =~= self@.log_line());
        r
    }
}

/// The line that the log gets for a player who has joined.
pub open spec fn joined_text(slot: PlayerSlotView) -> Seq<char> {
    "[DS-Helper] player joined: \""@ + slot.name + "\" ("@ + slot.ip + ")"@
}

/// The line that the log gets for a player who has joined.
pub fn joined_line(slot: &PlayerSlot) -> (r: String)
    ensures
        r@ == joined_text(slot@),
{
    let mut r = String::from_str("[DS-Helper] player joined: \"");
    r.append(slot.name.as_str());
    r.append("\" (");
    r.append(slot.ip.as_str());
    r.append(")");
    r
}

/// The line that the log gets when a server's console window is not found.
pub open spec fn window_warning_text(port: u16) -> Seq<char> {
    "[DS-Helper] port "@ + decimal(port as nat)
        + ": Could not find DS window (kick command will not be sent)"@
}

/// The line that the log gets when a server's console window is not found.
pub fn window_warning(port: u16) -> (r: String)
    ensures
        r@ == window_warning_text(port),
{
    let mut r = String::from_str("[DS-Helper] port ");
    push_decimal(&mut r, port as u64);
    r.append(": Could not find DS window (kick command will not be sent)");
    r
}

/// The line that the log gets when a tick fails.
pub open spec fn failure_text(port: u16, error: EnforceError) -> Seq<char> {
    "[DS-Helper] port "@ + decimal(port as nat) + match error {
        EnforceError::ProcessUnreadable => ": process unreadable"@,
    }
}

/// The line that the log gets when a tick fails.
pub fn failure_line(port: u16, error: EnforceError) -> (r: String)
    ensures
        r@ == failure_text(port, error),
{
    let mut r = String::from_str("[DS-Helper] port ");
    push_decimal(&mut r, port as u64);
    match error {
        EnforceError::ProcessUnreadable => {
            r.append(": process unreadable");
        },
    }
    r
}

/// The names of the players in a list.
pub open spec fn names_of(players: Seq<PlayerSlotView>) -> Seq<Seq<char>> {
    Seq::new(players.len(), |i: int| players[i].name)
}

/// The kicked names that are kept: those of players who are still connected. A player who
/// has left is forgiven, and is judged afresh on return.
pub open spec fn pruned(kicked: Set<Seq<char>>, connected: Seq<PlayerSlotView>) -> Set<Seq<char>> {
    kicked.intersect(name_set(names_of(connected)))
}

/// Those of `connected` that are not in `previous`, by name and address, in order.
pub open spec fn joined(connected: Seq<PlayerSlotView>, previous: Seq<PlayerSlotView>) -> Seq<
    PlayerSlotView,
>
    decreases connected.len(),
{
    if connected.len() == 0 {
        Seq::empty()
    } else if previous.contains(connected.last()) {
        joined(connected.drop_last(), previous)
    } else {
        joined(connected.drop_last(), previous).push(connected.last())
    }
}

/// The kick that a verdict means for the player in slot `slot`.
pub open spec fn kick_of(
    slot: int,
    player: PlayerSlotView,
    m: ServerManagerView,
    c: ServerConfigView,
) -> KickView {
    let v = verdict(player.ip, m, c).unwrap();
    KickView {
        slot: slot as usize,
        name: player.name,
        ip: trim(player.ip),
        reason: v.reason,
        entry: verdict_entry(v, m, c),
    }
}

/// Whether the player in the last slot of `roster` is kicked, given the names kicked so
/// far: the slot is held, the name was not kicked yet, and a rule applies.
pub open spec fn kicks_last(
    roster: Seq<PlayerSlotView>,
    kicked: Set<Seq<char>>,
    m: ServerManagerView,
    c: ServerConfigView,
) -> bool {
    roster.len() > 0 && roster.last().name.len() > 0 && !kicked.contains(roster.last().name)
        && verdict(roster.last().ip, m, c) is Some
}

/// The kick phase over a roster, slot after slot: the kicks in order, and the kicked
/// names afterwards. A name is kicked once, even if it holds two slots.
pub open spec fn kick_scan(
    roster: Seq<PlayerSlotView>,
    kicked: Set<Seq<char>>,
    m: ServerManagerView,
    c: ServerConfigView,
) -> (Seq<KickView>, Set<Seq<char>>)
    decreases roster.len(),
{
    if roster.len() == 0 {
        (Seq::empty(), kicked)
    } else {
        let before = kick_scan(roster.drop_last(), kicked, m, c);
        if kicks_last(roster, before.1, m, c) {
            (
                before.0.push(kick_of(roster.len() - 1, roster.last(), m, c)),
                before.1.insert(roster.last().name),
            )
        } else {
            before
        }
    }
}

/// What a tick decides about kicks, and the kicked names after it, given whether the
/// console window was found. Names of players who have left are forgotten first. Without
/// a rule in force, or without a window, nobody is kicked.
pub open spec fn tick_kicks(
    roster: Seq<PlayerSlotView>,
    kicked: Set<Seq<char>>,
    m: ServerManagerView,
    c: ServerConfigView,
    window_found: bool,
) -> (Seq<KickView>, Set<Seq<char>>) {
    let kept = pruned(kicked, occupied(roster));
    if enforcement_needed(m, c) && window_found {
        kick_scan(roster, kept, m, c)
    } else {
        (Seq::empty(), kept)
    }
}

/// What one tick found and decided.
#[derive(Debug)]
pub struct Enforcement {
    /// The connected players: the snapshot for the next tick.
    pub connected: Vec<PlayerSlot>,
    /// The players who were not connected at the last tick.
    pub joined: Vec<PlayerSlot>,
    /// Whether kicks were due to be looked for but the console window was not found.
    pub window_missing: bool,
    /// The players to kick, in the order of their slots.
    pub kicks: Vec<Kick>,
}

fn is_among(slot: &PlayerSlot, list: &Vec<PlayerSlot>) -> (r: bool)
    ensures
        r == views(list@).contains(slot@),
{
    let mut i: usize = 0;
    while i < list.len()
        invariant
            i <= list.len(),
            forall|j: int| 0 <= j < i ==> views(list@)[j] != slot@,
        decreases list.len() - i,
    {
        if list[i].name == slot.name && list[i].ip == slot.ip {
            assert(views(list@)[i as int] == slot@);
            return true;
        }
        assert(views(list@)[i as int] != slot@);
        i += 1;
    }
    false
}

fn newly_joined(connected: &Vec<PlayerSlot>, previous: &Vec<PlayerSlot>) -> (r: Vec<PlayerSlot>)
    ensures
        views(r@) == joined(views(connected@), views(previous@)),
{
    let mut r: Vec<PlayerSlot> = Vec::new();
    let mut i: usize = 0;
    assert(views(connected@).take(0) =~= Seq::<PlayerSlotView>::empty());
    assert(views(r@) =~= Seq::<PlayerSlotView>::empty());
    while i < connected.len()
        invariant
            i <= connected.len(),
            views(r@) == joined(views(connected@).take(i as int), views(previous@)),
        decreases connected.len() - i,
    {
        proof {
            let upto = views(connected@).take(i + 1);
            assert(upto.drop_last() =~= views(connected@).take(i as int));
            assert(upto.last() == connected@[i as int]@);
        }
        if !is_among(&connected[i], previous) {
            let ghost before = views(r@);
            r.push(connected[i].copy());
            assert(views(r@) =~= before.push(connected@[i as int]@));
        }
        i += 1;
    }
    assert(views(connected@).take(connected.len() as int) =~= views(connected@));
    r
}

fn names_in(players: &Vec<PlayerSlot>) -> (r: Vec<String>)
    ensures
        texts(r@) == names_of(views(players@)),
{
    let mut r: Vec<String> = Vec::new();
    let mut i: usize = 0;
    while i < players.len()
        invariant
            i <= players.len(),
            r@.len() == i,
            forall|j: int| 0 <= j < i ==> (#[trigger] r@[j])@ == players@[j].name@,
        decreases players.len() - i,
    {
        r.push(players[i].name.clone());
        i += 1;
    }
    assert(texts(r@) =~= names_of(views(players@)));
    r
}

fn entry_of(
    reason: KickReason,
    entry: Option<usize>,
    manager: &ServerManager,
    config: &ServerConfig,
) -> (r: Option<String>)
    ensures
        (match r {
            Some(e) => Some(e@),
            None => None,
        }) == verdict_entry(Verdict { reason, entry }, manager@, config@),
{
    match entry {
        Some(i) => match reason {
            KickReason::ForcedBan => if i < manager.forced_ban_list.len() {
                Some(manager.forced_ban_list[i].clone())
            } else {
                None
            },
            KickReason::Ban => if i < config.ban_list.len() {
                Some(config.ban_list[i].clone())
            } else {
                None
            },
            KickReason::NotInWhitelist => None,
        },
        None => None,
    }
}

fn kick_phase(
    roster: &Vec<PlayerSlot>,
    config: &ServerConfig,
    manager: &ServerManager,
    kicked: &mut KickedNames,
) -> (kicks: Vec<Kick>)
    ensures
        (views(kicks@), final(kicked)@) == kick_scan(
            views(roster@),
            old(kicked)@,
            manager@,
            config@,
        ),
{
    let mut kicks: Vec<Kick> = Vec::new();
    let mut i: usize = 0;
    assert(views(roster@).take(0) =~= Seq::<PlayerSlotView>::empty());
    assert(views(kicks@) =~= Seq::<KickView>::empty());
    while i < roster.len()
        invariant
            i <= roster.len(),
            (views(kicks@), kicked@) == kick_scan(
                views(roster@).take(i as int),
                old(kicked)@,
                manager@,
                config@,
            ),
        decreases roster.len() - i,
    {
        let player = &roster[i];
        proof {
            let upto = views(roster@).take(i + 1);
            assert(upto.drop_last() =~= views(roster@).take(i as int));
            assert(upto.last() == player@);
        }
        if player.is_occupied() && !kicked.contains(player.name.as_str()) {
            match judge(player.ip.as_str(), manager, config) {
                Some(v) => {
                    let address = to_chars(player.ip.as_str());
                    let kick = Kick {
                        slot: i,
                        name: player.name.clone(),
                        ip: from_chars(&trimmed(&address)),
                        reason: v.reason,
                        entry: entry_of(v.reason, v.entry, manager, config),
                    };
                    assert(kick@ == kick_of(i as int, player@, manager@, config@));
                    let ghost before = views(kicks@);
                    kicks.push(kick);
                    assert(views(kicks@) =~= before.push(kick@));
                    kicked.insert(player.name.as_str());
                },
                None => {},
            }
        }
        i += 1;
    }
    assert(views(roster@).take(roster.len() as int) =~= views(roster@));
    kicks
}

/// The previous snapshot as a list: empty where there is none.
pub open spec fn snapshot_of(previous: Option<&Vec<PlayerSlot>>) -> Seq<PlayerSlotView> {
    match previous {
        Some(p) => views(p@),
        None => Seq::empty(),
    }
}

/// One tick of access control for the server on `port`.
///
/// `roster` is what was read from the process, or nothing if the process could not be
/// opened or read: then the tick fails and changes nothing. `previous` is the snapshot
/// that the last tick returned. `window_found` says whether the console window is there;
/// it matters only when [`needs_enforcement`] holds.
pub fn enforce_player_lists(
    roster: Option<&Vec<PlayerSlot>>,
    config: &ServerConfig,
    manager: &ServerManager,
    kicked: &mut KickedNames,
    previous: Option<&Vec<PlayerSlot>>,
    window_found: bool,
) -> (r: Result<Enforcement, EnforceError>)
    ensures
        roster is None <==> r is Err,
        match r {
            Ok(e) => {
                let slots = views(roster.unwrap()@);
                &&& views(e.connected@) == occupied(slots)
                &&& views(e.joined@) == joined(occupied(slots), snapshot_of(previous))
                &&& e.window_missing == (enforcement_needed(manager@, config@) && !window_found)
                &&& (views(e.kicks@), final(kicked)@) == tick_kicks(
                    slots,
                    old(kicked)@,
                    manager@,
                    config@,
                    window_found,
                )
            },
            Err(error) => error == EnforceError::ProcessUnreadable && final(kicked)@ == old(
                kicked,
            )@,
        },
{
    let slots = match roster {
        Some(slots) => slots,
        None => {
            return Err(EnforceError::ProcessUnreadable);
        },
    };
    let connected = get_player_list(slots);
    let joined = match previous {
        Some(p) => newly_joined(&connected, p),
        None => {
            let nobody: Vec<PlayerSlot> = Vec::new();
            assert(views(nobody@) =~= Seq::<PlayerSlotView>::empty());
            newly_joined(&connected, &nobody)
        },
    };
    let names = names_in(&connected);
    kicked.retain_among(&names);
    let needed = needs_enforcement(manager, config);
    let kicks = if needed && window_found {
        kick_phase(slots, config, manager, kicked)
    } else {
        let none: Vec<Kick> = Vec::new();
        assert(views(none@) =~= Seq::<KickView>::empty());
        none
    };
    Ok(Enforcement { connected, joined, window_missing: needed && !window_found, kicks })
}


/// Whether one of `kicks` is for the name `n`.
pub open spec fn kicks_name(kicks: Seq<KickView>, n: Seq<char>) -> bool {
    exists|j: int| 0 <= j < kicks.len() && (#[trigger] kicks[j]).name == n
}

/// Whether a player named `n` holds a slot of `roster` and a rule applies to the player's
/// address.
pub open spec fn condemned(
    roster: Seq<PlayerSlotView>,
    n: Seq<char>,
    m: ServerManagerView,
    c: ServerConfigView,
) -> bool {
    exists|i: int|
        0 <= i < roster.len() && (#[trigger] roster[i]).name == n && n.len() > 0 && verdict(
            roster[i].ip,
            m,
            c,
        ) is Some
}

/// What the kick phase comes to: the kicked names afterwards are those from before and
/// those of the kicks; nobody is kicked whose name was kicked before, or to whom no rule
/// applies; and everybody to whom a rule applies is among the kicked names afterwards.
pub proof fn lemma_kick_scan(
    roster: Seq<PlayerSlotView>,
    kicked: Set<Seq<char>>,
    m: ServerManagerView,
    c: ServerConfigView,
)
    ensures
        ({
            let scan = kick_scan(roster, kicked, m, c);
            &&& forall|n: Seq<char>|
                #![trigger scan.1.contains(n)]
                #![trigger kicks_name(scan.0, n)]
                scan.1.contains(n) <==> kicked.contains(n) || kicks_name(scan.0, n)
            &&& forall|n: Seq<char>|
                #![trigger kicks_name(scan.0, n)]
                kicks_name(scan.0, n) ==> !kicked.contains(n) && condemned(roster, n, m, c)
            &&& forall|n: Seq<char>|
                #![trigger condemned(roster, n, m, c)]
                condemned(roster, n, m, c) ==> scan.1.contains(n)
        }),
    decreases roster.len(),
{
    let scan = kick_scan(roster, kicked, m, c);
    if roster.len() > 0 {
        let shorter = roster.drop_last();
        let before = kick_scan(shorter, kicked, m, c);
        let last = roster.last();
        lemma_kick_scan(shorter, kicked, m, c);
        assert forall|n: Seq<char>| kicks_name(before.0, n) implies kicks_name(scan.0, n) by {
            let j = choose|j: int| 0 <= j < before.0.len() && (#[trigger] before.0[j]).name == n;
            assert(scan.0[j].name == n);
        }
        assert forall|n: Seq<char>| condemned(shorter, n, m, c) implies condemned(
            roster,
            n,
            m,
            c,
        ) by {
            let i = choose|i: int|
                0 <= i < shorter.len() && (#[trigger] shorter[i]).name == n && n.len() > 0
                    && verdict(shorter[i].ip, m, c) is Some;
            assert(roster[i] == shorter[i]);
        }
        assert forall|n: Seq<char>| kicks_name(scan.0, n) implies kicks_name(before.0, n) || (
        kicks_last(roster, before.1, m, c) && n == last.name) by {
            let j = choose|j: int| 0 <= j < scan.0.len() && (#[trigger] scan.0[j]).name == n;
            if j < before.0.len() {
                assert(before.0[j].name == n);
            }
        }
        if kicks_last(roster, before.1, m, c) {
            assert(scan.0[scan.0.len() - 1].name == last.name);
            assert(kicks_name(scan.0, last.name));
            assert(roster[roster.len() - 1] == last);
            assert(condemned(roster, last.name, m, c));
        }
        assert forall|n: Seq<char>| condemned(roster, n, m, c) implies scan.1.contains(n) by {
            let i = choose|i: int|
                0 <= i < roster.len() && (#[trigger] roster[i]).name == n && n.len() > 0
                    && verdict(roster[i].ip, m, c) is Some;
            if i < shorter.len() {
                assert(shorter[i] == roster[i]);
                assert(condemned(shorter, n, m, c));
            }
        }
    }
}

/// A name in the kicked set is not kicked again. Whatever tick comes after a tick on the
/// same roster, it kicks nobody whose name the first tick left in the set, and so nobody
/// whom the first tick kicked.
pub proof fn kicked_once_law(
    roster: Seq<PlayerSlotView>,
    kicked: Set<Seq<char>>,
    m: ServerManagerView,
    c: ServerConfigView,
    first_window: bool,
    second_window: bool,
)
    ensures
        ({
            let first = tick_kicks(roster, kicked, m, c, first_window);
            let second = tick_kicks(roster, first.1, m, c, second_window);
            &&& forall|n: Seq<char>| kicks_name(first.0, n) ==> first.1.contains(n)
            &&& forall|n: Seq<char>| first.1.contains(n) ==> !kicks_name(second.0, n)
            &&& forall|n: Seq<char>| kicks_name(first.0, n) ==> !kicks_name(second.0, n)
        }),
{
    let connected = occupied(roster);
    let first = tick_kicks(roster, kicked, m, c, first_window);
    let second = tick_kicks(roster, first.1, m, c, second_window);
    lemma_kick_scan(roster, pruned(kicked, connected), m, c);
    lemma_kick_scan(roster, pruned(first.1, connected), m, c);
    lemma_occupied(roster);
    let kept = pruned(kicked, connected);
    let kept_again = pruned(first.1, connected);
    assert forall|n: Seq<char>| first.1.contains(n) implies !kicks_name(second.0, n) by {
        if kicks_name(second.0, n) {
            assert(second.0.len() > 0);
            assert(second == kick_scan(roster, kept_again, m, c));
            assert(condemned(roster, n, m, c));
            lemma_condemned_is_connected(roster, n, m, c);
            assert(kept_again.contains(n));
        }
    }
    assert forall|n: Seq<char>| kicks_name(first.0, n) implies first.1.contains(n) by {
        assert(first.0.len() > 0);
        assert(first == kick_scan(roster, kept, m, c));
    }
}

/// Who is condemned holds a slot, and so is among the connected.
pub proof fn lemma_condemned_is_connected(
    roster: Seq<PlayerSlotView>,
    n: Seq<char>,
    m: ServerManagerView,
    c: ServerConfigView,
)
    requires
        condemned(roster, n, m, c),
    ensures
        name_set(names_of(occupied(roster))).contains(n),
{
    let i = choose|i: int|
        0 <= i < roster.len() && (#[trigger] roster[i]).name == n && n.len() > 0 && verdict(
            roster[i].ip,
            m,
            c,
        ) is Some;
    lemma_occupied(roster);
    let connected = occupied(roster);
    assert(connected.contains(roster[i]));
    let k = choose|k: int| 0 <= k < connected.len() && connected[k] == roster[i];
    assert(names_of(connected)[k] == n);
}

/// A player who has left is forgiven. After a tick on a roster in which nobody bears the
/// name, the name is not in the kicked set, whatever was in it before; and when a player
/// of that name is back and a rule applies, the next tick that finds the window kicks the
/// player.
pub proof fn forgiven_law(
    away: Seq<PlayerSlotView>,
    back: Seq<PlayerSlotView>,
    name: Seq<char>,
    kicked: Set<Seq<char>>,
    m: ServerManagerView,
    c: ServerConfigView,
    window_found: bool,
)
    requires
        !name_set(names_of(occupied(away))).contains(name),
        condemned(back, name, m, c),
    ensures
        ({
            let left = tick_kicks(away, kicked, m, c, window_found);
            let returned = tick_kicks(back, left.1, m, c, true);
            &&& !left.1.contains(name)
            &&& kicks_name(returned.0, name)
            &&& returned.1.contains(name)
        }),
{
    let left = tick_kicks(away, kicked, m, c, window_found);
    let kept = pruned(kicked, occupied(away));
    lemma_kick_scan(away, kept, m, c);
    if left.1.contains(name) {
        assert(!kept.contains(name));
        assert(left == kick_scan(away, kept, m, c));
        assert(kicks_name(left.0, name));
        assert(condemned(away, name, m, c));
        lemma_condemned_is_connected(away, name, m, c);
    }
    lemma_kick_scan(back, pruned(left.1, occupied(back)), m, c);
    let i = choose|i: int|
        0 <= i < back.len() && (#[trigger] back[i]).name == name && name.len() > 0 && verdict(
            back[i].ip,
            m,
            c,
        ) is Some;
    assert(enforcement_needed(m, c));
}

} // verus!
