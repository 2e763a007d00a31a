//! The watchdog's books: which process runs for which port, and what access control
//! remembers about it.
//!
//! The supervisor owns no process and makes no system call. On each tick the caller asks
//! the system which processes still live, hands the answers in, and acts on what comes
//! back: ports to start again, processes to stop, players to kick. All changes to the
//! books go through the few operations here, so a caller that guards the supervisor with
//! one lock has guarded everything.

use vstd::prelude::*;
use crate::decimal::{parse_u64, parse_unsigned};
use crate::enforce::{enforce_player_lists, joined, tick_kicks, Enforcement};
use crate::kicked::{name_set, KickedNames};
use crate::launch::{current_profile, find_current_config};
use crate::policy::{enforcement_needed, needs_enforcement};
use crate::roster::{copy_slots, occupied, PlayerSlot, PlayerSlotView};
use crate::server::{views, Server, ServerManager, ServerManagerView, ServerView};
use crate::text::{texts, to_chars, trim, trimmed};

verus! {

/// The exit code that the system reports for a process that still runs.
pub const STILL_ACTIVE: u32 = 259;

/// Seconds between two ticks of the watchdog.
pub const TICK_SECONDS: u64 = 5;

/// Milliseconds to wait between stopping the fleet and starting it again.
pub const RESTART_SETTLE_MS: u64 = 2000;

/// Milliseconds to wait between two starts when the fleet is started again.
pub const RELAUNCH_DELAY_MS: u64 = 500;

/// Seconds in a day.
pub const SECONDS_PER_DAY: u64 = 86400;

/// Whether a process counts as alive, given its id and the exit code that the system
/// reported, if it reported any. A failed query counts as dead: better one restart too
/// many than a server that hangs unnoticed.
pub open spec fn alive(pid: u32, exit_code: Option<u32>) -> bool {
    pid != 0 && exit_code == Some(STILL_ACTIVE)
}

/// Whether a process counts as alive.
pub fn process_is_alive(pid: u32, exit_code: Option<u32>) -> (r: bool)
    ensures
        r == alive(pid, exit_code),
{
    if pid == 0 {
        return false;
    }
    match exit_code {
        Some(code) => code == STILL_ACTIVE,
        None => false,
    }
}

/// What the system said about the process of one port.
#[derive(Debug, Clone, Copy, PartialEq, Eq, Structural)]
pub struct Liveness {
    pub port: u16,
    /// The exit code that the system reported; none if it could not be asked.
    pub exit_code: Option<u32>,
}

/// What is tracked for one port: the process, the names kicked while it lives, and the
/// connected players at the last tick.
#[derive(Debug)]
pub struct Entry {
    port: u16,
    pid: u32,
    kicked: KickedNames,
    previous: Option<Vec<PlayerSlot>>,
}

/// What a [`Entry`] holds, as plain values.
pub struct EntryView {
    pub port: u16,
    pub pid: u32,
    pub kicked: Set<Seq<char>>,
    pub previous: Option<Seq<PlayerSlotView>>,
}

impl View for Entry {
    type V = EntryView;

    closed spec fn view(&self) -> EntryView {
        EntryView {
            port: self.port,
            pid: self.pid,
            kicked: self.kicked@,
            previous: match self.previous {
                Some(p) => Some(views(p@)),
                None => None,
            },
        }
    }
}

/// A process that was just started: nobody kicked, no snapshot.
pub open spec fn fresh(port: u16, pid: u32) -> EntryView {
    EntryView { port, pid, kicked: Set::empty(), previous: None }
}

/// The position of the first entry for `port`, from position `from` on.
pub open spec fn position_from(s: Seq<EntryView>, port: u16, from: int) -> Option<int>
    decreases s.len() - from,
{
    if from < 0 || from >= s.len() {
        None
    } else if s[from].port == port {
        Some(from)
    } else {
        position_from(s, port, from + 1)
    }
}

/// The position of the entry for `port`.
pub open spec fn position(s: Seq<EntryView>, port: u16) -> Option<int> {
    position_from(s, port, 0)
}

/// Whether `port` is among the tracked.
pub open spec fn tracks(s: Seq<EntryView>, port: u16) -> bool {
    position(s, port) is Some
}

/// The entry for `port`.
pub open spec fn lookup(s: Seq<EntryView>, port: u16) -> Option<EntryView> {
    match position(s, port) {
        Some(i) => Some(s[i]),
        None => None,
    }
}

/// `position_from` gives an entry for the port, and the first such one.
pub proof fn lemma_position(s: Seq<EntryView>, port: u16, from: int)
    requires
        0 <= from,
    ensures
        match position_from(s, port, from) {
            Some(i) => from <= i < s.len() && s[i].port == port && forall|j: int|
                from <= j < i ==> (#[trigger] s[j]).port != port,
            None => forall|j: int| from <= j < s.len() ==> (#[trigger] s[j]).port != port,
        },
    decreases s.len() - from,
{
    if from < s.len() && s[from].port != port {
        lemma_position(s, port, from + 1);
    }
}

/// Whether no port is tracked twice.
pub open spec fn distinct_ports(s: Seq<EntryView>) -> bool {
    forall|i: int, j: int|
        0 <= i < j < s.len() ==> (#[trigger] s[i]).port != (#[trigger] s[j]).port
}

/// The first report about `port`, from position `from` on.
pub open spec fn report_from(reports: Seq<Liveness>, port: u16, from: int) -> Option<Liveness>
    decreases reports.len() - from,
{
    if from < 0 || from >= reports.len() {
        None
    } else if reports[from].port == port {
        Some(reports[from])
    } else {
        report_from(reports, port, from + 1)
    }
}

/// Whether a tracked process survives a sweep: the first report about its port says that
/// it lives. Without a report it does not.
pub open spec fn survives(t: EntryView, reports: Seq<Liveness>) -> bool {
    reported_alive(t.port, t.pid, reports)
}

/// Whether the first report about `port` says that process `pid` lives.
pub open spec fn reported_alive(port: u16, pid: u32, reports: Seq<Liveness>) -> bool {
    match report_from(reports, port, 0) {
        Some(report) => alive(pid, report.exit_code),
        None => false,
    }
}

/// The tracked that survive a sweep, in order.
pub open spec fn survivors(s: Seq<EntryView>, reports: Seq<Liveness>) -> Seq<EntryView>
    decreases s.len(),
{
    if s.len() == 0 {
        Seq::empty()
    } else if survives(s.last(), reports) {
        survivors(s.drop_last(), reports).push(s.last())
    } else {
        survivors(s.drop_last(), reports)
    }
}

/// The ports whose processes do not survive a sweep, in order.
pub open spec fn casualties(s: Seq<EntryView>, reports: Seq<Liveness>) -> Seq<u16>
    decreases s.len(),
{
    if s.len() == 0 {
        Seq::empty()
    } else if survives(s.last(), reports) {
        casualties(s.drop_last(), reports)
    } else {
        casualties(s.drop_last(), reports).push(s.last().port)
    }
}

/// Every survivor was tracked and was reported alive; every tracked process that was
/// reported alive survives; and no port comes to be tracked twice by a sweep.
pub proof fn lemma_survivors(s: Seq<EntryView>, reports: Seq<Liveness>)
    ensures
        survivors(s, reports).len() <= s.len(),
        forall|k: int|
            0 <= k < survivors(s, reports).len() ==> survives(
                #[trigger] survivors(s, reports)[k],
                reports,
            ) && s.contains(survivors(s, reports)[k]),
        distinct_ports(s) ==> distinct_ports(survivors(s, reports)),
        forall|i: int|
            0 <= i < s.len() && survives(#[trigger] s[i], reports) ==> survivors(
                s,
                reports,
            ).contains(s[i]),
    decreases s.len(),
{
    if s.len() > 0 {
        let shorter = s.drop_last();
        lemma_survivors(shorter, reports);
        let now = survivors(s, reports);
        let before = survivors(shorter, reports);
        assert forall|k: int| 0 <= k < now.len() implies survives(#[trigger] now[k], reports)
            && s.contains(now[k]) by {
            if k < before.len() {
                assert(now[k] == before[k]);
                let i = choose|i: int| 0 <= i < shorter.len() && shorter[i] == before[k];
                assert(s[i] == now[k]);
            } else {
                assert(s[s.len() - 1] == now[k]);
            }
        }
        if distinct_ports(s) {
            assert forall|a: int, b: int| 0 <= a < b < shorter.len() implies (
            #[trigger] shorter[a]).port != (#[trigger] shorter[b]).port by {
                assert(shorter[a] == s[a] && shorter[b] == s[b]);
            }
            assert forall|a: int, b: int| 0 <= a < b < now.len() implies (
            #[trigger] now[a]).port != (#[trigger] now[b]).port by {
                if b < before.len() {
                    assert(now[a] == before[a] && now[b] == before[b]);
                } else {
                    assert(now[a] == before[a]);
                    let i = choose|i: int| 0 <= i < shorter.len() && shorter[i] == before[a];
                    assert(s[i] == shorter[i]);
                    assert(s[i].port != s[s.len() - 1].port);
                }
            }
        }
        assert forall|i: int|
            0 <= i < s.len() && survives(#[trigger] s[i], reports) implies now.contains(
            s[i],
        ) by {
            if i < shorter.len() {
                assert(shorter[i] == s[i]);
                let k = choose|k: int| 0 <= k < before.len() && before[k] == s[i];
                assert(now[k] == s[i]);
            } else {
                assert(now[now.len() - 1] == s[i]);
            }
        }
    }
}

/// Whether a process on `port` is tracked and does not survive a sweep.
pub open spec fn dies(s: Seq<EntryView>, reports: Seq<Liveness>, port: u16) -> bool {
    exists|i: int| 0 <= i < s.len() && !survives(#[trigger] s[i], reports) && s[i].port == port
}

/// The ports that a sweep gives back are those of the tracked that do not survive.
pub proof fn lemma_casualties(s: Seq<EntryView>, reports: Seq<Liveness>)
    ensures
        forall|i: int|
            0 <= i < s.len() && !survives(#[trigger] s[i], reports) ==> casualties(
                s,
                reports,
            ).contains(s[i].port),
        forall|k: int|
            0 <= k < casualties(s, reports).len() ==> dies(
                s,
                reports,
                #[trigger] casualties(s, reports)[k],
            ),
    decreases s.len(),
{
    if s.len() > 0 {
        let shorter = s.drop_last();
        lemma_casualties(shorter, reports);
        let now = casualties(s, reports);
        let before = casualties(shorter, reports);
        assert forall|i: int|
            0 <= i < s.len() && !survives(#[trigger] s[i], reports) implies now.contains(
            s[i].port,
        ) by {
            if i < shorter.len() {
                assert(shorter[i] == s[i]);
                let k = choose|k: int| 0 <= k < before.len() && before[k] == s[i].port;
                assert(now[k] == s[i].port);
            } else {
                assert(now[now.len() - 1] == s[i].port);
            }
        }
        assert forall|k: int| 0 <= k < now.len() implies dies(s, reports, #[trigger] now[k]) by {
            if k < before.len() {
                assert(now[k] == before[k]);
                assert(dies(shorter, reports, before[k]));
                let i = choose|i: int|
                    0 <= i < shorter.len() && !survives(#[trigger] shorter[i], reports)
                        && shorter[i].port == before[k];
                assert(s[i] == shorter[i]);
            } else {
                assert(s[s.len() - 1].port == now[k]);
            }
        }
    }
}

/// What a sweep does to one tracked process. One that is not reported alive is struck
/// from the books, with all that access control remembered about it, and its port is
/// given back for a restart. One that is reported alive stays as it is.
pub proof fn sweep_law(s: Seq<EntryView>, reports: Seq<Liveness>, i: int)
    requires
        distinct_ports(s),
        0 <= i < s.len(),
    ensures
        !survives(s[i], reports) ==> !tracks(survivors(s, reports), s[i].port) && casualties(
            s,
            reports,
        ).contains(s[i].port),
        survives(s[i], reports) ==> lookup(survivors(s, reports), s[i].port) == Some(s[i])
            && !casualties(s, reports).contains(s[i].port),
{
    let after = survivors(s, reports);
    let port = s[i].port;
    lemma_survivors(s, reports);
    lemma_casualties(s, reports);
    lemma_position(after, port, 0);
    match position(after, port) {
        Some(k) => {
            assert(s.contains(after[k]));
            let j = choose|j: int| 0 <= j < s.len() && s[j] == after[k];
            if j < i {
                assert(s[j].port != s[i].port);
            } else if j > i {
                assert(s[i].port != s[j].port);
            }
        },
        None => {
            if survives(s[i], reports) {
                assert(after.contains(s[i]));
                let k = choose|k: int| 0 <= k < after.len() && after[k] == s[i];
                assert(after[k].port == port);
            }
        },
    }
    if survives(s[i], reports) && casualties(s, reports).contains(port) {
        let dead = casualties(s, reports);
        let k = choose|k: int| 0 <= k < dead.len() && dead[k] == port;
        assert(dies(s, reports, dead[k]));
        let j = choose|j: int|
            0 <= j < s.len() && !survives(#[trigger] s[j], reports) && s[j].port == dead[k];
        if j < i {
            assert(s[j].port != s[i].port);
        } else if j > i {
            assert(s[i].port != s[j].port);
        }
    }
}

/// Why a tick of access control was not made for a port.
#[derive(Debug, Clone, Copy, PartialEq, Eq, Structural)]
pub enum TickError {
    /// No process is tracked for the port.
    NotTracked,
    /// The server's current profile is not among its profiles.
    ProfileNotFound,
    /// The process could not be opened, or its roster could not be read.
    ProcessUnreadable,
}

/// The watchdog's books: the processes that are tracked, and the ports whose process
/// was found dead and has not been started again yet.
#[derive(Debug)]
pub struct Supervisor {
    entries: Vec<Entry>,
    waiting: Vec<u16>,
}

impl View for Supervisor {
    type V = Seq<EntryView>;

    closed spec fn view(&self) -> Seq<EntryView> {
        views(self.entries@)
    }
}

/// The ports of the tracked, in order.
pub open spec fn ports_of(s: Seq<EntryView>) -> Seq<u16> {
    Seq::new(s.len(), |i: int| s[i].port)
}

/// The tracked as pairs of port and process id, in order.
pub open spec fn pairs_of(s: Seq<EntryView>) -> Seq<(u16, u32)> {
    Seq::new(s.len(), |i: int| (s[i].port, s[i].pid))
}

/// The books without the entry for `port`.
pub open spec fn without(s: Seq<EntryView>, port: u16) -> Seq<EntryView> {
    match position(s, port) {
        Some(i) => s.remove(i),
        None => s,
    }
}

/// Taking a port out of books in order leaves books in order that do not track it.
pub proof fn lemma_without(s: Seq<EntryView>, port: u16)
    requires
        distinct_ports(s),
    ensures
        distinct_ports(without(s, port)),
        !tracks(without(s, port), port),
        forall|other: u16| other != port ==> lookup(without(s, port), other) == lookup(s, other),
{
    lemma_position(s, port, 0);
    let w = without(s, port);
    lemma_position(w, port, 0);
    match position(s, port) {
        Some(i) => {
            assert forall|a: int| 0 <= a < w.len() implies #[trigger] w[a] == s[if a < i {
                a
            } else {
                a + 1
            }] by {}
            assert forall|a: int, b: int| 0 <= a < b < w.len() implies (#[trigger] w[a]).port != (
            #[trigger] w[b]).port by {
                let a_before = if a < i { a } else { a + 1 };
                let b_before = if b < i { b } else { b + 1 };
                assert(w[a] == s[a_before] && w[b] == s[b_before]);
                assert(s[a_before].port != s[b_before].port);
            }
            if position(w, port) is Some {
                let k = position(w, port).unwrap();
                let k_before = if k < i { k } else { k + 1 };
                assert(w[k] == s[k_before]);
                if k_before < i {
                    assert(s[k_before].port != s[i].port);
                } else {
                    assert(s[i].port != s[k_before].port);
                }
            }
            assert forall|other: u16| other != port implies lookup(w, other) == lookup(
                s,
                other,
            ) by {
                lemma_position(s, other, 0);
                lemma_position(w, other, 0);
                match position(s, other) {
                    Some(p) => {
                        let p_after = if p < i { p } else { p - 1 };
                        assert(w[p_after] == s[p]);
                        match position(w, other) {
                            Some(q) => {
                                let q_before = if q < i { q } else { q + 1 };
                                assert(w[q] == s[q_before]);
                                if q_before < p {
                                    assert(s[q_before].port != other);
                                }
                                if q < p_after {
                                } else if q > p_after {
                                    assert(w[p_after].port != other);
                                }
                            },
                            None => {
                                assert(w[p_after].port != other);
                            },
                        }
                    },
                    None => {
                        match position(w, other) {
                            Some(q) => {
                                let q_before = if q < i { q } else { q + 1 };
                                assert(w[q] == s[q_before]);
                                assert(s[q_before].port != other);
                            },
                            None => {},
                        }
                    },
                }
            }
        },
        None => {},
    }
}

/// A port is tracked exactly if some entry bears it.
pub proof fn lemma_tracks(s: Seq<EntryView>, port: u16)
    ensures
        tracks(s, port) <==> exists|i: int| 0 <= i < s.len() && (#[trigger] s[i]).port == port,
{
    lemma_position(s, port, 0);
}

/// The ports that await a start, without `port`.
pub open spec fn struck(a: Seq<u16>, port: u16) -> Seq<u16>
    decreases a.len(),
{
    if a.len() == 0 {
        Seq::empty()
    } else if a.last() == port {
        struck(a.drop_last(), port)
    } else {
        struck(a.drop_last(), port).push(a.last())
    }
}

/// Striking a port leaves the others, each as often as before and in their order.
pub proof fn lemma_struck(a: Seq<u16>, port: u16)
    ensures
        forall|p: u16| #[trigger] struck(a, port).contains(p) <==> a.contains(p) && p != port,
        a.no_duplicates() ==> struck(a, port).no_duplicates(),
        !a.contains(port) ==> struck(a, port) == a,
    decreases a.len(),
{
    if a.len() > 0 {
        let shorter = a.drop_last();
        let last = a.last();
        lemma_struck(shorter, port);
        let now = struck(a, port);
        let before = struck(shorter, port);
        assert forall|p: u16| #[trigger] now.contains(p) <==> a.contains(p) && p != port by {
            if now.contains(p) {
                let k = choose|k: int| 0 <= k < now.len() && now[k] == p;
                if k < before.len() {
                    assert(before[k] == p);
                    assert(before.contains(p));
                    let j = choose|j: int| 0 <= j < shorter.len() && shorter[j] == p;
                    assert(a[j] == p);
                } else {
                    assert(a[a.len() - 1] == p);
                }
            }
            if a.contains(p) && p != port {
                let j = choose|j: int| 0 <= j < a.len() && a[j] == p;
                if j < shorter.len() {
                    assert(shorter[j] == p);
                    assert(before.contains(p));
                    let k = choose|k: int| 0 <= k < before.len() && before[k] == p;
                    assert(now[k] == p);
                } else {
                    assert(now[now.len() - 1] == p);
                }
            }
        }
        if a.no_duplicates() {
            assert forall|i: int, j: int| 0 <= i < j < shorter.len() implies shorter[i]
                != shorter[j] by {
                assert(a[i] != a[j]);
            }
            if last != port {
                assert forall|i: int, j: int| 0 <= i < j < now.len() implies now[i] != now[j] by {
                    if j == before.len() {
                        assert(before.contains(now[i]));
                        let q = choose|q: int| 0 <= q < shorter.len() && shorter[q] == now[i];
                        assert(a[q] != a[a.len() - 1]);
                    } else {
                        assert(before[i] != before[j]);
                    }
                }
            }
        }
        if !a.contains(port) {
            assert(a[a.len() - 1] != port);
            assert forall|j: int| 0 <= j < shorter.len() implies shorter[j] != port by {
                assert(a[j] == shorter[j]);
            }
            assert(now =~= a);
        }
    }
}

/// Whether books are in order: no port is tracked twice, no port awaits a start twice,
/// and no port that awaits a start is tracked.
pub open spec fn in_order(s: Seq<EntryView>, a: Seq<u16>) -> bool {
    &&& distinct_ports(s)
    &&& a.no_duplicates()
    &&& forall|i: int| 0 <= i < a.len() ==> !tracks(s, #[trigger] a[i])
}

/// Books stay in order when a port is struck, and when it is booked afresh after that.
pub proof fn lemma_order_without(s: Seq<EntryView>, a: Seq<u16>, port: u16, pid: u32)
    requires
        in_order(s, a),
    ensures
        in_order(without(s, port), struck(a, port)),
        in_order(without(s, port).push(fresh(port, pid)), struck(a, port)),
{
    let w = without(s, port);
    let b = struck(a, port);
    let t = w.push(fresh(port, pid));
    lemma_without(s, port);
    lemma_struck(a, port);
    lemma_tracks(w, port);
    assert forall|a0: int, b0: int| 0 <= a0 < b0 < t.len() implies (#[trigger] t[a0]).port != (
    #[trigger] t[b0]).port by {
        if b0 < w.len() {
            assert(t[a0] == w[a0] && t[b0] == w[b0]);
        } else {
            assert(t[a0] == w[a0]);
        }
    }
    assert forall|i: int| 0 <= i < b.len() implies !tracks(w, #[trigger] b[i]) && !tracks(
        t,
        b[i],
    ) by {
        let p = b[i];
        assert(b.contains(p));
        assert(a.contains(p) && p != port);
        let j = choose|j: int| 0 <= j < a.len() && a[j] == p;
        assert(!tracks(s, a[j]));
        assert(lookup(w, p) == lookup(s, p));
        lemma_tracks(w, p);
        lemma_tracks(t, p);
        if tracks(t, p) {
            let k = choose|k: int| 0 <= k < t.len() && (#[trigger] t[k]).port == p;
            if k < w.len() {
                assert(w[k] == t[k]);
            }
        }
    }
}

/// The ports that a sweep gives back are all different, where no port is tracked twice.
pub proof fn lemma_casualties_distinct(s: Seq<EntryView>, reports: Seq<Liveness>)
    requires
        distinct_ports(s),
    ensures
        casualties(s, reports).no_duplicates(),
    decreases s.len(),
{
    if s.len() > 0 {
        let shorter = s.drop_last();
        assert forall|a: int, b: int| 0 <= a < b < shorter.len() implies (
        #[trigger] shorter[a]).port != (#[trigger] shorter[b]).port by {
            assert(shorter[a] == s[a] && shorter[b] == s[b]);
        }
        lemma_casualties_distinct(shorter, reports);
        lemma_casualties(shorter, reports);
        let now = casualties(s, reports);
        let before = casualties(shorter, reports);
        assert forall|i: int, j: int| 0 <= i < j < now.len() implies now[i] != now[j] by {
            if j < before.len() {
                assert(before[i] != before[j]);
            } else {
                assert(dies(shorter, reports, before[i]));
                let q = choose|q: int|
                    0 <= q < shorter.len() && !survives(#[trigger] shorter[q], reports)
                        && shorter[q].port == before[i];
                assert(s[q] == shorter[q]);
                assert(s[q].port != s[s.len() - 1].port);
            }
        }
    }
}

/// Books stay in order through a sweep: the ports of the dead join those that await a
/// start.
pub proof fn lemma_order_sweep(s: Seq<EntryView>, a: Seq<u16>, reports: Seq<Liveness>)
    requires
        in_order(s, a),
    ensures
        in_order(survivors(s, reports), a + casualties(s, reports)),
{
    let live = survivors(s, reports);
    let dead = casualties(s, reports);
    let all = a + dead;
    lemma_survivors(s, reports);
    lemma_casualties(s, reports);
    lemma_casualties_distinct(s, reports);
    assert forall|i: int, j: int| 0 <= i < j < all.len() implies all[i] != all[j] by {
        if j < a.len() {
            assert(a[i] != a[j]);
        } else if i >= a.len() {
            assert(dead[i - a.len()] != dead[j - a.len()]);
        } else {
            let p = dead[j - a.len()];
            assert(dies(s, reports, p));
            lemma_tracks(s, p);
            assert(!tracks(s, a[i]));
        }
    }
    assert forall|i: int| 0 <= i < all.len() implies !tracks(live, #[trigger] all[i]) by {
        let p = all[i];
        lemma_tracks(live, p);
        if tracks(live, p) {
            let k = choose|k: int| 0 <= k < live.len() && (#[trigger] live[k]).port == p;
            assert(s.contains(live[k]));
            let q = choose|q: int| 0 <= q < s.len() && s[q] == live[k];
            lemma_tracks(s, p);
            if i < a.len() {
                assert(!tracks(s, a[i]));
            } else {
                assert(dies(s, reports, dead[i - a.len()]));
                let d = choose|d: int|
                    0 <= d < s.len() && !survives(#[trigger] s[d], reports) && s[d].port == p;
                if d < q {
                    assert(s[d].port != s[q].port);
                } else if q < d {
                    assert(s[q].port != s[d].port);
                }
            }
        }
    }
}

/// Books stay in order when entries change but keep their ports.
pub proof fn lemma_order_same_ports(s: Seq<EntryView>, t: Seq<EntryView>, a: Seq<u16>)
    requires
        in_order(s, a),
        s.len() == t.len(),
        forall|i: int| 0 <= i < s.len() ==> (#[trigger] s[i]).port == t[i].port,
    ensures
        in_order(t, a),
{
    assert forall|i: int, j: int| 0 <= i < j < t.len() implies (#[trigger] t[i]).port != (
    #[trigger] t[j]).port by {
        assert(s[i].port != s[j].port);
    }
    assert forall|i: int| 0 <= i < a.len() implies !tracks(t, #[trigger] a[i]) by {
        lemma_tracks(t, a[i]);
        lemma_tracks(s, a[i]);
        if tracks(t, a[i]) {
            let k = choose|k: int| 0 <= k < t.len() && (#[trigger] t[k]).port == a[i];
            assert(s[k].port == a[i]);
        }
    }
}

/// A port whose process was found dead is asked for until it is booked or struck. The
/// sweep that finds the process dead gives the port back; so does every later sweep,
/// whatever it finds; booking or striking another port changes nothing about that; and
/// booking or striking the port itself ends it.
pub proof fn retry_law(
    s: Seq<EntryView>,
    a: Seq<u16>,
    reports: Seq<Liveness>,
    port: u16,
    other: u16,
)
    ensures
        dies(s, reports, port) ==> (a + casualties(s, reports)).contains(port),
        a.contains(port) ==> (a + casualties(s, reports)).contains(port),
        a.contains(port) && other != port ==> struck(a, other).contains(port),
        !struck(a, port).contains(port),
{
    let dead = casualties(s, reports);
    let all = a + dead;
    lemma_casualties(s, reports);
    lemma_struck(a, other);
    lemma_struck(a, port);
    if dies(s, reports, port) {
        let i = choose|i: int|
            0 <= i < s.len() && !survives(#[trigger] s[i], reports) && s[i].port == port;
        assert(dead.contains(s[i].port));
        let k = choose|k: int| 0 <= k < dead.len() && dead[k] == port;
        assert(all[a.len() + k] == port);
    }
    if a.contains(port) {
        let k = choose|k: int| 0 <= k < a.len() && a[k] == port;
        assert(all[k] == port);
    }
}

/// What is to be done when the fleet is started afresh.
#[derive(Debug, Clone, Copy, PartialEq, Eq, Structural)]
pub enum RestartStep {
    /// Stop the process that was tracked for the port.
    Stop { port: u16, pid: u32 },
    /// Wait for so many milliseconds.
    Pause(u64),
    /// Start the configured server at this position, and book it if it starts.
    Start(usize),
    /// Write down this time, in seconds, as that of the last restart.
    Record(u64),
}

/// A stop for each tracked process, in the order of the books.
pub open spec fn stops(booked: Seq<(u16, u32)>) -> Seq<RestartStep> {
    Seq::new(booked.len(), |i: int| RestartStep::Stop { port: booked[i].0, pid: booked[i].1 })
}

/// A start for each of the first `servers` configured servers, each followed by a pause.
pub open spec fn starts(servers: nat) -> Seq<RestartStep>
    decreases servers,
{
    if servers == 0 {
        Seq::empty()
    } else {
        starts((servers - 1) as nat).push(RestartStep::Start((servers - 1) as usize)).push(
            RestartStep::Pause(RELAUNCH_DELAY_MS),
        )
    }
}

/// The scheduled restart, step by step: every tracked process is stopped; after a pause
/// every configured server is started, one after the other; then the time is recorded.
pub open spec fn restart_steps(booked: Seq<(u16, u32)>, servers: nat, now: u64) -> Seq<
    RestartStep,
> {
    stops(booked) + seq![RestartStep::Pause(RESTART_SETTLE_MS)] + starts(servers) + seq![
        RestartStep::Record(now),
    ]
}

impl Supervisor {
    /// The ports whose process was found dead and has not been started again, in the
    /// order in which they were found.
    pub closed spec fn awaiting(&self) -> Seq<u16> {
        self.waiting@
    }

    /// Whether the books are in order: at most one process for each port, and no port
    /// both tracked and awaiting a start.
    pub open spec fn wf(&self) -> bool {
        in_order(self@, self.awaiting())
    }

    /// Books without an entry.
    pub fn new() -> (r: Self)
        ensures
            r.wf(),
            r@ == Seq::<EntryView>::empty(),
            r.awaiting() == Seq::<u16>::empty(),
    {
        let r = Supervisor { entries: Vec::new(), waiting: Vec::new() };
        assert(r@ =~= Seq::<EntryView>::empty());
        r
    }

    /// The ports that await a start.
    pub fn awaiting_start(&self) -> (r: Vec<u16>)
        ensures
            r@ == self.awaiting(),
    {
        self.waiting.clone()
    }

    fn strike(&mut self, port: u16)
        ensures
            final(self)@ == old(self)@,
            final(self).awaiting() == struck(old(self).awaiting(), port),
    {
        let mut kept: Vec<u16> = Vec::new();
        let mut i: usize = 0;
        assert(self.waiting@.take(0) =~= Seq::<u16>::empty());
        while i < self.waiting.len()
            invariant
                i <= self.waiting.len(),
                kept@ == struck(self.waiting@.take(i as int), port),
            decreases self.waiting.len() - i,
        {
            proof {
                let upto = self.waiting@.take(i + 1);
                assert(upto.drop_last() =~= self.waiting@.take(i as int));
                assert(upto.last() == self.waiting@[i as int]);
            }
            if self.waiting[i] != port {
                kept.push(self.waiting[i]);
            }
            i += 1;
        }
        assert(self.waiting@.take(self.waiting.len() as int) =~= self.waiting@);
        self.waiting = kept;
    }

    fn find(&self, port: u16) -> (r: Option<usize>)
        ensures
            match r {
                Some(i) => position(self@, port) == Some(i as int) && i < self.entries@.len()
                    && self.entries@[i as int]@ == self@[i as int],
                None => position(self@, port) is None,
            },
    {
        let mut i: usize = 0;
        while i < self.entries.len()
            invariant
                i <= self.entries.len(),
                self@.len() == self.entries@.len(),
                position(self@, port) == position_from(self@, port, i as int),
            decreases self.entries.len() - i,
        {
            assert(self@[i as int] == self.entries@[i as int]@);
            if self.entries[i].port == port {
                return Some(i);
            }
            i += 1;
        }
        None
    }

    /// The process tracked for `port`, if there is one.
    pub fn pid_of(&self, port: u16) -> (r: Option<u32>)
        ensures
            r == match lookup(self@, port) {
                Some(t) => Some(t.pid),
                None => None,
            },
    {
        match self.find(port) {
            Some(i) => Some(self.entries[i].pid),
            None => None,
        }
    }

    /// Whether a process is tracked for `port`.
    pub fn is_running(&self, port: u16) -> (r: bool)
        ensures
            r == tracks(self@, port),
    {
        self.find(port).is_some()
    }

    /// How many processes are tracked.
    pub fn len(&self) -> (r: usize)
        ensures
            r == self@.len(),
    {
        self.entries.len()
    }

    /// The ports for which a process is tracked, in the order in which they came.
    pub fn get_running_ports(&self) -> (r: Vec<u16>)
        ensures
            r@ == ports_of(self@),
    {
        let mut r: Vec<u16> = Vec::new();
        let mut i: usize = 0;
        while i < self.entries.len()
            invariant
                i <= self.entries.len(),
                self@.len() == self.entries@.len(),
                r@.len() == i,
                forall|j: int| 0 <= j < i ==> r@[j] == self@[j].port,
            decreases self.entries.len() - i,
        {
            assert(self@[i as int] == self.entries@[i as int]@);
            r.push(self.entries[i].port);
            i += 1;
        }
        assert(r@ =~= ports_of(self@));
        r
    }

    /// The tracked as pairs of port and process id, in the order in which they came.
    pub fn snapshot(&self) -> (r: Vec<(u16, u32)>)
        ensures
            r@ == pairs_of(self@),
    {
        let mut r: Vec<(u16, u32)> = Vec::new();
        let mut i: usize = 0;
        while i < self.entries.len()
            invariant
                i <= self.entries.len(),
                self@.len() == self.entries@.len(),
                r@.len() == i,
                forall|j: int| 0 <= j < i ==> r@[j] == (self@[j].port, self@[j].pid),
            decreases self.entries.len() - i,
        {
            assert(self@[i as int] == self.entries@[i as int]@);
            r.push((self.entries[i].port, self.entries[i].pid));
            i += 1;
        }
        assert(r@ =~= pairs_of(self@));
        r
    }

    /// The names kicked while the process of `port` lives, each once.
    pub fn kicked_names(&self, port: u16) -> (r: Option<Vec<String>>)
        ensures
            match r {
                Some(names) => lookup(self@, port) is Some && name_set(texts(names@)) == lookup(
                    self@,
                    port,
                ).unwrap().kicked,
                None => lookup(self@, port) is None,
            },
    {
        match self.find(port) {
            Some(i) => Some(self.entries[i].kicked.names()),
            None => None,
        }
    }

    /// The connected players of `port` at the last tick that read them.
    pub fn last_roster(&self, port: u16) -> (r: Option<Vec<PlayerSlot>>)
        ensures
            match r {
                Some(slots) => lookup(self@, port) is Some && lookup(self@, port).unwrap().previous
                    == Some(views(slots@)),
                None => lookup(self@, port) is None || lookup(self@, port).unwrap().previous
                    is None,
            },
    {
        match self.find(port) {
            Some(i) => match &self.entries[i].previous {
                Some(p) => Some(copy_slots(p)),
                None => None,
            },
            None => None,
        }
    }

    /// Books `port` for process `pid`. Whatever was tracked for the port before is
    /// superseded, and access control starts afresh for the new process. The port no
    /// longer awaits a start.
    pub fn insert(&mut self, port: u16, pid: u32)
        requires
            old(self).wf(),
        ensures
            final(self).wf(),
            final(self)@ == without(old(self)@, port).push(fresh(port, pid)),
            final(self).awaiting() == struck(old(self).awaiting(), port),
            lookup(final(self)@, port) == Some(fresh(port, pid)),
            forall|other: u16|
                other != port ==> lookup(final(self)@, other) == lookup(old(self)@, other),
    {
        proof {
            lemma_without(self@, port);
            lemma_order_without(self@, self.awaiting(), port, pid);
        }
        self.strike(port);
        match self.find(port) {
            Some(i) => {
                let _ = self.entries.remove(i);
                assert(self@ =~= without(old(self)@, port));
            },
            None => {},
        }
        let ghost before = self@;
        let entry = Entry { port, pid, kicked: KickedNames::new(), previous: None };
        assert(entry@ == fresh(port, pid));
        self.entries.push(entry);
        proof {
            let after = self@;
            assert(after =~= before.push(fresh(port, pid)));
            lemma_position(before, port, 0);
            lemma_position(after, port, 0);
            assert(after[before.len() as int].port == port);
            match position(after, port) {
                Some(k) => {
                    if k < before.len() {
                        assert(after[k] == before[k]);
                    }
                },
                None => {},
            }
            assert forall|a: int, b: int| 0 <= a < b < after.len() implies (
            #[trigger] after[a]).port != (#[trigger] after[b]).port by {
                assert(after[a] == before[a]);
                if b < before.len() {
                    assert(after[b] == before[b]);
                }
            }
            assert forall|other: u16| other != port implies lookup(after, other) == lookup(
                old(self)@,
                other,
            ) by {
                lemma_position(before, other, 0);
                lemma_position(after, other, 0);
                match position(before, other) {
                    Some(p) => {
                        assert(after[p] == before[p]);
                        match position(after, other) {
                            Some(q) => {
                                if q < p {
                                    assert(after[q] == before[q]);
                                }
                            },
                            None => {},
                        }
                    },
                    None => {
                        match position(after, other) {
                            Some(q) => {
                                if q < before.len() {
                                    assert(after[q] == before[q]);
                                }
                            },
                            None => {},
                        }
                    },
                }
            }
        }
    }

    /// Strikes `port` from the books and gives the process that was tracked for it, which
    /// the caller is to stop. What access control remembered about it is gone, and the
    /// port no longer awaits a start.
    pub fn remove(&mut self, port: u16) -> (r: Option<u32>)
        requires
            old(self).wf(),
        ensures
            final(self).wf(),
            final(self)@ == without(old(self)@, port),
            final(self).awaiting() == struck(old(self).awaiting(), port),
            !tracks(final(self)@, port),
            r == match lookup(old(self)@, port) {
                Some(t) => Some(t.pid),
                None => None,
            },
            forall|other: u16|
                other != port ==> lookup(final(self)@, other) == lookup(old(self)@, other),
    {
        proof {
            lemma_without(self@, port);
            lemma_order_without(self@, self.awaiting(), port, 0);
        }
        self.strike(port);
        match self.find(port) {
            Some(i) => {
                let entry = self.entries.remove(i);
                assert(self@ =~= without(old(self)@, port));
                Some(entry.pid)
            },
            None => None,
        }
    }

    /// Strikes every port from the books, those that await a start too, and gives the
    /// processes that were tracked, which the caller is to stop.
    pub fn stop_all(&mut self) -> (r: Vec<(u16, u32)>)
        ensures
            final(self).wf(),
            final(self)@ == Seq::<EntryView>::empty(),
            final(self).awaiting() == Seq::<u16>::empty(),
            r@ == pairs_of(old(self)@),
    {
        let r = self.snapshot();
        self.entries = Vec::new();
        self.waiting = Vec::new();
        assert(self@ =~= Seq::<EntryView>::empty());
        r
    }

    /// Begins the scheduled restart of the fleet, of which `servers` servers are
    /// configured, at time `now`: every port is struck from the books, and the steps
    /// are given that the caller is to take.
    pub fn fleet_restart(&mut self, servers: usize, now: u64) -> (steps: Vec<RestartStep>)
        ensures
            final(self).wf(),
            final(self)@ == Seq::<EntryView>::empty(),
            final(self).awaiting() == Seq::<u16>::empty(),
            steps@ == restart_steps(pairs_of(old(self)@), servers as nat, now),
    {
        let booked = self.stop_all();
        let mut steps: Vec<RestartStep> = Vec::new();
        let mut i: usize = 0;
        while i < booked.len()
            invariant
                i <= booked.len(),
                steps@.len() == i,
                forall|j: int| 0 <= j < i ==> steps@[j] == stops(booked@)[j],
            decreases booked.len() - i,
        {
            steps.push(RestartStep::Stop { port: booked[i].0, pid: booked[i].1 });
            i += 1;
        }
        assert(steps@ =~= stops(booked@));
        steps.push(RestartStep::Pause(RESTART_SETTLE_MS));
        let ghost head = steps@;
        let mut k: usize = 0;
        assert(steps@ =~= head + starts(0));
        while k < servers
            invariant
                k <= servers,
                steps@ == head + starts(k as nat),
            decreases servers - k,
        {
            steps.push(RestartStep::Start(k));
            steps.push(RestartStep::Pause(RELAUNCH_DELAY_MS));
            assert(steps@ =~= head + starts((k + 1) as nat));
            k += 1;
        }
        steps.push(RestartStep::Record(now));
        assert(steps@ =~= restart_steps(booked@, servers as nat, now));
        steps
    }

    /// What to start for a port that awaits a start: the configured server on that
    /// port. Where no server is configured on the port any more, there is nothing to
    /// start, and the port is struck from those that await a start.
    pub fn restart_target(&mut self, servers: &Vec<Server>, port: u16) -> (r: Option<usize>)
        requires
            old(self).wf(),
        ensures
            final(self).wf(),
            final(self)@ == old(self)@,
            match r {
                Some(i) => server_from(views(servers@), port, 0) == Some(i as int) && i
                    < servers.len() && final(self).awaiting() == old(self).awaiting(),
                None => server_from(views(servers@), port, 0) is None && final(self).awaiting()
                    == struck(old(self).awaiting(), port),
            },
    {
        match find_server(servers, port) {
            Some(i) => Some(i),
            None => {
                proof {
                    lemma_struck(self.awaiting(), port);
                }
                self.strike(port);
                proof {
                    let a = old(self).awaiting();
                    let b = self.awaiting();
                    assert forall|i: int| 0 <= i < b.len() implies !tracks(
                        self@,
                        #[trigger] b[i],
                    ) by {
                        assert(b.contains(b[i]));
                        let j = choose|j: int| 0 <= j < a.len() && a[j] == b[i];
                        assert(!tracks(old(self)@, a[j]));
                    }
                }
                None
            },
        }
    }

    /// The liveness sweep. `reports` holds what the system said about the tracked
    /// processes. Every process that was not reported alive is struck from the books,
    /// with all that access control remembered about it, and its port joins those that
    /// await a start. Gives all ports that await a start, which the caller is to start:
    /// those of this sweep, and those of earlier sweeps that were not booked since.
    pub fn sweep(&mut self, reports: &Vec<Liveness>) -> (due: Vec<u16>)
        requires
            old(self).wf(),
        ensures
            final(self).wf(),
            final(self)@ == survivors(old(self)@, reports@),
            final(self).awaiting() == old(self).awaiting() + casualties(old(self)@, reports@),
            due@ == final(self).awaiting(),
    {
        let ghost start = self@;
        let ghost mut k: int = 0;
        let mut dead: Vec<u16> = Vec::new();
        let mut i: usize = 0;
        proof {
            assert(start.take(0) =~= Seq::<EntryView>::empty());
            assert(start.skip(0) =~= start);
            assert(self@ =~= survivors(start.take(0), reports@) + start.skip(0));
        }
        while i < self.entries.len()
            invariant
                0 <= k <= start.len(),
                self@.len() == self.entries@.len(),
                self@ == survivors(start.take(k), reports@) + start.skip(k),
                i == survivors(start.take(k), reports@).len(),
                dead@ == casualties(start.take(k), reports@),
                self.waiting@ == old(self).waiting@,
                in_order(start, old(self).awaiting()),
            decreases start.len() - k,
        {
            proof {
                assert(self@[i as int] == self.entries@[i as int]@);
                assert(self@[i as int] == start.skip(k)[0]);
                let upto = start.take(k + 1);
                assert(upto.drop_last() =~= start.take(k));
                assert(upto.last() == start[k]);
            }
            let lives = is_reported_alive(self.entries[i].port, self.entries[i].pid, reports);
            if lives {
                proof {
                    assert(self@ =~= survivors(start.take(k + 1), reports@) + start.skip(k + 1));
                }
                i += 1;
            } else {
                dead.push(self.entries[i].port);
                let ghost whole = self@;
                let _ = self.entries.remove(i);
                proof {
                    assert(self@ =~= whole.remove(i as int));
                    assert(whole.remove(i as int) =~= survivors(start.take(k), reports@)
                        + start.skip(k + 1));
                }
            }
            proof {
                k = k + 1;
            }
        }
        proof {
            assert(start.take(start.len() as int) =~= start);
            assert(self@ =~= survivors(start, reports@));
            lemma_order_sweep(start, self.awaiting(), reports@);
        }
        let ghost before = self.waiting@;
        let mut j: usize = 0;
        assert(self.waiting@ =~= before + dead@.take(0));
        while j < dead.len()
            invariant
                j <= dead.len(),
                self@ == survivors(start, reports@),
                self.waiting@ == before + dead@.take(j as int),
                before == old(self).waiting@,
                dead@ == casualties(start, reports@),
                in_order(self@, before + dead@),
            decreases dead.len() - j,
        {
            self.waiting.push(dead[j]);
            assert(self.waiting@ =~= before + dead@.take(j + 1));
            j += 1;
        }
        assert(dead@.take(dead.len() as int) =~= dead@);
        self.waiting.clone()
    }

    /// One tick of access control for `port`. `server` is the configured server of that
    /// port and `manager` the fleet's settings; `roster` is what was read from the
    /// process, or nothing if the process could not be opened or read; `window_found`
    /// says whether the console window is there.
    ///
    /// A tick that fails leaves the books as they are. A tick that is made records the
    /// connected players as the snapshot for the next tick, and the names that it
    /// kicked.
    pub fn enforce(
        &mut self,
        port: u16,
        server: &Server,
        manager: &ServerManager,
        roster: Option<&Vec<PlayerSlot>>,
        window_found: bool,
    ) -> (r: Result<Enforcement, TickError>)
        requires
            old(self).wf(),
        ensures
            final(self).wf(),
            final(self).awaiting() == old(self).awaiting(),
            match r {
                Ok(e) => tick_ground(old(self)@, port, server@, roster is Some) is None
                    && made_tick(
                    old(self)@,
                    final(self)@,
                    e,
                    port,
                    server@,
                    manager@,
                    views(roster.unwrap()@),
                    window_found,
                ),
                Err(error) => tick_ground(old(self)@, port, server@, roster is Some) == Some(
                    error,
                ) && final(self)@ == old(self)@,
            },
    {
        let i = match self.find(port) {
            Some(i) => i,
            None => {
                return Err(TickError::NotTracked);
            },
        };
        let ci = match find_current_config(server) {
            Some(ci) => ci,
            None => {
                return Err(TickError::ProfileNotFound);
            },
        };
        if roster.is_none() {
            return Err(TickError::ProcessUnreadable);
        }
        let ghost before = self@[i as int];
        let mut entry = self.entries.remove(i);
        assert(entry@ == before);
        let outcome = enforce_player_lists(
            roster,
            &server.configs[ci],
            manager,
            &mut entry.kicked,
            entry.previous.as_ref(),
            window_found,
        );
        match outcome {
            Ok(e) => {
                entry.previous = Some(copy_slots(&e.connected));
                let ghost after = entry@;
                self.entries.insert(i, entry);
                proof {
                    assert(self@ =~= old(self)@.update(i as int, after));
                    lemma_order_same_ports(old(self)@, self@, self.awaiting());
                }
                Ok(e)
            },
            Err(_) => {
                self.entries.insert(i, entry);
                assert(self@ =~= old(self)@);
                Err(TickError::ProcessUnreadable)
            },
        }
    }
}

fn is_reported_alive(port: u16, pid: u32, reports: &Vec<Liveness>) -> (r: bool)
    ensures
        r == reported_alive(port, pid, reports@),
{
    let mut i: usize = 0;
    while i < reports.len()
        invariant
            i <= reports.len(),
            report_from(reports@, port, 0) == report_from(reports@, port, i as int),
        decreases reports.len() - i,
    {
        if reports[i].port == port {
            return process_is_alive(pid, reports[i].exit_code);
        }
        i += 1;
    }
    false
}

/// Why a tick of access control is not made for `port`, if it is not: no process is
/// tracked for the port; or the server's current profile does not exist; or the roster
/// could not be read. Asked in this order.
pub open spec fn tick_ground(
    s: Seq<EntryView>,
    port: u16,
    server: ServerView,
    roster_read: bool,
) -> Option<TickError> {
    if !tracks(s, port) {
        Some(TickError::NotTracked)
    } else if current_profile(server) is None {
        Some(TickError::ProfileNotFound)
    } else if !roster_read {
        Some(TickError::ProcessUnreadable)
    } else {
        None
    }
}

/// What a tick that is made comes to: the books `before` and `after` differ in the entry
/// for `port` alone, which has the connected players as its snapshot and the kicked names
/// that [`tick_kicks`] gives; and `e` reports the connected, the joined and the kicks.
pub open spec fn made_tick(
    before: Seq<EntryView>,
    after: Seq<EntryView>,
    e: Enforcement,
    port: u16,
    server: ServerView,
    manager: ServerManagerView,
    slots: Seq<PlayerSlotView>,
    window_found: bool,
) -> bool {
    let i = position(before, port).unwrap();
    let entry = before[i];
    let config = server.configs[current_profile(server).unwrap()];
    let outcome = tick_kicks(slots, entry.kicked, manager, config, window_found);
    let seen = match entry.previous {
        Some(p) => p,
        None => Seq::empty(),
    };
    &&& views(e.connected@) == occupied(slots)
    &&& views(e.joined@) == joined(occupied(slots), seen)
    &&& e.window_missing == (enforcement_needed(manager, config) && !window_found)
    &&& views(e.kicks@) == outcome.0
    &&& after == before.update(
        i,
        EntryView {
            port: entry.port,
            pid: entry.pid,
            kicked: outcome.1,
            previous: Some(occupied(slots)),
        },
    )
}

/// Whether access control for `server` will want the console window: its current
/// profile exists and some rule is in force.
pub fn wants_window(server: &Server, manager: &ServerManager) -> (r: bool)
    ensures
        r == match current_profile(server@) {
            Some(i) => enforcement_needed(manager@, server@.configs[i]),
            None => false,
        },
{
    match find_current_config(server) {
        Some(i) => needs_enforcement(manager, &server.configs[i]),
        None => false,
    }
}

/// The position of the first server on `port`, from position `from` on.
pub open spec fn server_from(servers: Seq<ServerView>, port: u16, from: int) -> Option<int>
    decreases servers.len() - from,
{
    if from < 0 || from >= servers.len() {
        None
    } else if servers[from].port == port {
        Some(from)
    } else {
        server_from(servers, port, from + 1)
    }
}

/// The configured server on `port`: the first one, where several share the port.
pub fn find_server(servers: &Vec<Server>, port: u16) -> (r: Option<usize>)
    ensures
        match r {
            Some(i) => server_from(views(servers@), port, 0) == Some(i as int) && i
                < servers.len(),
            None => server_from(views(servers@), port, 0) is None,
        },
{
    let mut i: usize = 0;
    while i < servers.len()
        invariant
            i <= servers.len(),
            server_from(views(servers@), port, 0) == server_from(views(servers@), port, i as int),
        decreases servers.len() - i,
    {
        assert(views(servers@)[i as int] == servers@[i as int]@);
        if servers[i].port == port {
            return Some(i);
        }
        i += 1;
    }
    None
}

/// Whether the fleet is due for its scheduled restart. It is not without an interval or
/// without servers. Else it is due when no record of the last restart can be read, or
/// when the record holds a time, in seconds, that lies at least `interval_days` whole
/// days before `now`. A record that holds no positive number, or a time after `now`,
/// never makes the restart due.
pub open spec fn restart_is_due(
    interval_days: u32,
    servers: nat,
    record: Option<Seq<char>>,
    now: u64,
) -> bool {
    interval_days > 0 && servers > 0 && match record {
        None => true,
        Some(text) => match parse_unsigned(trim(text), 0xFFFF_FFFF_FFFF_FFFF) {
            Some(then) => then > 0 && now >= then && (now - then) / (SECONDS_PER_DAY as int)
                >= interval_days,
            None => false,
        },
    }
}

/// Whether the fleet is due for its scheduled restart, given the interval in days, how
/// many servers are configured, the record of the last restart if it could be read, and
/// the time in seconds.
pub fn restart_due(interval_days: u32, servers: usize, record: Option<&str>, now: u64) -> (r: bool)
    ensures
        r == restart_is_due(
            interval_days,
            servers as nat,
            match record {
                Some(text) => Some(text@),
                None => None,
            },
            now,
        ),
{
    if interval_days == 0 || servers == 0 {
        return false;
    }
    match record {
        None => true,
        Some(text) => {
            let chars = to_chars(text);
            let inner = trimmed(&chars);
            match parse_u64(&inner) {
                Some(then) => then > 0 && now >= then && (now - then) / SECONDS_PER_DAY
                    >= interval_days as u64,
                None => false,
            }
        },
    }
}

} // verus!
