//! Who must leave: ban entries, the whitelist, and the order in which they are asked.
//!
//! An entry is an address, or an address, the mark `:>` and a comment. Only the address
//! decides whether an entry matches a player; the comment is shown to the player who is
//! kicked.

use vstd::prelude::*;
use vstd::string::StringExecFns;
use crate::server::{ServerConfig, ServerConfigView, ServerManager, ServerManagerView};
use crate::text::{
    contains, find, from_chars, lemma_find_from, occurs_at, position, same, slice, texts,
    to_chars, trim, trimmed,
};

verus! {

/// The most characters that a notice to the players can have.
pub const ASA_MAX_LEN: usize = 43;

/// The most characters of a ban's comment that a notice shows.
pub const BAN_REASON_MAX_LEN: usize = 21;

/// The address of an entry: what stands before the mark, or the whole entry if it has no
/// mark; trimmed either way.
pub open spec fn entry_address(entry: Seq<char>) -> Seq<char> {
    match find(entry, ":>"@) {
        Some(at) => trim(entry.take(at)),
        None => trim(entry),
    }
}

/// The comment of an entry: what stands after the mark, trimmed, if that is not empty.
pub open spec fn entry_note(entry: Seq<char>) -> Option<Seq<char>> {
    match find(entry, ":>"@) {
        Some(at) => {
            let note = trim(entry.skip(at + 2));
            if note.len() > 0 {
                Some(note)
            } else {
                None
            }
        },
        None => None,
    }
}

/// Whether an entry is about the player at address `ip`. The player's name plays no part.
pub open spec fn entry_matches(entry: Seq<char>, ip: Seq<char>) -> bool {
    entry_address(entry) == trim(ip)
}

fn mark() -> (r: Vec<char>)
    ensures
        r@ == ":>"@,
        r@.len() == 2,
{
    proof {
        reveal_strlit(":>");
    }
    to_chars(":>")
}

fn address_of(entry: &Vec<char>) -> (r: Vec<char>)
    ensures
        r@ == entry_address(entry@),
{
    let m = mark();
    match position(entry, &m) {
        Some(at) => {
            proof {
                lemma_find_from(entry@, m@, 0);
            }
            let head = slice(entry, 0, at);
            assert(head@ =~= entry@.take(at as int));
            trimmed(&head)
        },
        None => trimmed(entry),
    }
}

/// The address of an entry.
pub fn entry_ip(entry: &str) -> (r: String)
    ensures
        r@ == entry_address(entry@),
{
    let chars = to_chars(entry);
    let address = address_of(&chars);
    from_chars(&address)
}

/// The comment of an entry, if it has one.
pub fn entry_comment(entry: &str) -> (r: Option<String>)
    ensures
        match r {
            Some(note) => entry_note(entry@) == Some(note@),
            None => entry_note(entry@) is None,
        },
{
    let chars = to_chars(entry);
    let m = mark();
    match position(&chars, &m) {
        Some(at) => {
            proof {
                lemma_find_from(chars@, m@, 0);
            }
            let tail = slice(&chars, at + 2, chars.len());
            assert(tail@ =~= chars@.skip(at + 2));
            let note = trimmed(&tail);
            if note.len() > 0 {
                Some(from_chars(&note))
            } else {
                None
            }
        },
        None => None,
    }
}

/// The first entry of `list`, from position `from` on, that matches `ip`.
pub open spec fn first_match_from(list: Seq<Seq<char>>, ip: Seq<char>, from: int) -> Option<int>
    decreases list.len() - from,
{
    if from < 0 || from >= list.len() {
        None
    } else if entry_matches(list[from], ip) {
        Some(from)
    } else {
        first_match_from(list, ip, from + 1)
    }
}

/// The first entry of `list` that matches `ip`.
pub open spec fn first_match(list: Seq<Seq<char>>, ip: Seq<char>) -> Option<int> {
    first_match_from(list, ip, 0)
}

/// `first_match_from` gives a matching entry, and the first such one.
pub proof fn lemma_first_match(list: Seq<Seq<char>>, ip: Seq<char>, from: int)
    requires
        0 <= from,
    ensures
        match first_match_from(list, ip, from) {
            Some(i) => from <= i < list.len() && entry_matches(list[i], ip) && forall|j: int|
                from <= j < i ==> !entry_matches(#[trigger] list[j], ip),
            None => forall|j: int|
                from <= j < list.len() ==> !entry_matches(#[trigger] list[j], ip),
        },
    decreases list.len() - from,
{
    if from < list.len() && !entry_matches(list[from], ip) {
        lemma_first_match(list, ip, from + 1);
    }
}

fn matching_entry(list: &Vec<String>, ip: &str) -> (r: Option<usize>)
    ensures
        match r {
            Some(i) => first_match(texts(list@), ip@) == Some(i as int) && i
                < list.len(),
            None => first_match(texts(list@), ip@) is None,
        },
{
    let ip_chars = to_chars(ip);
    let wanted = trimmed(&ip_chars);
    let ghost entries = texts(list@);
    let mut i: usize = 0;
    while i < list.len()
        invariant
            i <= list.len(),
            wanted@ == trim(ip@),
            entries == texts(list@),
            first_match(entries, ip@) == first_match_from(entries, ip@, i as int),
        decreases list.len() - i,
    {
        let chars = to_chars(list[i].as_str());
        let address = address_of(&chars);
        assert(entries[i as int] == list@[i as int]@);
        if same(&address, &wanted) {
            return Some(i);
        }
        i += 1;
    }
    None
}

/// Why a player is kicked.
#[derive(Debug, Clone, Copy, PartialEq, Eq, Structural)]
pub enum KickReason {
    /// The address is on the fleet's forced ban list.
    ForcedBan,
    /// The address is on the profile's ban list.
    Ban,
    /// The whitelist is on and the address is not on it.
    NotInWhitelist,
}

/// A decision to kick: the reason, and for a ban the position of the entry that matched,
/// in the list that the reason names.
#[derive(Debug, Clone, Copy, PartialEq, Eq, Structural)]
pub struct Verdict {
    pub reason: KickReason,
    pub entry: Option<usize>,
}

/// Whether the fleet's forced ban list is in force: it is as soon as it holds an entry.
pub open spec fn forced_bans_active(m: ServerManagerView) -> bool {
    m.forced_ban_list.len() > 0
}

/// Whether any rule at all could kick a player. Where none can, a tick has nothing to
/// enforce.
pub open spec fn enforcement_needed(m: ServerManagerView, c: ServerConfigView) -> bool {
    forced_bans_active(m) || c.ban_list.len() > 0 || c.enable_whitelist
}

/// What is decided about the player at `ip`. The rules are asked in a fixed order and the
/// first that applies decides: the forced ban list, the profile's ban list, the whitelist.
pub open spec fn verdict(ip: Seq<char>, m: ServerManagerView, c: ServerConfigView) -> Option<
    Verdict,
> {
    if forced_bans_active(m) && first_match(m.forced_ban_list, ip) is Some {
        Some(
            Verdict {
                reason: KickReason::ForcedBan,
                entry: Some(first_match(m.forced_ban_list, ip).unwrap() as usize),
            },
        )
    } else if first_match(c.ban_list, ip) is Some {
        Some(
            Verdict {
                reason: KickReason::Ban,
                entry: Some(first_match(c.ban_list, ip).unwrap() as usize),
            },
        )
    } else if c.enable_whitelist && first_match(c.whitelist, ip) is None {
        Some(Verdict { reason: KickReason::NotInWhitelist, entry: None })
    } else {
        None
    }
}

/// Whether any rule at all could kick a player.
pub fn needs_enforcement(manager: &ServerManager, config: &ServerConfig) -> (r: bool)
    ensures
        r == enforcement_needed(manager@, config@),
{
    manager.forced_ban_list.len() > 0 || config.ban_list.len() > 0 || config.enable_whitelist
}

/// Decides about the player at `ip`.
///
/// A player whose address is on the forced ban list is kicked for that, whatever the
/// other lists say.
pub fn judge(ip: &str, manager: &ServerManager, config: &ServerConfig) -> (r: Option<Verdict>)
    ensures
        r == verdict(ip@, manager@, config@),
{
    match matching_entry(&manager.forced_ban_list, ip) {
        Some(i) => {
            return Some(Verdict { reason: KickReason::ForcedBan, entry: Some(i) });
        },
        None => {},
    }
    match matching_entry(&config.ban_list, ip) {
        Some(i) => {
            return Some(Verdict { reason: KickReason::Ban, entry: Some(i) });
        },
        None => {},
    }
    if config.enable_whitelist {
        match matching_entry(&config.whitelist, ip) {
            Some(_) => {},
            None => {
                return Some(Verdict { reason: KickReason::NotInWhitelist, entry: None });
            },
        }
    }
    None
}

/// A forced ban comes first. A player whose address is on the forced ban list is kicked
/// for the forced ban: not for the profile's ban list, and not for being off the
/// whitelist, whatever those say.
pub proof fn forced_ban_comes_first(ip: Seq<char>, m: ServerManagerView, c: ServerConfigView)
    requires
        first_match(m.forced_ban_list, ip) is Some,
    ensures
        verdict(ip, m, c) is Some,
        verdict(ip, m, c).unwrap().reason == KickReason::ForcedBan,
        verdict(ip, m, c).unwrap().entry == Some(
            first_match(m.forced_ban_list, ip).unwrap() as usize,
        ),
{
    lemma_first_match(m.forced_ban_list, ip, 0);
}

/// A rule that kicks is a rule in force: where nobody needs to be looked at, nobody is
/// kicked.
pub proof fn verdict_needs_enforcement(ip: Seq<char>, m: ServerManagerView, c: ServerConfigView)
    requires
        verdict(ip, m, c) is Some,
    ensures
        enforcement_needed(m, c),
{
    lemma_first_match(m.forced_ban_list, ip, 0);
    lemma_first_match(c.ban_list, ip, 0);
}

/// The entry that a verdict rests on, if it rests on one.
pub open spec fn verdict_entry(v: Verdict, m: ServerManagerView, c: ServerConfigView) -> Option<
    Seq<char>,
> {
    match (v.reason, v.entry) {
        (KickReason::ForcedBan, Some(i)) => if i < m.forced_ban_list.len() {
            Some(m.forced_ban_list[i as int])
        } else {
            None
        },
        (KickReason::Ban, Some(i)) => if i < c.ban_list.len() {
            Some(c.ban_list[i as int])
        } else {
            None
        },
        _ => None,
    }
}

/// `s`, cut after `n` characters if it has more.
pub open spec fn truncated(s: Seq<char>, n: nat) -> Seq<char> {
    if s.len() > n {
        s.take(n as int)
    } else {
        s
    }
}

/// What the players are told when `name` is kicked: that the player is not on the
/// whitelist, or that the player is banned and why. The comment of the matching entry is
/// the reason, cut to [`BAN_REASON_MAX_LEN`]; the whole notice is cut to [`ASA_MAX_LEN`].
pub open spec fn notice(name: Seq<char>, reason: KickReason, entry: Option<Seq<char>>) -> Seq<
    char,
> {
    let who = trim(name);
    let whole = match reason {
        KickReason::NotInWhitelist => who + " not in whitelist."@,
        _ => {
            let why = match entry {
                Some(e) => match entry_note(e) {
                    Some(note) => note,
                    None => "(none)"@,
                },
                None => "(none)"@,
            };
            who + " is banned. Reason: "@ + truncated(why, BAN_REASON_MAX_LEN as nat)
        },
    };
    truncated(whole, ASA_MAX_LEN as nat)
}

fn cut(s: &Vec<char>, n: usize) -> (r: Vec<char>)
    ensures
        r@ == truncated(s@, n as nat),
{
    if s.len() > n {
        let r = slice(s, 0, n);
        assert(r@ =~= s@.take(n as int));
        r
    } else {
        let r = slice(s, 0, s.len());
        assert(r@ =~= s@);
        r
    }
}

/// The notice for a kick.
pub fn asay_message_for_kick(
    player_name: &str,
    reason: KickReason,
    matching_entry: Option<&str>,
) -> (r: String)
    ensures
        r@ == notice(
            player_name@,
            reason,
            match matching_entry {
                Some(e) => Some(e@),
                None => None,
            },
        ),
{
    let name_chars = to_chars(player_name);
    let who = trimmed(&name_chars);
    let mut whole = from_chars(&who);
    match reason {
        KickReason::NotInWhitelist => {
            whole.append(" not in whitelist.");
        },
        _ => {
            let note: Option<String> = match matching_entry {
                Some(e) => entry_comment(e),
                None => None,
            };
            let why: Vec<char> = match note {
                Some(n) => to_chars(n.as_str()),
                None => to_chars("(none)"),
            };
            let shown = cut(&why, BAN_REASON_MAX_LEN);
            whole.append(" is banned. Reason: ");
            whole.append(from_chars(&shown).as_str());
        },
    }
    let all = to_chars(whole.as_str());
    let out = cut(&all, ASA_MAX_LEN);
    from_chars(&out)
}

/// An entry made of an address, the mark and a comment matches by its address alone:
/// whatever the comment says, and whoever the player is, the entry is about the player
/// at `ip` exactly if the address, trimmed, is `ip`, trimmed. So an entry for one address
/// never matches another, not even one that it is the beginning of.
pub proof fn entry_matches_by_address(address: Seq<char>, comment: Seq<char>, ip: Seq<char>)
    requires
        !contains(address, ":>"@),
    ensures
        entry_matches(address + ":>"@ + comment, ip) <==> trim(address) == trim(ip),
        entry_matches(address, ip) <==> trim(address) == trim(ip),
{
    reveal_strlit(":>");
    let m = ":>"@;
    let entry = address + m + comment;
    lemma_find_from(address, m, 0);
    lemma_find_from(entry, m, 0);
    assert(entry.subrange(address.len() as int, address.len() as int + 2) =~= m);
    assert(occurs_at(entry, m, address.len() as int));
    assert forall|j: int| 0 <= j < address.len() implies !occurs_at(entry, m, j) by {
        if occurs_at(entry, m, j) {
            let w = entry.subrange(j, j + 2);
            assert(w[0] == ':' && w[1] == '>');
            if j + 2 <= address.len() {
                assert(address.subrange(j, j + 2) =~= m);
                assert(occurs_at(address, m, j));
            } else {
                assert(entry[j + 1] == ':');
            }
        }
    }
    assert(find(entry, m) == Some(address.len() as int));
    assert(entry.take(address.len() as int) =~= address);
}

} // verus!
