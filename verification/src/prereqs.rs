//! What the servers need from the machine they run on: the DirectPlay feature, a
//! registry setting, and entries in the hosts file. This module reads what the system's
//! tools have answered and says what is to be written; running the tools and writing is
//! the caller's part.

use vstd::prelude::*;
use vstd::string::StringExecFns;
use crate::text::{
    alike, contains, from_chars, includes, is_whitespace, join, joined, lemma_lines_append_line,
    lemma_lines_stay, lemma_trim_tight, lemma_two_words, lines, lines_scan, rows, same,
    same_ignoring_case, split_lines, split_words, strip_cr, text_is, texts, to_chars, trim,
    trimmed, words,
};
use crate::trusted::{lowercase_of, to_lowercase};

verus! {

/// The value that each of the four registry settings must have.
pub const REG_REQUIRED: u32 = 2;

/// Whether the registry setting is in place: all four values are there and are
/// [`REG_REQUIRED`].
pub fn registry_fix_applied(
    hd2ds: Option<u32>,
    hd2ds_sabresquadron: Option<u32>,
    hd2_sabresquadron: Option<u32>,
    hd2: Option<u32>,
) -> (r: bool)
    ensures
        r == (hd2ds == Some(REG_REQUIRED) && hd2ds_sabresquadron == Some(REG_REQUIRED)
            && hd2_sabresquadron == Some(REG_REQUIRED) && hd2 == Some(REG_REQUIRED)),
{
    is_required(hd2ds) && is_required(hd2ds_sabresquadron) && is_required(hd2_sabresquadron)
        && is_required(hd2)
}

fn is_required(value: Option<u32>) -> (r: bool)
    ensures
        r == (value == Some(REG_REQUIRED)),
{
    match value {
        Some(v) => v == REG_REQUIRED,
        None => false,
    }
}

/// The names of the four registry values, in the order in which they are written.
pub open spec fn registry_names() -> Seq<Seq<char>> {
    seq!["HD2DS"@, "HD2DS_SabreSquadron"@, "HD2_SabreSquadron"@, "hd2"@]
}

/// What the registry fix writes: each of the four names with [`REG_REQUIRED`].
pub fn apply_registry_fix() -> (r: Vec<(String, u32)>)
    ensures
        r@.len() == 4,
        forall|i: int|
            0 <= i < 4 ==> (#[trigger] r@[i]).0@ == registry_names()[i] && r@[i].1 == REG_REQUIRED,
{
    let mut r: Vec<(String, u32)> = Vec::new();
    r.push((String::from_str("HD2DS"), REG_REQUIRED));
    r.push((String::from_str("HD2DS_SabreSquadron"), REG_REQUIRED));
    r.push((String::from_str("HD2_SabreSquadron"), REG_REQUIRED));
    r.push((String::from_str("hd2"), REG_REQUIRED));
    r
}

/// The lines of a text, each trimmed and in lower case.
pub open spec fn lowered_lines(text: Seq<char>) -> Seq<Seq<char>> {
    Seq::new(lines(text).len(), |i: int| lowercase_of(trim(lines(text)[i])))
}

fn lines_in_lower_case(text: &str) -> (r: Vec<String>)
    ensures
        texts(r@) == lowered_lines(text@),
{
    let chars = to_chars(text);
    let all = split_lines(&chars);
    let mut r: Vec<String> = Vec::new();
    let mut i: usize = 0;
    while i < all.len()
        invariant
            i <= all.len(),
            rows(all@) == lines(text@),
            r@.len() == i,
            forall|j: int| 0 <= j < i ==> (#[trigger] r@[j])@ == lowered_lines(text@)[j],
        decreases all.len() - i,
    {
        assert(rows(all@)[i as int] == all@[i as int]@);
        let inner = trimmed(&all[i]);
        r.push(to_lowercase(from_chars(&inner).as_str()));
        i += 1;
    }
    assert(texts(r@) =~= lowered_lines(text@));
    r
}

/// Whether a line, in lower case, states that something is enabled.
pub open spec fn states_enabled(line: Seq<char>) -> bool {
    contains(line, "state"@) && contains(line, "enabled"@)
}

/// What the first line from `from` on that states a state says: enabled, unless it says
/// disabled. False if no line states a state.
pub open spec fn first_state_from(ls: Seq<Seq<char>>, from: int) -> bool
    decreases ls.len() - from,
{
    if from < 0 || from >= ls.len() {
        false
    } else if states_enabled(ls[from]) {
        !contains(ls[from], "disabled"@)
    } else {
        first_state_from(ls, from + 1)
    }
}

/// What the feature's own report says, given the report and its lines in lower case: it
/// must name the feature, and the first line that states a state decides.
pub open spec fn info_says_enabled(text_lower: Seq<char>, lines_lower: Seq<Seq<char>>) -> bool {
    contains(text_lower, "directplay"@) && first_state_from(lines_lower, 0)
}

fn mentions(line: &str, word: &str) -> (r: bool)
    ensures
        r == contains(line@, word@),
{
    includes(&to_chars(line), &to_chars(word))
}

/// Reads the feature's own report.
pub fn feature_info_enabled(text_lower: &str, lines_lower: &Vec<String>) -> (r: bool)
    ensures
        r == info_says_enabled(text_lower@, texts(lines_lower@)),
{
    if !mentions(text_lower, "directplay") {
        return false;
    }
    let mut i: usize = 0;
    while i < lines_lower.len()
        invariant
            i <= lines_lower.len(),
            contains(text_lower@, "directplay"@),
            first_state_from(texts(lines_lower@), 0) == first_state_from(
                texts(lines_lower@),
                i as int,
            ),
        decreases lines_lower.len() - i,
    {
        let line = lines_lower[i].as_str();
        assert(texts(lines_lower@)[i as int] == line@);
        if mentions(line, "state") && mentions(line, "enabled") {
            return !mentions(line, "disabled");
        }
        i += 1;
    }
    false
}

/// Whether a line, in lower case, opens the block of another feature.
pub open spec fn names_other_feature(line: Seq<char>) -> bool {
    (contains(line, "feature name"@) || contains(line, "featurename"@)) && !contains(
        line,
        "directplay"@,
    )
}

/// What the list of all features says from line `from` on, given whether the lines
/// before have led into the feature's block: true as soon as a line in the block states
/// that the feature is enabled and not disabled.
pub open spec fn list_says_from(ls: Seq<Seq<char>>, from: int, inside: bool) -> bool
    decreases ls.len() - from,
{
    if from < 0 || from >= ls.len() {
        false
    } else {
        let line = ls[from];
        let now_inside = inside || contains(line, "directplay"@);
        if now_inside && states_enabled(line) && !contains(line, "disabled"@) {
            true
        } else {
            list_says_from(ls, from + 1, now_inside && !names_other_feature(line))
        }
    }
}

/// Reads the list of all features, given its lines in lower case.
pub fn feature_list_enabled(lines_lower: &Vec<String>) -> (r: bool)
    ensures
        r == list_says_from(texts(lines_lower@), 0, false),
{
    let mut inside: bool = false;
    let mut i: usize = 0;
    while i < lines_lower.len()
        invariant
            i <= lines_lower.len(),
            list_says_from(texts(lines_lower@), 0, false) == list_says_from(
                texts(lines_lower@),
                i as int,
                inside,
            ),
        decreases lines_lower.len() - i,
    {
        let line = lines_lower[i].as_str();
        assert(texts(lines_lower@)[i as int] == line@);
        if mentions(line, "directplay") {
            inside = true;
        }
        if inside {
            if mentions(line, "state") && mentions(line, "enabled") && !mentions(line, "disabled") {
                return true;
            }
            if (mentions(line, "feature name") || mentions(line, "featurename")) && !mentions(
                line,
                "directplay",
            ) {
                inside = false;
            }
        }
        i += 1;
    }
    false
}

/// Whether a state, trimmed and in lower case, is `enabled`.
pub fn state_enabled(state_lower: &str) -> (r: bool)
    ensures
        r == (state_lower@ == "enabled"@),
{
    text_is(state_lower, "enabled")
}

/// Whether a text, trimmed and put in lower case, is `enabled`.
pub open spec fn reads_enabled(text: Seq<char>) -> bool {
    lowercase_of(trim(text)) == "enabled"@
}

/// Whether a text, but for white space around it and for case, is `enabled`. This is how
/// the answer of the feature query is read, and the result that an elevated check has
/// written down.
pub fn reported_enabled(text: &str) -> (r: bool)
    ensures
        r == reads_enabled(text@),
{
    let inner = trimmed(&to_chars(text));
    let lower = to_lowercase(from_chars(&inner).as_str());
    state_enabled(lower.as_str())
}

/// What the three tools say together: the feature counts as enabled if the feature's own
/// report says so, or the list of all features, or the feature query. A tool that could
/// not be run says nothing.
pub open spec fn tools_say_enabled(
    feature_info: Option<Seq<char>>,
    feature_list: Option<Seq<char>>,
    query: Option<Seq<char>>,
) -> bool {
    ||| feature_info is Some && info_says_enabled(
        lowercase_of(feature_info.unwrap()),
        lowered_lines(feature_info.unwrap()),
    )
    ||| feature_list is Some && list_says_from(lowered_lines(feature_list.unwrap()), 0, false)
    ||| query is Some && reads_enabled(query.unwrap())
}

/// The view of a text that may be missing.
pub open spec fn shown(text: Option<&str>) -> Option<Seq<char>> {
    match text {
        Some(t) => Some(t@),
        None => None,
    }
}

/// Whether DirectPlay is enabled, given what the feature's own report, the list of all
/// features and the feature query have printed; nothing for a tool that could not be
/// run.
pub fn directplay_enabled(
    feature_info: Option<&str>,
    feature_list: Option<&str>,
    query: Option<&str>,
) -> (r: bool)
    ensures
        r == tools_say_enabled(shown(feature_info), shown(feature_list), shown(query)),
{
    match feature_info {
        Some(text) => {
            let lower = to_lowercase(text);
            let ls = lines_in_lower_case(text);
            if feature_info_enabled(lower.as_str(), &ls) {
                return true;
            }
        },
        None => {},
    }
    match feature_list {
        Some(text) => {
            let ls = lines_in_lower_case(text);
            if feature_list_enabled(&ls) {
                return true;
            }
        },
        None => {},
    }
    match query {
        Some(text) => reported_enabled(text),
        None => false,
    }
}

/// What an elevated check writes down for the process that asked: `enabled` or
/// `disabled`.
pub fn run_check_directplay_and_write_result(
    feature_info: Option<&str>,
    feature_list: Option<&str>,
    query: Option<&str>,
) -> (r: &'static str)
    ensures
        r@ == if tools_say_enabled(shown(feature_info), shown(feature_list), shown(query)) {
            "enabled"@
        } else {
            "disabled"@
        },
{
    if directplay_enabled(feature_info, feature_list, query) {
        "enabled"
    } else {
        "disabled"
    }
}

/// What enabling the feature came to, given whether the tool succeeded and what it wrote
/// to its error stream.
pub fn enable_directplay(succeeded: bool, errors: &str) -> (r: Result<(), String>)
    ensures
        succeeded <==> r is Ok,
        r is Err ==> r.unwrap_err()@ == "DISM failed: "@ + trim(errors@),
{
    if succeeded {
        Ok(())
    } else {
        let mut message = String::from_str("DISM failed: ");
        let inner = trimmed(&to_chars(errors));
        message.append(from_chars(&inner).as_str());
        Err(message)
    }
}

/// The address that the game's master servers are given.
pub open spec fn gamespy_address() -> Seq<char> {
    "78.47.255.224"@
}

/// The names of the game's master servers.
pub open spec fn gamespy_hosts() -> Seq<Seq<char>> {
    seq![
        "key.gamespy.com"@,
        "master.gamespy.com"@,
        "master0.gamespy.com"@,
        "hd2.available.gamespy.com"@,
        "hd2.master.gamespy.com"@,
        "hd2.ms14.gamespy.com"@,
        "natneg1.gamespy.com"@,
        "natneg2.gamespy.com"@,
        "natneg3.gamespy.com"@,
    ]
}

fn host_names() -> (r: Vec<String>)
    ensures
        texts(r@) == gamespy_hosts(),
{
    let mut r: Vec<String> = Vec::new();
    r.push(String::from_str("key.gamespy.com"));
    r.push(String::from_str("master.gamespy.com"));
    r.push(String::from_str("master0.gamespy.com"));
    r.push(String::from_str("hd2.available.gamespy.com"));
    r.push(String::from_str("hd2.master.gamespy.com"));
    r.push(String::from_str("hd2.ms14.gamespy.com"));
    r.push(String::from_str("natneg1.gamespy.com"));
    r.push(String::from_str("natneg2.gamespy.com"));
    r.push(String::from_str("natneg3.gamespy.com"));
    assert(texts(r@) =~= gamespy_hosts());
    r
}

/// Whether a line of the hosts file is an entry: not empty and not a comment.
pub open spec fn is_entry(line: Seq<char>) -> bool {
    trim(line).len() > 0 && trim(line)[0] != '#'
}

/// Whether one of `ws`, from position `from` on, is `host` but for case.
pub open spec fn word_is_host(ws: Seq<Seq<char>>, from: int, host: Seq<char>) -> bool {
    exists|k: int| from <= k < ws.len() && same_ignoring_case(#[trigger] ws[k], host)
}

/// Whether a line of the hosts file is an entry that names one of the master servers,
/// with whatever address.
pub open spec fn names_gamespy_host(line: Seq<char>) -> bool {
    is_entry(line) && exists|h: int|
        0 <= h < gamespy_hosts().len() && word_is_host(
            words(trim(line)),
            0,
            #[trigger] gamespy_hosts()[h],
        )
}

fn any_word_is(ws: &Vec<Vec<char>>, from: usize, host: &Vec<char>) -> (r: bool)
    ensures
        r == word_is_host(rows(ws@), from as int, host@),
{
    let mut k: usize = from;
    while k < ws.len()
        invariant
            from <= k,
            forall|j: int|
                from <= j < k && j < ws.len() ==> !same_ignoring_case(
                    #[trigger] rows(ws@)[j],
                    host@,
                ),
        decreases ws.len() - k,
    {
        assert(rows(ws@)[k as int] == ws@[k as int]@);
        if alike(&ws[k], host) {
            return true;
        }
        k += 1;
    }
    false
}

/// Whether a line of the hosts file names one of the master servers.
pub fn line_has_gamepy_host(line: &str) -> (r: bool)
    ensures
        r == names_gamespy_host(line@),
{
    let t = trimmed(&to_chars(line));
    if t.len() == 0 || t[0] == '#' {
        return false;
    }
    let ws = split_words(&t);
    let hosts = host_names();
    let mut h: usize = 0;
    while h < hosts.len()
        invariant
            h <= hosts.len(),
            texts(hosts@) == gamespy_hosts(),
            rows(ws@) == words(trim(line@)),
            is_entry(line@),
            forall|j: int|
                0 <= j < h ==> !word_is_host(words(trim(line@)), 0, #[trigger] gamespy_hosts()[j]),
        decreases hosts.len() - h,
    {
        assert(texts(hosts@)[h as int] == hosts@[h as int]@);
        if any_word_is(&ws, 0, &to_chars(hosts[h].as_str())) {
            assert(word_is_host(words(trim(line@)), 0, gamespy_hosts()[h as int]));
            return true;
        }
        h += 1;
    }
    false
}

/// Whether a line of the hosts file gives `host` the right address: an entry whose first
/// word is the address and one of whose other words is the host, but for case.
pub open spec fn assigns_host(line: Seq<char>, host: Seq<char>) -> bool {
    let ws = words(trim(line));
    is_entry(line) && ws.len() >= 2 && ws[0] == gamespy_address() && word_is_host(ws, 1, host)
}

/// Whether some line of `ls` gives `host` the right address.
pub open spec fn host_assigned(ls: Seq<Seq<char>>, host: Seq<char>) -> bool {
    exists|i: int| 0 <= i < ls.len() && assigns_host(#[trigger] ls[i], host)
}

/// Whether a hosts file gives every master server the right address.
pub open spec fn all_hosts_assigned(content: Seq<char>) -> bool {
    forall|h: int|
        0 <= h < gamespy_hosts().len() ==> host_assigned(
            lines(content),
            #[trigger] gamespy_hosts()[h],
        )
}

fn line_assigns(line: &Vec<char>, address: &Vec<char>, host: &Vec<char>) -> (r: bool)
    requires
        address@ == gamespy_address(),
    ensures
        r == assigns_host(line@, host@),
{
    let t = trimmed(line);
    if t.len() == 0 || t[0] == '#' {
        return false;
    }
    let ws = split_words(&t);
    if ws.len() < 2 {
        assert(rows(ws@).len() == ws@.len());
        return false;
    }
    assert(rows(ws@)[0] == ws@[0]@);
    if !same(&ws[0], address) {
        return false;
    }
    any_word_is(&ws, 1, host)
}

/// Whether the hosts file, given by its content, gives every master server the right
/// address. An entry with another address does not count.
pub fn gamepy_hosts_applied(content: &str) -> (r: bool)
    ensures
        r == all_hosts_assigned(content@),
{
    let all = split_lines(&to_chars(content));
    let hosts = host_names();
    let address = to_chars("78.47.255.224");
    let mut h: usize = 0;
    while h < hosts.len()
        invariant
            h <= hosts.len(),
            texts(hosts@) == gamespy_hosts(),
            rows(all@) == lines(content@),
            address@ == gamespy_address(),
            forall|j: int|
                0 <= j < h ==> host_assigned(lines(content@), #[trigger] gamespy_hosts()[j]),
        decreases hosts.len() - h,
    {
        assert(texts(hosts@)[h as int] == hosts@[h as int]@);
        let host = to_chars(hosts[h].as_str());
        let mut found: bool = false;
        let mut i: usize = 0;
        while i < all.len() && !found
            invariant
                i <= all.len(),
                rows(all@) == lines(content@),
                address@ == gamespy_address(),
                found ==> host_assigned(lines(content@), host@),
                !found ==> forall|j: int|
                    0 <= j < i ==> !assigns_host(#[trigger] lines(content@)[j], host@),
            decreases all.len() - i,
        {
            assert(rows(all@)[i as int] == all@[i as int]@);
            if line_assigns(&all[i], &address, &host) {
                found = true;
            }
            i += 1;
        }
        if !found {
            assert(!host_assigned(lines(content@), gamespy_hosts()[h as int]));
            return false;
        }
        h += 1;
    }
    true
}

/// The lines that do not name a master server, in order.
pub open spec fn foreign_lines(ls: Seq<Seq<char>>) -> Seq<Seq<char>>
    decreases ls.len(),
{
    if ls.len() == 0 {
        Seq::empty()
    } else if names_gamespy_host(ls.last()) {
        foreign_lines(ls.drop_last())
    } else {
        foreign_lines(ls.drop_last()).push(ls.last())
    }
}

/// The entries for the master servers, one to a line, from position `from` on.
pub open spec fn host_block_from(from: int) -> Seq<char>
    decreases gamespy_hosts().len() - from,
{
    if from < 0 || from >= gamespy_hosts().len() {
        Seq::empty()
    } else {
        gamespy_address() + "  "@ + gamespy_hosts()[from] + "\n"@ + host_block_from(from + 1)
    }
}

/// The lines of a hosts file that are kept, joined again, with a line feed at the end
/// unless nothing is kept.
pub open spec fn kept_text(content: Seq<char>) -> Seq<char> {
    let kept = join(foreign_lines(lines(content)), "\n"@);
    if kept.len() > 0 && kept.last() != '\n' {
        kept + "\n"@
    } else {
        kept
    }
}

/// The hosts file after the fix: the lines that name no master server, a blank line, a
/// comment, and an entry for each master server with the right address.
pub open spec fn fixed_hosts(content: Seq<char>) -> Seq<char> {
    kept_text(content) + "\n"@ + "# HD2 GameSpy (added by Spectre)\n"@ + host_block_from(0)
}

/// What to write to the hosts file, given what it holds. Every line that names a master
/// server goes, whatever its address, and fresh entries are added at the end.
pub fn apply_gamepy_hosts(content: &str) -> (r: String)
    ensures
        r@ == fixed_hosts(content@),
{
    let all = split_lines(&to_chars(content));
    let mut kept: Vec<String> = Vec::new();
    let mut i: usize = 0;
    assert(rows(all@).take(0) =~= Seq::<Seq<char>>::empty());
    assert(texts(kept@) =~= Seq::<Seq<char>>::empty());
    while i < all.len()
        invariant
            i <= all.len(),
            rows(all@) == lines(content@),
            texts(kept@) == foreign_lines(rows(all@).take(i as int)),
        decreases all.len() - i,
    {
        proof {
            let upto = rows(all@).take(i + 1);
            assert(upto.drop_last() =~= rows(all@).take(i as int));
            assert(upto.last() == all@[i as int]@);
        }
        let line = from_chars(&all[i]);
        if !line_has_gamepy_host(line.as_str()) {
            let ghost before = texts(kept@);
            kept.push(line);
            assert(texts(kept@) =~= before.push(all@[i as int]@));
        }
        i += 1;
    }
    assert(rows(all@).take(all.len() as int) =~= rows(all@));
    let mut out = joined(&kept, "\n");
    let chars = to_chars(out.as_str());
    proof {
        reveal_strlit("\n");
    }
    if chars.len() > 0 && chars[chars.len() - 1] != '\n' {
        out.append("\n");
    }
    assert(out@ == kept_text(content@));
    out.append("\n");
    out.append("# HD2 GameSpy (added by Spectre)\n");
    let hosts = host_names();
    let ghost head = out@;
    let mut h: usize = 0;
    assert(head + host_block_from(0) =~= out@ + host_block_from(0));
    while h < hosts.len()
        invariant
            h <= hosts.len(),
            texts(hosts@) == gamespy_hosts(),
            out@ + host_block_from(h as int) == head + host_block_from(0),
        decreases hosts.len() - h,
    {
        let ghost before = out@;
        assert(texts(hosts@)[h as int] == hosts@[h as int]@);
        out.append("78.47.255.224");
        out.append("  ");
        out.append(hosts[h].as_str());
        out.append("\n");
        assert(out@ + host_block_from(h + 1) =~= before + host_block_from(h as int));
        h += 1;
    }
    assert(out@ =~= head + host_block_from(0));
    out
}

/// Whether a text is a word without white space in it.
pub open spec fn solid(w: Seq<char>) -> bool {
    w.len() > 0 && forall|i: int| 0 <= i < w.len() ==> !is_whitespace(#[trigger] w[i])
}

/// The address and the names of the master servers are words without white space.
proof fn lemma_names_solid(h: int)
    requires
        0 <= h < gamespy_hosts().len(),
    ensures
        solid(gamespy_address()),
        gamespy_address()[0] == '7',
        solid(gamespy_hosts()[h]),
{
    reveal_strlit("78.47.255.224");
    reveal_strlit("key.gamespy.com");
    reveal_strlit("master.gamespy.com");
    reveal_strlit("master0.gamespy.com");
    reveal_strlit("hd2.available.gamespy.com");
    reveal_strlit("hd2.master.gamespy.com");
    reveal_strlit("hd2.ms14.gamespy.com");
    reveal_strlit("natneg1.gamespy.com");
    reveal_strlit("natneg2.gamespy.com");
    reveal_strlit("natneg3.gamespy.com");
}

/// An entry of the fix gives its host the right address.
proof fn lemma_entry_assigns(host: Seq<char>)
    requires
        solid(host),
        solid(gamespy_address()),
        gamespy_address()[0] == '7',
    ensures
        ({
            let line = gamespy_address() + seq![' ', ' '] + host;
            &&& assigns_host(line, host)
            &&& strip_cr(line) == line
            &&& forall|i: int| 0 <= i < line.len() ==> line[i] != '\n'
        }),
{
    let address = gamespy_address();
    let line = address + seq![' ', ' '] + host;
    assert(line[0] == address[0]);
    assert(line.last() == host.last());
    assert(!is_whitespace(host[host.len() - 1]));
    lemma_trim_tight(line);
    lemma_two_words(address, host);
    let ws = words(line);
    assert(ws[1] == host);
    assert(same_ignoring_case(ws[1], host));
    assert(word_is_host(ws, 1, host));
    assert forall|i: int| 0 <= i < line.len() implies line[i] != '\n' by {
        if i < address.len() {
            assert(line[i] == address[i]);
        } else if i >= address.len() + 2 {
            assert(line[i] == host[i - address.len() - 2]);
        }
    }
}

/// Whether one of `ls` gives each master server from position `from` on the right
/// address.
pub open spec fn hosts_assigned_from(ls: Seq<Seq<char>>, from: int) -> bool {
    forall|k: int|
        from <= k < gamespy_hosts().len() ==> host_assigned(ls, #[trigger] gamespy_hosts()[k])
}

proof fn lemma_block_assigns(x: Seq<char>, h: int)
    requires
        0 <= h <= gamespy_hosts().len(),
        lines_scan(x).1.len() == 0,
    ensures
        lines_scan(x + host_block_from(h)).1.len() == 0,
        hosts_assigned_from(lines_scan(x + host_block_from(h)).0, h),
    decreases gamespy_hosts().len() - h,
{
    if h >= gamespy_hosts().len() {
        assert(x + host_block_from(h) =~= x);
    } else {
        reveal_strlit("  ");
        reveal_strlit("\n");
        let host = gamespy_hosts()[h];
        let line = gamespy_address() + seq![' ', ' '] + host;
        let rest = host_block_from(h + 1);
        lemma_names_solid(h);
        lemma_entry_assigns(host);
        lemma_lines_append_line(x, line);
        let next = x + line + seq!['\n'];
        lemma_block_assigns(next, h + 1);
        assert("  "@ =~= seq![' ', ' ']);
        assert("\n"@ =~= seq!['\n']);
        assert(x + host_block_from(h) =~= next + rest);
        lemma_lines_stay(next, rest);
        let ls = lines_scan(next + rest).0;
        let at = lines_scan(x).0.len() as int;
        assert(lines_scan(next).0[at] == line);
        assert(ls[at] == line);
        assert(host_assigned(ls, host));
    }
}

/// The fix does its work: the hosts file after the fix gives every master server the
/// right address, whatever the file held before.
pub proof fn fix_is_complete(content: Seq<char>)
    ensures
        all_hosts_assigned(fixed_hosts(content)),
{
    reveal_strlit("# HD2 GameSpy (added by Spectre)\n");
    let head = kept_text(content) + "\n"@ + "# HD2 GameSpy (added by Spectre)\n"@;
    assert(head.last() == '\n');
    assert(lines_scan(head).1.len() == 0);
    lemma_block_assigns(head, 0);
    let whole = fixed_hosts(content);
    assert(whole == head + host_block_from(0));
    assert(lines(whole) == lines_scan(whole).0);
}

} // verus!
