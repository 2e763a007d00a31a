//! What the bridge to the user interface checks before it acts: the token that a request
//! bears, the paths that it names, and the log that it keeps.

use vstd::prelude::*;
use vstd::slice::slice_subrange;
use vstd::string::StringExecFns;
use vstd::utf8::encode_utf8;
use crate::decimal::{decimal, push_decimal};
use crate::launch::{current_profile, find_current_config};
use crate::roster::{get_player_count, occupied, PlayerSlot};
use crate::server::{
    views, Server, ServerConfig, ServerConfigView, ServerLauncherData, ServerLauncherDataView,
    ServerView,
};
use crate::supervisor::{lookup, struck, without, EntryView, Supervisor};
use crate::text::{
    alike, begins_with, from_chars, join, joined, replace_each, replaced, rows, same,
    same_ignoring_case, slice, split_at_any,
    split_on, starts_with, text_is, texts, to_chars, trim, trim_matches, trimmed, trimmed_of,
};
use crate::trusted::{
    is_alphanumeric, lossy_text, lowercase_of, random_alphanumeric, to_lowercase, utf8_lossy,
};

verus! {

/// How many lines the request log keeps.
pub const MAX_LOG_LINES: usize = 500;

/// The most bytes that a path may have.
pub const MAX_PATH_LEN: usize = 2048;

/// How many characters a token has.
pub const TOKEN_LEN: usize = 32;

/// A fresh token for the bridge: [`TOKEN_LEN`] letters and digits, drawn at random.
pub fn generate_token() -> (r: String)
    ensures
        r@.len() == TOKEN_LEN,
        forall|i: int| 0 <= i < r@.len() ==> is_alphanumeric(#[trigger] r@[i]),
{
    random_alphanumeric(TOKEN_LEN)
}

/// Whether a request may pass: it bears a token, and the token is the bridge's.
pub fn token_accepted(supplied: &str, token: &str) -> (r: bool)
    ensures
        r == (supplied@.len() > 0 && supplied@ == token@),
{
    !supplied.is_empty() && text_is(supplied, token)
}

/// Whether a path, in lower case, begins like an address of a protocol.
pub open spec fn names_protocol(lower: Seq<char>) -> bool {
    starts_with(lower, "file:"@) || starts_with(lower, "http:"@) || starts_with(lower, "https:"@)
        || starts_with(lower, "ftp:"@)
}

/// How deep below its start a path ends, after its components from position `from` on,
/// given the depth before them; none if it ever climbs above its start. A component of
/// two dots climbs, an empty one or one dot stays, any other descends.
pub open spec fn depth_from(parts: Seq<Seq<char>>, from: int, depth: int) -> Option<int>
    decreases parts.len() - from,
{
    if from < 0 || from >= parts.len() {
        Some(depth)
    } else if parts[from] == ".."@ {
        if depth - 1 < 0 {
            None
        } else {
            depth_from(parts, from + 1, depth - 1)
        }
    } else if parts[from].len() > 0 && parts[from] != "."@ {
        depth_from(parts, from + 1, depth + 1)
    } else {
        depth_from(parts, from + 1, depth)
    }
}

/// Whether a path stays below its start: its components, parted by slashes of either
/// kind, never climb above it.
pub open spec fn stays_inside(path: Seq<char>) -> bool {
    depth_from(split_on(path, '/', '\\'), 0, 0) is Some
}

/// Whether a path can be used, given the path in lower case: it is not empty, has at most
/// [`MAX_PATH_LEN`] bytes and no zero character, names no protocol, and stays below its
/// start.
pub open spec fn path_is_safe(path: Seq<char>, lower: Seq<char>) -> bool {
    path.len() > 0 && encode_utf8(path).len() <= MAX_PATH_LEN && !path.contains('\0')
        && !names_protocol(lower) && stays_inside(path)
}

fn has_zero(chars: &Vec<char>) -> (r: bool)
    ensures
        r == chars@.contains('\0'),
{
    let mut k: usize = 0;
    while k < chars.len()
        invariant
            k <= chars.len(),
            forall|j: int| 0 <= j < k ==> chars@[j] != '\0',
        decreases chars.len() - k,
    {
        if chars[k] == '\0' {
            return true;
        }
        k += 1;
    }
    false
}

fn never_climbs(parts: &Vec<Vec<char>>) -> (r: bool)
    ensures
        r == (depth_from(rows(parts@), 0, 0) is Some),
{
    let up = to_chars("..");
    let here = to_chars(".");
    let mut depth: usize = 0;
    let mut i: usize = 0;
    while i < parts.len()
        invariant
            i <= parts.len(),
            depth <= i,
            up@ == ".."@,
            here@ == "."@,
            depth_from(rows(parts@), 0, 0) == depth_from(rows(parts@), i as int, depth as int),
        decreases parts.len() - i,
    {
        assert(rows(parts@)[i as int] == parts@[i as int]@);
        if same(&parts[i], &up) {
            if depth == 0 {
                return false;
            }
            depth -= 1;
        } else if parts[i].len() > 0 && !same(&parts[i], &here) {
            depth += 1;
        }
        i += 1;
    }
    true
}

/// Whether a path can be used, given the path in lower case.
pub fn path_safe_given(path: &str, lower: &str) -> (r: bool)
    ensures
        r == path_is_safe(path@, lower@),
{
    if path.is_empty() || path.as_bytes().len() > MAX_PATH_LEN {
        return false;
    }
    let chars = to_chars(path);
    if has_zero(&chars) {
        return false;
    }
    let low = to_chars(lower);
    if begins_with(&low, &to_chars("file:")) || begins_with(&low, &to_chars("http:"))
        || begins_with(&low, &to_chars("https:")) || begins_with(&low, &to_chars("ftp:")) {
        return false;
    }
    never_climbs(&split_at_any(&chars, '/', '\\'))
}

/// Whether a path that a request names can be used.
pub fn is_path_safe(path: &str) -> (r: bool)
    ensures
        r == path_is_safe(path@, lowercase_of(path@)),
{
    let lower = to_lowercase(path);
    path_safe_given(path, lower.as_str())
}

/// A path without white space around it and, if it stands in double quotes, without
/// them and the white space inside them.
pub open spec fn unquoted(path: Seq<char>) -> Seq<char> {
    let t = trim(path);
    if t.len() >= 2 && t[0] == '"' && t.last() == '"' {
        trim(t.subrange(1, t.len() - 1))
    } else {
        t
    }
}

/// A path as the user meant it: without the quotes and the white space around it.
pub fn trim_path_quotes(s: &str) -> (r: String)
    ensures
        r@ == unquoted(s@),
{
    let t = trimmed(&to_chars(s));
    if t.len() >= 2 && t[0] == '"' && t[t.len() - 1] == '"' {
        let inner = slice(&t, 1, t.len() - 1);
        from_chars(&trimmed(&inner))
    } else {
        from_chars(&t)
    }
}

/// The last component of a path: what follows its last slash of either kind, after the
/// path was trimmed, freed of double quotes at its ends and trimmed again.
pub open spec fn file_name_of(path: Seq<char>) -> Seq<char> {
    let bare = trim(trim_matches(trim(path), '"'));
    if bare.len() == 0 {
        bare
    } else {
        split_on(bare, '/', '\\').last()
    }
}

/// The last component of a path.
pub fn path_file_name(path: &str) -> (r: String)
    ensures
        r@ == file_name_of(path@),
{
    let t = trimmed(&to_chars(path));
    let bare = trimmed(&trimmed_of(&t, '"'));
    if bare.len() == 0 {
        return from_chars(&bare);
    }
    let parts = split_at_any(&bare, '/', '\\');
    assert(rows(parts@).last() == parts@[parts@.len() - 1]@);
    from_chars(&parts[parts.len() - 1])
}

/// Whether a path may be that of an executable named `name`: it is empty, or its last
/// component is `name` but for case.
pub open spec fn names_executable(path: Seq<char>, name: Seq<char>) -> bool {
    trim(path).len() == 0 || same_ignoring_case(file_name_of(trim(path)), name)
}

fn may_name(path: &str, name: &str) -> (r: bool)
    ensures
        r == names_executable(path@, name@),
{
    let t = trimmed(&to_chars(path));
    if t.len() == 0 {
        return true;
    }
    let file = path_file_name(from_chars(&t).as_str());
    alike(&to_chars(file.as_str()), &to_chars(name))
}

/// Whether a path may be that of the standard server executable.
pub fn is_allowed_hd2ds_exe_path(path: &str) -> (r: bool)
    ensures
        r == names_executable(path@, "hd2ds.exe"@),
{
    may_name(path, "hd2ds.exe")
}

/// Whether a path may be that of the expansion's server executable.
pub fn is_allowed_sabre_exe_path(path: &str) -> (r: bool)
    ensures
        r == names_executable(path@, "hd2ds_sabresquadron.exe"@),
{
    may_name(path, "hd2ds_sabresquadron.exe")
}

/// Why the bridge refuses to act on a server.
#[derive(Debug, Clone, Copy, PartialEq, Eq, Structural)]
pub enum Refusal {
    /// One of the server's paths cannot be used.
    UnsafePath,
    /// A path that should name a server executable names something else.
    WrongExecutable,
}

impl Refusal {
    /// The refusal in words.
    pub fn message(&self) -> (r: &'static str)
        ensures
            r@ == match *self {
                Refusal::UnsafePath => "Invalid path (unsafe characters or traversal)"@,
                Refusal::WrongExecutable =>
                    "Executable path must be HD2DS.exe or HD2DS_SabreSquadron.exe"@,
            },
    {
        match self {
            Refusal::UnsafePath => "Invalid path (unsafe characters or traversal)",
            Refusal::WrongExecutable =>
                "Executable path must be HD2DS.exe or HD2DS_SabreSquadron.exe",
        }
    }
}

/// What the user interface can ask of the bridge.
#[derive(Debug, Clone, Copy, PartialEq, Eq, Structural)]
pub enum IpcAction {
    Save,
    Start,
    Stop,
    StopAll,
    StartAll,
    GetRunning,
    GetPlayers,
    GetLogContent,
    Repaint,
    RefreshMpmaplist,
    Browse,
    OpenLogFile,
    /// Anything else, which gets no answer.
    Unknown,
}

/// The action that a request names.
pub open spec fn action_named(name: Seq<char>) -> IpcAction {
    if name == "save"@ {
        IpcAction::Save
    } else if name == "start"@ {
        IpcAction::Start
    } else if name == "stop"@ {
        IpcAction::Stop
    } else if name == "stop_all"@ {
        IpcAction::StopAll
    } else if name == "start_all"@ {
        IpcAction::StartAll
    } else if name == "get_running"@ {
        IpcAction::GetRunning
    } else if name == "get_players"@ {
        IpcAction::GetPlayers
    } else if name == "get_log_content"@ {
        IpcAction::GetLogContent
    } else if name == "repaint"@ {
        IpcAction::Repaint
    } else if name == "refresh_mpmaplist"@ {
        IpcAction::RefreshMpmaplist
    } else if name == "browse_mpmaplist"@ || name == "browse_hd2_dir"@ {
        IpcAction::Browse
    } else if name == "open_log_file"@ {
        IpcAction::OpenLogFile
    } else {
        IpcAction::Unknown
    }
}

/// The action that a request names.
pub fn parse_action(name: &str) -> (r: IpcAction)
    ensures
        r == action_named(name@),
{
    if text_is(name, "save") {
        IpcAction::Save
    } else if text_is(name, "start") {
        IpcAction::Start
    } else if text_is(name, "stop") {
        IpcAction::Stop
    } else if text_is(name, "stop_all") {
        IpcAction::StopAll
    } else if text_is(name, "start_all") {
        IpcAction::StartAll
    } else if text_is(name, "get_running") {
        IpcAction::GetRunning
    } else if text_is(name, "get_players") {
        IpcAction::GetPlayers
    } else if text_is(name, "get_log_content") {
        IpcAction::GetLogContent
    } else if text_is(name, "repaint") {
        IpcAction::Repaint
    } else if text_is(name, "refresh_mpmaplist") {
        IpcAction::RefreshMpmaplist
    } else if text_is(name, "browse_mpmaplist") || text_is(name, "browse_hd2_dir") {
        IpcAction::Browse
    } else if text_is(name, "open_log_file") {
        IpcAction::OpenLogFile
    } else {
        IpcAction::Unknown
    }
}

/// Whether a path that a request names can be used.
pub open spec fn usable(path: Seq<char>) -> bool {
    path_is_safe(path, lowercase_of(path))
}

/// Whether all three paths of a server can be used: those of the two executables and
/// that of the map list.
pub open spec fn paths_usable(s: ServerView) -> bool {
    usable(s.hd2ds_path) && usable(s.hd2ds_sabresquadron_path) && usable(s.mpmaplist_path)
}

/// Whether all three paths of a server can be used.
pub fn server_paths_safe(server: &Server) -> (r: bool)
    ensures
        r == paths_usable(server@),
{
    is_path_safe(server.hd2ds_path.as_str()) && is_path_safe(
        server.hd2ds_sabresquadron_path.as_str(),
    ) && is_path_safe(server.mpmaplist_path.as_str())
}

/// A server with its three paths as the user meant them.
pub open spec fn tidied(s: ServerView) -> ServerView {
    ServerView {
        hd2ds_path: unquoted(s.hd2ds_path),
        hd2ds_sabresquadron_path: unquoted(s.hd2ds_sabresquadron_path),
        mpmaplist_path: unquoted(s.mpmaplist_path),
        ..s
    }
}

/// Frees the three paths of a server of quotes and of white space around them.
pub fn tidy_paths(server: &mut Server)
    ensures
        final(server)@ == tidied(old(server)@),
{
    server.hd2ds_path = trim_path_quotes(server.hd2ds_path.as_str());
    server.hd2ds_sabresquadron_path = trim_path_quotes(server.hd2ds_sabresquadron_path.as_str());
    server.mpmaplist_path = trim_path_quotes(server.mpmaplist_path.as_str());
}

/// Why a server cannot be saved, if it cannot: one of its paths cannot be used; or, if
/// all can, one of the two executables' paths names something else.
pub open spec fn save_refusal(s: ServerView) -> Option<Refusal> {
    if !paths_usable(s) {
        Some(Refusal::UnsafePath)
    } else if !names_executable(s.hd2ds_path, "hd2ds.exe"@) || !names_executable(
        s.hd2ds_sabresquadron_path,
        "hd2ds_sabresquadron.exe"@,
    ) {
        Some(Refusal::WrongExecutable)
    } else {
        None
    }
}

/// Whether the path of the executable that a server selects may be that executable's.
pub open spec fn selected_allowed(s: ServerView) -> bool {
    if s.use_sabre_squadron {
        names_executable(s.hd2ds_sabresquadron_path, "hd2ds_sabresquadron.exe"@)
    } else {
        names_executable(s.hd2ds_path, "hd2ds.exe"@)
    }
}

/// Why a server cannot be started, if it cannot: one of its paths cannot be used; or, if
/// all can, the executable that it selects is not the one it should be.
pub open spec fn start_refusal(s: ServerView) -> Option<Refusal> {
    if !paths_usable(s) {
        Some(Refusal::UnsafePath)
    } else if !selected_allowed(s) {
        Some(Refusal::WrongExecutable)
    } else {
        None
    }
}

/// The first refusal among the servers from position `from` on.
pub open spec fn first_refusal(refusals: Seq<Option<Refusal>>, from: int) -> Option<Refusal>
    decreases refusals.len() - from,
{
    if from < 0 || from >= refusals.len() {
        None
    } else if refusals[from] is Some {
        refusals[from]
    } else {
        first_refusal(refusals, from + 1)
    }
}

fn executable_allowed(server: &Server) -> (r: bool)
    ensures
        r == selected_allowed(server@),
{
    if server.use_sabre_squadron {
        is_allowed_sabre_exe_path(server.hd2ds_sabresquadron_path.as_str())
    } else {
        is_allowed_hd2ds_exe_path(server.hd2ds_path.as_str())
    }
}

/// Why one server cannot be saved, if it cannot.
pub fn check_save_of(server: &Server) -> (r: Option<Refusal>)
    ensures
        r == save_refusal(server@),
{
    if !server_paths_safe(server) {
        Some(Refusal::UnsafePath)
    } else if !is_allowed_hd2ds_exe_path(server.hd2ds_path.as_str())
        || !is_allowed_sabre_exe_path(server.hd2ds_sabresquadron_path.as_str()) {
        Some(Refusal::WrongExecutable)
    } else {
        None
    }
}

/// Why a server cannot be started, if it cannot. The server's paths are taken to be
/// tidied.
pub fn check_start(server: &Server) -> (r: Option<Refusal>)
    ensures
        r == start_refusal(server@),
{
    if !server_paths_safe(server) {
        Some(Refusal::UnsafePath)
    } else if !executable_allowed(server) {
        Some(Refusal::WrongExecutable)
    } else {
        None
    }
}

/// Why the servers cannot be saved, if they cannot: the refusal of the first server
/// that cannot.
pub fn check_save(servers: &Vec<Server>) -> (r: Option<Refusal>)
    ensures
        r == first_refusal(Seq::new(servers@.len(), |i: int| save_refusal(servers@[i]@)), 0),
{
    let ghost refusals = Seq::new(servers@.len(), |i: int| save_refusal(servers@[i]@));
    let mut i: usize = 0;
    while i < servers.len()
        invariant
            i <= servers.len(),
            refusals == Seq::new(servers@.len(), |i: int| save_refusal(servers@[i]@)),
            first_refusal(refusals, 0) == first_refusal(refusals, i as int),
        decreases servers.len() - i,
    {
        match check_save_of(&servers[i]) {
            Some(refusal) => {
                return Some(refusal);
            },
            None => {},
        }
        i += 1;
    }
    None
}

/// Why the fleet cannot be started, if it cannot: the refusal of the first server that
/// cannot. The servers' paths are taken to be tidied.
pub fn check_start_all(servers: &Vec<Server>) -> (r: Option<Refusal>)
    ensures
        r == first_refusal(Seq::new(servers@.len(), |i: int| start_refusal(servers@[i]@)), 0),
{
    let ghost refusals = Seq::new(servers@.len(), |i: int| start_refusal(servers@[i]@));
    let mut i: usize = 0;
    while i < servers.len()
        invariant
            i <= servers.len(),
            refusals == Seq::new(servers@.len(), |i: int| start_refusal(servers@[i]@)),
            first_refusal(refusals, 0) == first_refusal(refusals, i as int),
        decreases servers.len() - i,
    {
        match check_start(&servers[i]) {
            Some(refusal) => {
                return Some(refusal);
            },
            None => {},
        }
        i += 1;
    }
    None
}

/// What the user interface is told after it asked for a server to be stopped, given
/// whether it named a server and whether a process was tracked for that server's port.
pub open spec fn stop_answer(named: bool, running: bool) -> Seq<char> {
    if !named {
        "Invalid server index"@
    } else if running {
        "Stopped OK"@
    } else {
        "Server not running"@
    }
}

/// Acts on a request to stop the server at position `index` of `servers`. The server's
/// port is struck from the books, whether a process runs for it or the port only awaits
/// a start. Gives the process that the caller is to stop, if one was tracked, and what
/// the user interface is told. A position beyond the servers changes nothing.
pub fn stop_request(books: &mut Supervisor, servers: &Vec<Server>, index: usize) -> (r: (
    Option<u32>,
    &'static str,
))
    requires
        old(books).wf(),
    ensures
        final(books).wf(),
        index >= servers.len() ==> final(books)@ == old(books)@ && final(books).awaiting()
            == old(books).awaiting() && r.0 is None,
        index < servers.len() ==> final(books)@ == without(old(books)@, servers[index as int].port)
            && final(books).awaiting() == struck(
            old(books).awaiting(),
            servers[index as int].port,
        ) && r.0 == match lookup(old(books)@, servers[index as int].port) {
            Some(entry) => Some(entry.pid),
            None => None,
        },
        r.1@ == stop_answer(index < servers.len(), r.0 is Some),
{
    if index >= servers.len() {
        return (None, "Invalid server index");
    }
    match books.remove(servers[index].port) {
        Some(pid) => (Some(pid), "Stopped OK"),
        None => (None, "Server not running"),
    }
}

/// The books, the ports that await a start and the processes to stop, after each of
/// `ports` was struck from the books in turn.
pub open spec fn stopped_each(s: Seq<EntryView>, a: Seq<u16>, ports: Seq<u16>) -> (
    Seq<EntryView>,
    Seq<u16>,
    Seq<u32>,
)
    decreases ports.len(),
{
    if ports.len() == 0 {
        (s, a, Seq::empty())
    } else {
        let before = stopped_each(s, a, ports.drop_last());
        let port = ports.last();
        (
            without(before.0, port),
            struck(before.1, port),
            match lookup(before.0, port) {
                Some(entry) => before.2.push(entry.pid),
                None => before.2,
            },
        )
    }
}

/// The ports of the servers, in their order.
pub open spec fn ports_of_servers(servers: Seq<Server>) -> Seq<u16> {
    Seq::new(servers.len(), |i: int| servers[i].port)
}

/// Acts on a request to stop all of `servers`: the port of each is struck from the
/// books. Gives the processes that the caller is to stop, in the order of the servers.
pub fn stop_all_request(books: &mut Supervisor, servers: &Vec<Server>) -> (pids: Vec<u32>)
    requires
        old(books).wf(),
    ensures
        final(books).wf(),
        (final(books)@, final(books).awaiting(), pids@) == stopped_each(
            old(books)@,
            old(books).awaiting(),
            ports_of_servers(servers@),
        ),
{
    let ghost ports = ports_of_servers(servers@);
    let mut pids: Vec<u32> = Vec::new();
    let mut i: usize = 0;
    assert(ports.take(0) =~= Seq::<u16>::empty());
    while i < servers.len()
        invariant
            i <= servers.len(),
            ports == ports_of_servers(servers@),
            books.wf(),
            (books@, books.awaiting(), pids@) == stopped_each(
                old(books)@,
                old(books).awaiting(),
                ports.take(i as int),
            ),
        decreases servers.len() - i,
    {
        proof {
            let upto = ports.take(i + 1);
            assert(upto.drop_last() =~= ports.take(i as int));
            assert(upto.last() == servers@[i as int].port);
        }
        match books.remove(servers[i].port) {
            Some(pid) => {
                pids.push(pid);
            },
            None => {},
        }
        i += 1;
    }
    assert(ports.take(servers.len() as int) =~= ports);
    pids
}

/// What the user interface is told after it asked for the whole fleet to be started,
/// given what went wrong, server by server: that all have started, or what went wrong.
pub fn start_all_answer(errors: &Vec<String>) -> (r: String)
    ensures
        r@ == if errors@.len() == 0 {
            "All servers started"@
        } else {
            join(texts(errors@), "; "@)
        },
{
    assert(texts(errors@).len() == errors@.len());
    if errors.len() == 0 {
        String::from_str("All servers started")
    } else {
        joined(errors, "; ")
    }
}

/// What went wrong with the start of one server, as the user interface is told when
/// the whole fleet is started: the server's name, a colon, the error.
pub fn start_error(server: &Server, error: &str) -> (r: String)
    ensures
        r@ == server.name@ + ": "@ + error@,
{
    let mut r = server.name.clone();
    r.append(": ");
    r.append(error);
    r
}

/// The answer to a request that is answered without anything being done; none for a
/// request that asks for something.
pub fn fixed_answer(action: IpcAction) -> (r: Option<&'static str>)
    ensures
        match action {
            IpcAction::Repaint => r is Some && r.unwrap()@ == "REPAINT"@,
            IpcAction::Browse => r is Some && r.unwrap()@ == "BROWSE_NOT_AVAILABLE"@,
            _ => r is None,
        },
{
    match action {
        IpcAction::Repaint => Some("REPAINT"),
        IpcAction::Browse => Some("BROWSE_NOT_AVAILABLE"),
        _ => None,
    }
}

/// How many players a server is taken to admit while its profile cannot be asked.
pub const DEFAULT_MAX_CLIENTS: u32 = 32;

/// How many players a server admits: what its current profile says, and
/// [`DEFAULT_MAX_CLIENTS`] where it has no current profile.
pub open spec fn admits(server: ServerView) -> u32 {
    match current_profile(server) {
        Some(i) => server.configs[i].max_clients as u32,
        None => DEFAULT_MAX_CLIENTS,
    }
}

/// How many players a server admits.
pub fn max_clients_of(server: &Server) -> (r: u32)
    ensures
        r == admits(server@),
{
    match find_current_config(server) {
        Some(i) => server.configs[i].max_clients as u32,
        None => DEFAULT_MAX_CLIENTS,
    }
}

/// What the user interface is told about the players of a server, given its roster if
/// it could be read: how many are connected and how many the server admits; dashes for
/// both where there is no roster.
pub fn players_answer(roster: Option<&Vec<PlayerSlot>>, server: &Server) -> (r: String)
    ensures
        r@ == match roster {
            Some(slots) => "PLAYERS:"@ + decimal(occupied(views(slots@)).len()) + ","@ + decimal(
                admits(server@) as nat,
            ),
            None => "PLAYERS:--,--"@,
        },
{
    match roster {
        Some(slots) => {
            let count = get_player_count(slots, max_clients_of(server));
            let mut r = String::from_str("PLAYERS:");
            push_decimal(&mut r, count.0 as u64);
            r.append(",");
            push_decimal(&mut r, count.1 as u64);
            r
        },
        None => String::from_str("PLAYERS:--,--"),
    }
}

/// The log after one more line: the line is added, and the oldest lines go until no more
/// than [`MAX_LOG_LINES`] are left.
pub open spec fn logged(log: Seq<Seq<char>>, line: Seq<char>) -> Seq<Seq<char>> {
    let all = log.push(line);
    if all.len() > MAX_LOG_LINES {
        all.skip(all.len() - MAX_LOG_LINES)
    } else {
        all
    }
}

/// Adds a line to the request log.
pub fn push_log(log: &mut Vec<String>, line: &str)
    ensures
        texts(final(log)@) == logged(texts(old(log)@), line@),
{
    log.push(String::from_str(line));
    let ghost all = texts(log@);
    assert(all =~= texts(old(log)@).push(line@));
    if log.len() > MAX_LOG_LINES {
        let drop: usize = log.len() - MAX_LOG_LINES;
        let mut kept: Vec<String> = Vec::new();
        let mut i: usize = drop;
        while i < log.len()
            invariant
                drop <= i <= log.len(),
                all == texts(log@),
                texts(kept@) == all.subrange(drop as int, i as int),
            decreases log.len() - i,
        {
            let ghost before = texts(kept@);
            kept.push(log[i].clone());
            assert(texts(kept@) =~= before.push(log@[i as int]@));
            assert(all.subrange(drop as int, i + 1) =~= all.subrange(drop as int, i as int).push(
                all[i as int],
            ));
            i += 1;
        }
        assert(all.subrange(drop as int, all.len() as int) =~= all.skip(drop as int));
        *log = kept;
    }
}

/// How many bytes of a log file are kept when it has outgrown `max_bytes`.
pub const ROTATION_SLACK: u64 = 1024;

/// What a log file holds after it was cut back: if it has more than `max_bytes` bytes,
/// its last bytes, `ROTATION_SLACK` fewer than the limit, behind a line that says so; as
/// it was, if it is within the limit or wholly kept.
pub open spec fn rotated(content: Seq<u8>, max_bytes: u64, marker: Seq<u8>) -> Seq<u8> {
    if content.len() > max_bytes {
        let room: int = if max_bytes >= ROTATION_SLACK {
            max_bytes - ROTATION_SLACK
        } else {
            0
        };
        let keep: int = if room < content.len() {
            room
        } else {
            content.len() as int
        };
        if content.len() - keep > 0 {
            marker + content.skip(content.len() - keep)
        } else {
            content
        }
    } else {
        content
    }
}

/// The bytes of the line that heads a log file after it was cut back.
pub open spec fn rotation_marker() -> Seq<u8> {
    encode_utf8("--- log rotated ---\n"@)
}

/// Cuts a log file back to its limit.
pub fn rotate_log(content: &[u8], max_bytes: u64) -> (r: Vec<u8>)
    ensures
        r@ == rotated(content@, max_bytes, rotation_marker()),
{
    let len: usize = content.len();
    let mut out: Vec<u8> = Vec::new();
    let mut start: usize = 0;
    if len as u64 > max_bytes {
        let room: u64 = if max_bytes >= ROTATION_SLACK {
            max_bytes - ROTATION_SLACK
        } else {
            0
        };
        let keep: usize = if room < len as u64 {
            room as usize
        } else {
            len
        };
        start = len - keep;
        if start > 0 {
            let marker = "--- log rotated ---\n".as_bytes();
            let mut k: usize = 0;
            while k < marker.len()
                invariant
                    k <= marker.len(),
                    marker@ == rotation_marker(),
                    out@ == marker@.take(k as int),
                decreases marker.len() - k,
            {
                out.push(marker[k]);
                assert(out@ =~= marker@.take(k + 1));
                k += 1;
            }
            assert(marker@.take(marker.len() as int) =~= marker@);
        }
    }
    let ghost head = out@;
    let mut i: usize = start;
    while i < len
        invariant
            start <= i <= len,
            len == content@.len(),
            out@ == head + content@.subrange(start as int, i as int),
        decreases len - i,
    {
        out.push(content[i]);
        assert(out@ =~= head + content@.subrange(start as int, i + 1));
        i += 1;
    }
    assert(content@.subrange(start as int, len as int) =~= content@.skip(start as int));
    assert(content@.skip(0) =~= content@);
    assert(out@ =~= rotated(content@, max_bytes, rotation_marker()));
    out
}

/// The most bytes of the program's log that are shown.
pub const MAX_LOG_BYTES: usize = 32 * 1024;

/// What is shown of the program's log: its last [`MAX_LOG_BYTES`] bytes as text, without
/// carriage returns and zero characters.
pub open spec fn shown_log(bytes: Seq<u8>) -> Seq<char> {
    let tail = if bytes.len() > MAX_LOG_BYTES {
        bytes.skip(bytes.len() - MAX_LOG_BYTES)
    } else {
        bytes
    };
    replaced(replaced(lossy_text(tail), seq!['\r'], Seq::empty()), seq!['\0'], Seq::empty())
}

/// What is shown of the program's log, given what the log file holds.
pub fn log_tail(bytes: &[u8]) -> (r: String)
    ensures
        r@ == shown_log(bytes@),
{
    let len: usize = bytes.len();
    let start: usize = if len > MAX_LOG_BYTES {
        len - MAX_LOG_BYTES
    } else {
        0
    };
    let tail = slice_subrange(bytes, start, len);
    proof {
        assert(bytes@.subrange(start as int, len as int) =~= bytes@.skip(start as int));
        assert(bytes@.skip(0) =~= bytes@);
    }
    let text = utf8_lossy(tail);
    let mut cr: Vec<char> = Vec::new();
    cr.push('\r');
    let mut zero: Vec<char> = Vec::new();
    zero.push('\0');
    let nothing: Vec<char> = Vec::new();
    assert(cr@ =~= seq!['\r']);
    assert(zero@ =~= seq!['\0']);
    let a = replace_each(&to_chars(text.as_str()), &cr, &nothing);
    let b = replace_each(&a, &zero, &nothing);
    from_chars(&b)
}

/// What the user interface is told about an executable that the user chose: nothing was
/// chosen; or the path, marked as that of the expansion's executable where `which` is
/// `sabre`, else as that of the standard one.
pub fn browse_hd2_exe(which: &str, path: Option<&str>) -> (r: String)
    ensures
        r@ == match path {
            None => "HD2DS_PATH_CANCELLED"@,
            Some(p) => if which@ == "sabre"@ {
                "HD2DS_SABRE_PATH:"@ + p@
            } else {
                "HD2DS_PATH:"@ + p@
            },
        },
{
    match path {
        None => String::from_str("HD2DS_PATH_CANCELLED"),
        Some(p) => {
            let mut r = if text_is(which, "sabre") {
                String::from_str("HD2DS_SABRE_PATH:")
            } else {
                String::from_str("HD2DS_PATH:")
            };
            r.append(p);
            r
        },
    }
}

/// Whether the program's log is due to be started afresh: rotation is on and the file
/// is at least `rotation_days` days old.
pub fn log_is_stale(rotation_days: u32, age_seconds: u64) -> (r: bool)
    ensures
        r == (rotation_days > 0 && age_seconds >= rotation_days as int * 24 * 3600),
{
    rotation_days > 0 && age_seconds >= (rotation_days as u64) * 24 * 3600
}

/// A line of the program's log: the time in square brackets, the text, a line feed.
pub fn app_log_line(timestamp: &str, line: &str) -> (r: String)
    ensures
        r@ == "["@ + timestamp@ + "] "@ + line@ + "\n"@,
{
    let mut r = String::from_str("[");
    r.append(timestamp);
    r.append("] ");
    r.append(line);
    r.append("\n");
    r
}

/// The server that a fresh configuration starts with.
pub open spec fn first_server() -> ServerView {
    ServerView {
        name: "Server 1"@,
        port: 22000,
        current_config: "Default"@,
        configs: seq![
            ServerConfigView {
                name: "Default"@,
                session_name: "A Spectre Session"@,
                style: "Occupation"@,
                ..ServerConfig::initial()
            },
        ],
        ..Server::initial()
    }
}

/// Gives a configuration without servers one server with one profile, so that the user
/// interface has something to show. A configuration with servers stays as it is.
pub fn ensure_server_utility_has_defaults(data: &mut ServerLauncherData)
    ensures
        old(data)@.servers.len() > 0 ==> final(data)@ == old(data)@,
        old(data)@.servers.len() == 0 ==> final(data)@ == (ServerLauncherDataView {
            servers: seq![first_server()],
            ..old(data)@
        }),
{
    if data.servers.len() == 0 {
        let mut server = Server::default();
        server.name = String::from_str("Server 1");
        server.port = 22000;
        let mut profile = ServerConfig::default();
        profile.name = String::from_str("Default");
        profile.session_name = String::from_str("A Spectre Session");
        profile.style = String::from_str("Occupation");
        server.current_config = profile.name.clone();
        server.configs.push(profile);
        assert(views(server.configs@) =~= seq![profile@]);
        assert(server@ == first_server());
        data.servers.push(server);
        assert(views(data.servers@) =~= seq![first_server()]);
    } else {
        assert(views(data.servers@).len() == data.servers@.len());
    }
}

} // verus!
