//! What it takes to start a server: which executable, which profile, which script file
//! with what in it, and which arguments. Touching the disk and spawning the process is
//! left to the caller, who is handed a [`LaunchPlan`].

use vstd::prelude::*;
use vstd::string::StringExecFns;
use crate::decimal::{decimal, push_decimal};
use crate::script::{build_ds_script, script_lines};
use crate::server::{Server, ServerConfig, ServerView};
use crate::text::{
    control, from_chars, is_control, join, joined, texts, to_chars, trim, trim_matches, trimmed,
    trimmed_of,
};
use crate::trusted::lowercase_of;

verus! {

/// Why a server cannot be started.
#[derive(Debug)]
pub enum LaunchError {
    /// The server selects an executable for which no path is configured.
    Configuration { sabre_squadron: bool },
    /// The configured executable is not on disk.
    NotFound { path: String },
    /// The server's current profile is not among its profiles.
    ProfileNotFound { profile: String, server: String },
}

impl LaunchError {
    /// The error in words.
    pub open spec fn message_text(self) -> Seq<char> {
        match self {
            LaunchError::Configuration { sabre_squadron } => if sabre_squadron {
                "HD2DS Sabre Squadron path is not set for this server"@
            } else {
                "HD2DS path is not set for this server"@
            },
            LaunchError::NotFound { path } => "DS exe not found: "@ + path@,
            LaunchError::ProfileNotFound { profile, server } => "Config '"@ + profile@
                + "' not found for server '"@ + server@ + "'"@,
        }
    }

    /// The error in words.
    pub fn message(&self) -> (r: String)
        ensures
            r@ == self.message_text(),
    {
        match self {
            LaunchError::Configuration { sabre_squadron } => if *sabre_squadron {
                String::from_str("HD2DS Sabre Squadron path is not set for this server")
            } else {
                String::from_str("HD2DS path is not set for this server")
            },
            LaunchError::NotFound { path } => {
                let mut r = String::from_str("DS exe not found: ");
                r.append(path.as_str());
                r
            },
            LaunchError::ProfileNotFound { profile, server } => {
                let mut r = String::from_str("Config '");
                r.append(profile.as_str());
                r.append("' not found for server '");
                r.append(server.as_str());
                r.append("'");
                r
            },
        }
    }
}

/// The path of the executable that `server` selects.
pub open spec fn selected_path(server: ServerView) -> Seq<char> {
    if server.use_sabre_squadron {
        server.hd2ds_sabresquadron_path
    } else {
        server.hd2ds_path
    }
}

/// The path of the executable that `server` selects; an error if none is configured.
pub fn get_ds_exe_path(server: &Server) -> (r: Result<&str, LaunchError>)
    ensures
        match r {
            Ok(path) => path@ == selected_path(server@) && path@.len() > 0,
            Err(e) => selected_path(server@).len() == 0 && e == (LaunchError::Configuration {
                sabre_squadron: server.use_sabre_squadron,
            }),
        },
{
    let path = if server.use_sabre_squadron {
        server.hd2ds_sabresquadron_path.as_str()
    } else {
        server.hd2ds_path.as_str()
    };
    if path.is_empty() {
        Err(LaunchError::Configuration { sabre_squadron: server.use_sabre_squadron })
    } else {
        Ok(path)
    }
}

/// Whether a character cannot stand in a file name as it is.
pub open spec fn unsafe_in_filename(c: char) -> bool {
    c == '/' || c == '\\' || c == ':' || c == '*' || c == '?' || c == '"' || c == '<' || c == '>'
        || c == '|' || c == ' ' || is_control(c)
}

/// A character as it goes into a file name: an underscore in place of an unfit one.
pub open spec fn filename_char(c: char) -> char {
    if unsafe_in_filename(c) {
        '_'
    } else {
        c
    }
}

/// A name made fit for a file name: trimmed, each unfit character replaced by an
/// underscore, and no underscore left at either end.
pub open spec fn sanitized(s: Seq<char>) -> Seq<char> {
    trim_matches(trim(s).map_values(|c: char| filename_char(c)), '_')
}

/// A name made fit for a file name; empty if nothing fit is left of it.
pub fn sanitize_for_filename(s: &str) -> (r: String)
    ensures
        r@ == sanitized(s@),
{
    let chars = to_chars(s);
    let inner = trimmed(&chars);
    let mut mapped: Vec<char> = Vec::new();
    let mut i: usize = 0;
    while i < inner.len()
        invariant
            i <= inner.len(),
            mapped@ == inner@.take(i as int).map_values(|c: char| filename_char(c)),
        decreases inner.len() - i,
    {
        let c = inner[i];
        let unfit = c == '/' || c == '\\' || c == ':' || c == '*' || c == '?' || c == '"' || c
            == '<' || c == '>' || c == '|' || c == ' ' || control(c);
        let ghost before = mapped@;
        if unfit {
            mapped.push('_');
        } else {
            mapped.push(c);
        }
        assert(mapped@ =~= inner@.take(i + 1).map_values(|c: char| filename_char(c)));
        i += 1;
    }
    assert(inner@.take(inner.len() as int) =~= inner@);
    let out = trimmed_of(&mapped, '_');
    from_chars(&out)
}

/// Whether profile `i` of `server` is the one that its current profile names.
pub open spec fn is_current(server: ServerView, i: int) -> bool {
    0 <= i < server.configs.len() && server.configs[i].name == server.current_config
}

/// The position of the first profile of `server`, from position `from` on, that its
/// current profile names.
pub open spec fn current_from(server: ServerView, from: int) -> Option<int>
    decreases server.configs.len() - from,
{
    if from < 0 || from >= server.configs.len() {
        None
    } else if is_current(server, from) {
        Some(from)
    } else {
        current_from(server, from + 1)
    }
}

/// The position of the current profile of `server`: the first profile that bears the
/// current profile's name.
pub open spec fn current_profile(server: ServerView) -> Option<int> {
    current_from(server, 0)
}

/// `current_from` gives a profile with the current name, and the first such one.
pub proof fn lemma_current(server: ServerView, from: int)
    requires
        0 <= from,
    ensures
        match current_from(server, from) {
            Some(i) => from <= i && is_current(server, i) && forall|j: int|
                from <= j < i ==> !is_current(server, j),
            None => forall|j: int| from <= j ==> !is_current(server, j),
        },
    decreases server.configs.len() - from,
{
    if from < server.configs.len() && !is_current(server, from) {
        lemma_current(server, from + 1);
    }
}

/// The position of the current profile: the first one whose name is the current one's.
pub fn find_current_config(server: &Server) -> (r: Option<usize>)
    ensures
        match r {
            Some(i) => current_profile(server@) == Some(i as int) && is_current(server@, i as int)
                && forall|j: int| 0 <= j < i ==> !is_current(server@, j),
            None => current_profile(server@) is None && forall|j: int| !is_current(server@, j),
        },
{
    let mut i: usize = 0;
    while i < server.configs.len()
        invariant
            i <= server.configs.len(),
            current_profile(server@) == current_from(server@, i as int),
        decreases server.configs.len() - i,
    {
        if server.configs[i].name == server.current_config {
            proof {
                lemma_current(server@, 0);
            }
            return Some(i);
        }
        i += 1;
    }
    proof {
        lemma_current(server@, 0);
    }
    None
}

/// The current profile of `server`; an error if its name is not among the profiles.
pub fn get_current_config(server: &Server) -> (r: Result<&ServerConfig, LaunchError>)
    ensures
        match r {
            Ok(config) => current_profile(server@) is Some && server.configs[current_profile(
                server@,
            ).unwrap()] == config,
            Err(e) => current_profile(server@) is None && (match e {
                LaunchError::ProfileNotFound { profile, server: name } => profile@
                    == server.current_config@ && name@ == server.name@,
                _ => false,
            }),
        },
{
    match find_current_config(server) {
        Some(i) => Ok(&server.configs[i]),
        None => Err(
            LaunchError::ProfileNotFound {
                profile: server.current_config.clone(),
                server: server.name.clone(),
            },
        ),
    }
}

/// The name of the script file of a server: after its name where that leaves anything
/// fit for a file name, else after its port.
pub open spec fn script_name(server: ServerView) -> Seq<char> {
    let part = sanitized(server.name);
    if part.len() == 0 {
        "spectre_ds_"@ + decimal(server.port as nat) + ".txt"@
    } else {
        "spectre_ds_"@ + part + ".txt"@
    }
}

/// The name of the script file of a server.
pub fn commands_basename(server: &Server) -> (r: String)
    ensures
        r@ == script_name(server@),
{
    let part = sanitize_for_filename(server.name.as_str());
    let mut r = String::from_str("spectre_ds_");
    if part.as_str().is_empty() {
        push_decimal(&mut r, server.port as u64);
    } else {
        r.append(part.as_str());
    }
    r.append(".txt");
    r
}

/// What the script file holds: the lines, each two parted by a carriage return and a
/// line feed, and two such line ends after the last.
pub open spec fn script_file_text(lines: Seq<Seq<char>>) -> Seq<char> {
    join(lines, "\r\n"@) + "\r\n\r\n"@
}

/// What the script file holds.
pub fn script_file_content(script: &Vec<String>) -> (r: String)
    ensures
        r@ == script_file_text(texts(script@)),
{
    let mut r = joined(script, "\r\n");
    r.append("\r\n\r\n");
    r
}

/// All that the caller needs to start a server.
#[derive(Debug)]
pub struct LaunchPlan {
    /// The executable to run, in whose directory the script is written and the process
    /// started.
    pub executable: String,
    /// The script file's name, without a directory.
    pub script_name: String,
    /// What to write into the script file.
    pub script_content: String,
    /// The arguments for the executable.
    pub arguments: Vec<String>,
}

/// The script of `server` with its profile `i`.
pub open spec fn script_of(server: ServerView, i: int) -> Seq<Seq<char>> {
    let c = server.configs[i];
    script_lines(
        server.port,
        c,
        lowercase_of(c.style),
        lowercase_of(c.domain),
        lowercase_of(c.difficulty),
    )
}

/// Whether `plan` is the plan for starting `server` with its profile `i`.
pub open spec fn plan_matches(plan: LaunchPlan, server: ServerView, i: int) -> bool {
    &&& plan.executable@ == selected_path(server)
    &&& plan.script_name@ == script_name(server)
    &&& plan.script_content@ == script_file_text(script_of(server, i))
    &&& texts(plan.arguments@) == seq!["-cmd"@, "-exec"@, script_name(server)]
}

/// The plan for starting `server`, given whether its executable is on disk.
///
/// Fails, in this order, when no path is configured for the selected executable, when the
/// executable is not on disk, and when the current profile does not exist.
pub fn plan_launch(server: &Server, executable_exists: bool) -> (r: Result<
    LaunchPlan,
    LaunchError,
>)
    ensures
        match r {
            Ok(plan) => selected_path(server@).len() > 0 && executable_exists && current_profile(
                server@,
            ) is Some && plan_matches(plan, server@, current_profile(server@).unwrap()),
            Err(LaunchError::Configuration { sabre_squadron }) => selected_path(server@).len()
                == 0 && sabre_squadron == server.use_sabre_squadron,
            Err(LaunchError::NotFound { path }) => selected_path(server@).len() > 0
                && !executable_exists && path@ == selected_path(server@),
            Err(LaunchError::ProfileNotFound { profile, server: name }) => selected_path(
                server@,
            ).len() > 0 && executable_exists && current_profile(server@) is None && profile@
                == server.current_config@ && name@ == server.name@,
        },
{
    let path = match get_ds_exe_path(server) {
        Ok(path) => path,
        Err(e) => {
            return Err(e);
        },
    };
    if !executable_exists {
        return Err(LaunchError::NotFound { path: String::from_str(path) });
    }
    let i = match find_current_config(server) {
        Some(i) => i,
        None => {
            return Err(
                LaunchError::ProfileNotFound {
                    profile: server.current_config.clone(),
                    server: server.name.clone(),
                },
            );
        },
    };
    let script = build_ds_script(server, &server.configs[i]);
    let name = commands_basename(server);
    let mut arguments: Vec<String> = Vec::new();
    arguments.push(String::from_str("-cmd"));
    arguments.push(String::from_str("-exec"));
    arguments.push(name.clone());
    let plan = LaunchPlan {
        executable: String::from_str(path),
        script_name: name,
        script_content: script_file_content(&script),
        arguments,
    };
    proof {
        assert(texts(plan.arguments@) =~= seq!["-cmd"@, "-exec"@, script_name(server@)]);
        assert(is_current(server@, i as int));
        assert(plan_matches(plan, server@, i as int));
    }
    Ok(plan)
}

} // verus!
