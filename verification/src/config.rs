//! The program's own settings, and the rule that ties them to one machine.

use vstd::prelude::*;
use vstd::string::StringExecFns;
use crate::text::text_is;

verus! {

/// The program's settings.
#[derive(Debug, Clone)]
pub struct Config {
    pub fullscreen_dialogs: bool,
    pub server_hd2ds_path: String,
    pub server_sabresquadron_path: String,
    pub server_mpmaplist_path: String,
    /// Whether DirectPlay was found enabled, so that it need not be looked for again.
    pub directplay_detected: bool,
    /// The machine on which the settings were made.
    pub machine_id: Option<String>,
    /// Whether the first-run wizard of the server utility was completed.
    pub server_utility_wizard_completed: bool,
}

/// What a [`Config`] holds, as plain values.
pub struct ConfigView {
    pub fullscreen_dialogs: bool,
    pub server_hd2ds_path: Seq<char>,
    pub server_sabresquadron_path: Seq<char>,
    pub server_mpmaplist_path: Seq<char>,
    pub directplay_detected: bool,
    pub machine_id: Option<Seq<char>>,
    pub server_utility_wizard_completed: bool,
}

impl View for Config {
    type V = ConfigView;

    open spec fn view(&self) -> ConfigView {
        ConfigView {
            fullscreen_dialogs: self.fullscreen_dialogs,
            server_hd2ds_path: self.server_hd2ds_path@,
            server_sabresquadron_path: self.server_sabresquadron_path@,
            server_mpmaplist_path: self.server_mpmaplist_path@,
            directplay_detected: self.directplay_detected,
            machine_id: match self.machine_id {
                Some(id) => Some(id@),
                None => None,
            },
            server_utility_wizard_completed: self.server_utility_wizard_completed,
        }
    }
}

/// Whether dialogs fill the window where the settings do not say.
pub fn default_fullscreen_dialogs() -> (r: bool)
    ensures
        !r,
{
    false
}

impl Config {
    /// Fresh settings, made on the machine `machine_id` if one is given.
    pub open spec fn initial(machine_id: Option<Seq<char>>) -> ConfigView {
        ConfigView {
            fullscreen_dialogs: false,
            server_hd2ds_path: Seq::empty(),
            server_sabresquadron_path: Seq::empty(),
            server_mpmaplist_path: Seq::empty(),
            directplay_detected: false,
            machine_id,
            server_utility_wizard_completed: false,
        }
    }

    /// What loading comes to, given the settings that were read and the machine that is
    /// read on: settings made on this machine stand, and all else gives fresh settings;
    /// these bear the machine's name if settings were read at all.
    pub open spec fn loaded(stored: Option<ConfigView>, machine: Seq<char>) -> ConfigView {
        match stored {
            Some(c) => if c.machine_id == Some(machine) {
                c
            } else {
                Config::initial(Some(machine))
            },
            None => Config::initial(None),
        }
    }

    /// The settings to go on with, and whether they are to be saved, given the settings
    /// that were read from disk, if any could be read, and the id of this machine.
    ///
    /// Settings that were made on another machine are not trusted: what they say about
    /// this machine's paths and features would be wrong.
    pub fn load(stored: Option<Config>, machine: &str) -> (r: (Config, bool))
        ensures
            r.0@ == Config::loaded(
                match stored {
                    Some(c) => Some(c@),
                    None => None,
                },
                machine@,
            ),
            r.1 == match stored {
                Some(c) => c@.machine_id != Some(machine@),
                None => true,
            },
    {
        match stored {
            Some(config) => {
                let same_machine = match &config.machine_id {
                    Some(id) => text_is(id.as_str(), machine),
                    None => false,
                };
                if same_machine {
                    (config, false)
                } else {
                    let mut fresh = Config::default();
                    fresh.machine_id = Some(String::from_str(machine));
                    (fresh, true)
                }
            },
            None => (Config::default(), true),
        }
    }
}

impl Default for Config {
    fn default() -> (r: Self)
        ensures
            r@ == Config::initial(None),
    {
        Config {
            fullscreen_dialogs: false,
            server_hd2ds_path: String::new(),
            server_sabresquadron_path: String::new(),
            server_mpmaplist_path: String::new(),
            directplay_detected: false,
            machine_id: None,
            server_utility_wizard_completed: false,
        }
    }
}

/// The id of this machine: the system's machine id if it has one that is not empty, else
/// the computer's name, else `unknown`.
pub fn get_machine_id(machine_guid: Option<&str>, computer_name: Option<&str>) -> (r: String)
    ensures
        r@ == match machine_guid {
            Some(guid) if guid@.len() > 0 => guid@,
            _ => match computer_name {
                Some(name) => name@,
                None => "unknown"@,
            },
        },
{
    match machine_guid {
        Some(guid) => {
            if !guid.is_empty() {
                return String::from_str(guid);
            }
        },
        None => {},
    }
    match computer_name {
        Some(name) => String::from_str(name),
        None => String::from_str("unknown"),
    }
}

} // verus!
