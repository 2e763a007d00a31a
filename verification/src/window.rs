//! Which of a process's windows is its console.
//!
//! A server can own several top-level windows, and only one of them takes commands. The
//! caller lists the windows of the process; this module chooses among them by title.

use vstd::prelude::*;
use crate::server::views;
use crate::text::{contains, includes, to_chars};
use crate::trusted::{to_uppercase, uppercase_of};

verus! {

/// How many windows of one process are looked at; later ones are ignored.
pub const MAX_WINDOWS: usize = 16;

/// A top-level window: its handle, as a number, and its title.
#[derive(Debug, Clone)]
pub struct WindowCandidate {
    pub handle: usize,
    pub title: String,
}

/// What a [`WindowCandidate`] holds, as plain values.
pub struct WindowView {
    pub handle: usize,
    pub title: Seq<char>,
}

impl View for WindowCandidate {
    type V = WindowView;

    open spec fn view(&self) -> WindowView {
        WindowView { handle: self.handle, title: self.title@ }
    }
}

/// The windows with their titles in upper case.
pub open spec fn in_upper_case(ws: Seq<WindowCandidate>) -> Seq<WindowView> {
    Seq::new(
        ws.len(),
        |i: int| WindowView { handle: ws[i].handle, title: uppercase_of(ws[i].title@) },
    )
}

/// Window `i` exists and its handle is not null.
pub open spec fn live_at(ws: Seq<WindowView>, i: int) -> bool {
    0 <= i < ws.len() && ws[i].handle != 0
}

/// Window `i` is live and its title, taken to be in upper case, names a console.
pub open spec fn console_at(ws: Seq<WindowView>, i: int) -> bool {
    live_at(ws, i) && contains(ws[i].title, "CONSOLE"@)
}

/// Window `i` is live and its title, taken to be in upper case, names a server.
pub open spec fn server_at(ws: Seq<WindowView>, i: int) -> bool {
    live_at(ws, i) && contains(ws[i].title, "SERVER"@)
}

/// Whether `r` is the right choice among `ws`, whose titles are taken to be in upper
/// case: the first console window; if there is none, the last server window; if there is
/// none either, the first live window; and nothing if no window is live.
pub open spec fn chosen(ws: Seq<WindowView>, r: Option<usize>) -> bool {
    match r {
        Some(handle) => exists|i: int|
            #![trigger ws[i]]
            live_at(ws, i) && ws[i].handle == handle && {
                ||| console_at(ws, i) && forall|j: int| 0 <= j < i ==> !console_at(ws, j)
                ||| (forall|j: int| !console_at(ws, j)) && server_at(ws, i) && forall|j: int|
                    i < j ==> !server_at(ws, j)
                ||| (forall|j: int| !console_at(ws, j) && !server_at(ws, j)) && forall|j: int|
                    0 <= j < i ==> !live_at(ws, j)
            },
        None => forall|j: int| !live_at(ws, j),
    }
}

/// Chooses among windows whose titles are already in upper case.
pub fn choose_window(windows: &Vec<WindowCandidate>) -> (r: Option<usize>)
    ensures
        chosen(views(windows@), r),
{
    let ghost ws = views(windows@);
    let console_mark = to_chars("CONSOLE");
    let server_mark = to_chars("SERVER");
    let mut first_live: Option<usize> = None;
    let mut last_server: Option<usize> = None;
    let mut i: usize = 0;
    while i < windows.len()
        invariant
            i <= windows.len(),
            ws == views(windows@),
            console_mark@ == "CONSOLE"@,
            server_mark@ == "SERVER"@,
            forall|j: int| 0 <= j < i ==> !console_at(ws, j),
            match first_live {
                Some(k) => k < i && live_at(ws, k as int) && forall|j: int|
                    0 <= j < k ==> !live_at(ws, j),
                None => forall|j: int| 0 <= j < i ==> !live_at(ws, j),
            },
            match last_server {
                Some(k) => k < i && server_at(ws, k as int) && forall|j: int|
                    k < j < i ==> !server_at(ws, j),
                None => forall|j: int| 0 <= j < i ==> !server_at(ws, j),
            },
        decreases windows.len() - i,
    {
        let w = &windows[i];
        assert(ws[i as int] == w@);
        if w.handle != 0 {
            let title = to_chars(w.title.as_str());
            if includes(&title, &console_mark) {
                assert(console_at(ws, i as int));
                return Some(w.handle);
            }
            if first_live.is_none() {
                first_live = Some(i);
            }
            if includes(&title, &server_mark) {
                last_server = Some(i);
            }
        }
        i += 1;
    }
    match last_server {
        Some(k) => {
            assert(ws[k as int] == windows@[k as int]@);
            Some(windows[k].handle)
        },
        None => match first_live {
            Some(k) => {
                assert(ws[k as int] == windows@[k as int]@);
                Some(windows[k].handle)
            },
            None => None,
        },
    }
}

/// Chooses the console among the windows of a process, by their titles in upper case as
/// `str::to_uppercase` gives them.
pub fn pick_best_window(windows: &Vec<WindowCandidate>) -> (r: Option<usize>)
    ensures
        chosen(in_upper_case(windows@), r),
{
    let mut upper: Vec<WindowCandidate> = Vec::new();
    let mut i: usize = 0;
    while i < windows.len()
        invariant
            i <= windows.len(),
            upper@.len() == i,
            forall|j: int|
                0 <= j < i ==> (#[trigger] upper@[j])@ == in_upper_case(windows@)[j],
        decreases windows.len() - i,
    {
        upper.push(
            WindowCandidate {
                handle: windows[i].handle,
                title: to_uppercase(windows[i].title.as_str()),
            },
        );
        i += 1;
    }
    assert(views(upper@) =~= in_upper_case(windows@));
    choose_window(&upper)
}

/// The first [`MAX_WINDOWS`] of the windows.
pub open spec fn looked_at(ws: Seq<WindowCandidate>) -> Seq<WindowCandidate> {
    if ws.len() > MAX_WINDOWS {
        ws.take(MAX_WINDOWS as int)
    } else {
        ws
    }
}

/// The console window of process `pid`, given the windows that the process owns in the
/// order in which the system lists them. Nothing for process id zero, or if the process
/// owns no live window yet.
pub fn find_main_window_by_pid(pid: u32, windows: &Vec<WindowCandidate>) -> (r: Option<usize>)
    ensures
        pid == 0 ==> r is None,
        pid != 0 ==> chosen(in_upper_case(looked_at(windows@)), r),
{
    if pid == 0 {
        return None;
    }
    let mut first: Vec<WindowCandidate> = Vec::new();
    let mut i: usize = 0;
    while i < windows.len() && i < MAX_WINDOWS
        invariant
            i <= windows.len(),
            i <= MAX_WINDOWS,
            first@.len() == i,
            forall|j: int|
                0 <= j < i ==> (#[trigger] first@[j]).handle == windows@[j].handle
                    && first@[j].title@ == windows@[j].title@,
        decreases windows.len() - i,
    {
        first.push(WindowCandidate { handle: windows[i].handle, title: windows[i].title.clone() });
        i += 1;
    }
    assert(in_upper_case(first@) =~= in_upper_case(looked_at(windows@)));
    pick_best_window(&first)
}

} // verus!
