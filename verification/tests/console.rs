use spectre_core::inject::{
    command_keystrokes, InputStep, FOCUS_DELAY_MS, KEY_DELAY_MS, KICK_DELAY_MS, SETTLE_DELAY_MS,
};
use spectre_core::window::{
    choose_window, find_main_window_by_pid, pick_best_window, WindowCandidate, MAX_WINDOWS,
};

fn windows(list: &[(usize, &str)]) -> Vec<WindowCandidate> {
    list.iter().map(|(handle, title)| WindowCandidate { handle: *handle, title: title.to_string() }).collect()
}

#[test]
fn delays() {
    assert_eq!(FOCUS_DELAY_MS, 120);
    assert_eq!(KEY_DELAY_MS, 10);
    assert_eq!(SETTLE_DELAY_MS, 60);
    assert_eq!(KICK_DELAY_MS, 400);
    assert_eq!(MAX_WINDOWS, 16);
}

#[test]
fn a_command_is_typed_character_by_character() {
    assert_eq!(
        command_keystrokes("ab"),
        vec![
            InputStep::Focus,
            InputStep::Pause(120),
            InputStep::Character(97),
            InputStep::Pause(10),
            InputStep::Character(98),
            InputStep::Pause(10),
            InputStep::Enter,
            InputStep::Pause(60),
        ]
    );
    assert_eq!(
        command_keystrokes(""),
        vec![InputStep::Focus, InputStep::Pause(120), InputStep::Enter, InputStep::Pause(60)]
    );
}

#[test]
fn characters_beyond_sixteen_bits_are_passed_over() {
    assert_eq!(
        command_keystrokes("a\u{1F600}\u{FFFF}\u{10000}é"),
        vec![
            InputStep::Focus,
            InputStep::Pause(120),
            InputStep::Character(97),
            InputStep::Pause(10),
            InputStep::Character(0xFFFF),
            InputStep::Pause(10),
            InputStep::Character(0xE9),
            InputStep::Pause(10),
            InputStep::Enter,
            InputStep::Pause(60),
        ]
    );
}

#[test]
fn the_console_window_is_preferred() {
    let list = windows(&[(1, "Hidden"), (2, "HD2 Server"), (3, "hd2 console"), (4, "Console 2")]);
    assert_eq!(pick_best_window(&list), Some(3));
}

#[test]
fn without_a_console_the_last_server_window_is_taken() {
    let list = windows(&[(1, "Hidden"), (2, "HD2 Server"), (3, "other"), (4, "server two")]);
    assert_eq!(pick_best_window(&list), Some(4));
}

#[test]
fn without_either_the_first_live_window_is_taken() {
    let list = windows(&[(0, "Console"), (7, "first"), (8, "second")]);
    assert_eq!(pick_best_window(&list), Some(7));
    assert_eq!(pick_best_window(&windows(&[(0, "Console"), (0, "Server")])), None);
    assert_eq!(pick_best_window(&Vec::new()), None);
}

#[test]
fn choose_window_reads_titles_as_they_are() {
    let list = windows(&[(1, "console"), (2, "SERVER")]);
    assert_eq!(choose_window(&list), Some(2));
    assert_eq!(pick_best_window(&list), Some(1));
}

#[test]
fn windows_of_process_zero_are_not_looked_at() {
    let list = windows(&[(1, "Console")]);
    assert_eq!(find_main_window_by_pid(0, &list), None);
    assert_eq!(find_main_window_by_pid(5, &list), Some(1));
    assert_eq!(find_main_window_by_pid(5, &Vec::new()), None);
}

#[test]
fn only_the_first_sixteen_windows_count() {
    let mut list = Vec::new();
    for i in 0..16 {
        list.push(WindowCandidate { handle: 100 + i, title: "plain".to_string() });
    }
    list.push(WindowCandidate { handle: 999, title: "Console".to_string() });
    assert_eq!(find_main_window_by_pid(5, &list), Some(100));
    list[15].title = "The Console".to_string();
    assert_eq!(find_main_window_by_pid(5, &list), Some(115));
}
