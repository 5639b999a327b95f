use mac_sniff::button::ButtonEvent;
use mac_sniff::menu::{
    initial_menu_option, menu_label, menu_lines, update_initial_menu_state, InitMenuDisplayOptions,
    MENU_OPTION_COUNT,
};

#[test]
fn short_press_cycles_through_all_options() {
    let mut state = initial_menu_option();
    assert_eq!(state, InitMenuDisplayOptions::Scan);
    update_initial_menu_state(&mut state, &ButtonEvent::ShortPress);
    assert_eq!(state, InitMenuDisplayOptions::Dump);
    update_initial_menu_state(&mut state, &ButtonEvent::ShortPress);
    assert_eq!(state, InitMenuDisplayOptions::Size);
    update_initial_menu_state(&mut state, &ButtonEvent::ShortPress);
    assert_eq!(state, InitMenuDisplayOptions::Exit);
    update_initial_menu_state(&mut state, &ButtonEvent::ShortPress);
    assert_eq!(state, InitMenuDisplayOptions::Scan);
}

#[test]
fn cycling_option_count_times_returns_to_start() {
    for start in [
        InitMenuDisplayOptions::Scan,
        InitMenuDisplayOptions::Dump,
        InitMenuDisplayOptions::Size,
        InitMenuDisplayOptions::Exit,
    ] {
        let mut state = start;
        for _ in 0..MENU_OPTION_COUNT {
            update_initial_menu_state(&mut state, &ButtonEvent::ShortPress);
        }
        assert_eq!(state, start);
    }
}

#[test]
fn idle_and_long_press_leave_the_selection_alone() {
    let mut state = InitMenuDisplayOptions::Size;
    update_initial_menu_state(&mut state, &ButtonEvent::Idle);
    assert_eq!(state, InitMenuDisplayOptions::Size);
    update_initial_menu_state(&mut state, &ButtonEvent::LongPress);
    assert_eq!(state, InitMenuDisplayOptions::Size);
}

#[test]
fn menu_labels_mark_the_selected_option() {
    assert_eq!(
        menu_label(InitMenuDisplayOptions::Scan, InitMenuDisplayOptions::Scan),
        "-Scan"
    );
    assert_eq!(
        menu_label(InitMenuDisplayOptions::Scan, InitMenuDisplayOptions::Dump),
        "Scan"
    );
    assert_eq!(
        menu_label(InitMenuDisplayOptions::Exit, InitMenuDisplayOptions::Exit),
        "-Exit"
    );
}

#[test]
fn menu_lines_list_all_options_in_order() {
    let lines = menu_lines(InitMenuDisplayOptions::Dump);
    assert_eq!(lines, vec!["Scan", "-Dump", "Size", "Exit"]);
    let lines = menu_lines(InitMenuDisplayOptions::Scan);
    assert_eq!(lines, vec!["-Scan", "Dump", "Size", "Exit"]);
}
