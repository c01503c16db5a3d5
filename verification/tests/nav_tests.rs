use bitconf::app::{App, CurrentScreen};
use bitconf::nav::{FileKind, FileRow, NavAction, NavEvent, Navigator, Screen};

fn editing_navigator() -> Navigator {
    let mut nav = Navigator::new();
    let doc = bitconf::config::BitcoinConfigFile::new("bitcoin.conf");
    nav.load_document(doc);
    nav
}

#[test]
fn app_new_starts_on_home() {
    let app = App::new();
    assert_eq!(app.current_screen, CurrentScreen::Home);
    assert_eq!(app.sidebar_index, 0);
    assert!(app.bitcoin_conf_path.is_none());
}

#[test]
fn toggle_menu_follows_sidebar_index() {
    let mut app = App::new();
    app.toggle_menu();
    assert_eq!(app.current_screen, CurrentScreen::Home);

    app.sidebar_index = 1;
    app.toggle_menu();
    assert_eq!(app.current_screen, CurrentScreen::BitcoinConfig);
}

#[test]
fn quit_from_main_returns_quit_action() {
    let mut nav = Navigator::new();
    let act = nav.handle_event(NavEvent::Quit);
    assert_eq!(act, NavAction::Quit);
}

#[test]
fn confirm_from_main_opens_explorer() {
    let mut nav = Navigator::new();
    let act = nav.handle_event(NavEvent::Confirm);
    assert_eq!(act, NavAction::RefreshListing);
    assert_eq!(nav.screen, Screen::FileExplorer);
}

#[test]
fn explorer_cursor_wraps_both_ways() {
    let mut nav = Navigator::new();
    nav.handle_event(NavEvent::Confirm);
    nav.set_listing(vec![
        FileRow { name: "..".to_string(), kind: FileKind::Parent },
        FileRow { name: "a".to_string(), kind: FileKind::Directory },
        FileRow { name: "b.conf".to_string(), kind: FileKind::File },
    ]);
    assert_eq!(nav.file_cursor, 0);

    nav.handle_event(NavEvent::Up);
    assert_eq!(nav.file_cursor, 2);
    nav.handle_event(NavEvent::Down);
    assert_eq!(nav.file_cursor, 0);
    nav.handle_event(NavEvent::Down);
    assert_eq!(nav.file_cursor, 1);
}

#[test]
fn explorer_confirm_on_directory_enters_it() {
    let mut nav = Navigator::new();
    nav.handle_event(NavEvent::Confirm);
    nav.set_listing(vec![
        FileRow { name: "sub".to_string(), kind: FileKind::Directory },
        FileRow { name: "b.conf".to_string(), kind: FileKind::File },
    ]);
    let act = nav.handle_event(NavEvent::Confirm);
    assert_eq!(act, NavAction::EnterDirectory);
    assert_eq!(nav.file_cursor, 0);
}

#[test]
fn explorer_confirm_on_file_asks_to_open() {
    let mut nav = Navigator::new();
    nav.handle_event(NavEvent::Confirm);
    nav.set_listing(vec![FileRow { name: "b.conf".to_string(), kind: FileKind::File }]);
    let act = nav.handle_event(NavEvent::Confirm);
    assert_eq!(act, NavAction::OpenSelectedFile);
    assert_eq!(nav.screen, Screen::FileExplorer);
}

#[test]
fn load_document_opens_editor_at_top() {
    let mut nav = Navigator::new();
    let doc = bitconf::config::BitcoinConfigFile::new("bitcoin.conf");
    nav.load_document(doc);
    assert_eq!(nav.screen, Screen::Editing);
    assert_eq!(nav.selected_section, 0);
    assert_eq!(nav.selected_item, 0);
    // a default document has one section per category, sorted by name
    let names: Vec<&str> = nav.sections.iter().map(|s| s.name.as_str()).collect();
    assert_eq!(
        names,
        vec!["Core", "Debugging", "Mining", "Network", "RPC", "Relay", "Wallet", "ZMQ"]
    );
}

#[test]
fn custom_section_appears_when_custom_entries_exist() {
    let mut nav = Navigator::new();
    let mut doc = bitconf::config::BitcoinConfigFile::new("bitcoin.conf");
    doc.add_custom("myextra", "7");
    nav.load_document(doc);
    let names: Vec<&str> = nav.sections.iter().map(|s| s.name.as_str()).collect();
    assert!(names.contains(&"Custom"));
}

#[test]
fn next_section_full_cycle_returns_to_start() {
    let mut nav = editing_navigator();
    let n = nav.sections.len();
    assert!(n > 0);
    let start = nav.selected_section;
    for _ in 0..n {
        nav.handle_event(NavEvent::NextSection);
        assert_eq!(nav.selected_item, 0);
    }
    assert_eq!(nav.selected_section, start);
}

#[test]
fn prev_section_wraps_backward() {
    let mut nav = editing_navigator();
    let n = nav.sections.len();
    nav.handle_event(NavEvent::PrevSection);
    assert_eq!(nav.selected_section, n - 1);
    assert_eq!(nav.selected_item, 0);
}

#[test]
fn item_moves_clamp_at_ends() {
    let mut nav = editing_navigator();
    nav.handle_event(NavEvent::Up);
    assert_eq!(nav.selected_item, 0);

    let len = nav.sections[nav.selected_section].items.len();
    for _ in 0..len + 3 {
        nav.handle_event(NavEvent::Down);
    }
    assert_eq!(nav.selected_item, len - 1);
}

#[test]
fn confirm_toggles_boolean_entry_twice_back() {
    let mut nav = editing_navigator();
    // move to a boolean entry: "txindex" is the first Core boolean
    let idx_in_doc = nav.doc.entries.iter().position(|e| e.key == "txindex").unwrap();
    let pos = nav.sections[0].items.iter().position(|i| *i == idx_in_doc).unwrap();
    for _ in 0..pos {
        nav.handle_event(NavEvent::Down);
    }
    let before = nav.doc.entries[idx_in_doc].value.clone();
    assert_eq!(before, "0");

    nav.handle_event(NavEvent::Confirm);
    assert_eq!(nav.screen, Screen::Editing);
    assert_eq!(nav.doc.entries[idx_in_doc].value, "1");
    assert!(nav.doc.entries[idx_in_doc].enabled);

    nav.handle_event(NavEvent::Confirm);
    assert_eq!(nav.doc.entries[idx_in_doc].value, "0");
    // enabling is sticky: not reversed by the second toggle
    assert!(nav.doc.entries[idx_in_doc].enabled);
}

#[test]
fn confirm_on_text_entry_opens_value_editor() {
    let mut nav = editing_navigator();
    // the first Core entry is "datadir", a path, so confirm edits it
    let act = nav.handle_event(NavEvent::Confirm);
    assert_eq!(act, NavAction::Idle);
    assert_eq!(nav.screen, Screen::EditingValue);

    // type a value and commit it
    for c in "/data".chars() {
        nav.handle_event(NavEvent::Input(c));
    }
    nav.handle_event(NavEvent::Confirm);
    assert_eq!(nav.screen, Screen::Editing);
    let idx = nav.sections[0].items[0];
    assert_eq!(nav.doc.entries[idx].value, "/data");
    assert!(nav.doc.entries[idx].enabled);
}

#[test]
fn value_editor_backspace_and_cancel() {
    let mut nav = editing_navigator();
    nav.handle_event(NavEvent::Confirm);
    assert_eq!(nav.screen, Screen::EditingValue);

    nav.handle_event(NavEvent::Input('a'));
    nav.handle_event(NavEvent::Input('b'));
    nav.handle_event(NavEvent::Backspace);
    assert_eq!(nav.edit_buffer, vec!['a']);

    nav.handle_event(NavEvent::Cancel);
    assert_eq!(nav.screen, Screen::Editing);
    // the discarded buffer did not touch the entry
    let idx = nav.sections[0].items[0];
    assert_eq!(nav.doc.entries[idx].value, "");
    assert!(!nav.doc.entries[idx].enabled);
}

#[test]
fn toggle_enabled_flips_without_touching_value() {
    let mut nav = editing_navigator();
    let idx = nav.sections[0].items[0];
    let value_before = nav.doc.entries[idx].value.clone();

    nav.handle_event(NavEvent::ToggleEnabled);
    assert!(nav.doc.entries[idx].enabled);
    assert_eq!(nav.doc.entries[idx].value, value_before);

    nav.handle_event(NavEvent::ToggleEnabled);
    assert!(!nav.doc.entries[idx].enabled);
}

#[test]
fn save_keeps_notification_until_next_input() {
    let mut nav = editing_navigator();
    let act = nav.handle_event(NavEvent::Save);
    assert_eq!(act, NavAction::Persist);
    nav.save_result(true);
    assert_eq!(nav.notification.as_deref(), Some("Configuration saved"));

    // saving again does not clear it...
    nav.handle_event(NavEvent::Save);
    assert!(nav.notification.is_some());
    // ...but any other input does
    nav.handle_event(NavEvent::Down);
    assert!(nav.notification.is_none());
}

#[test]
fn failed_save_sets_failure_notification() {
    let mut nav = editing_navigator();
    nav.handle_event(NavEvent::Save);
    nav.save_result(false);
    assert_eq!(
        nav.notification.as_deref(),
        Some("Failed to save configuration")
    );
}

#[test]
fn cancel_leaves_editor_for_main() {
    let mut nav = editing_navigator();
    nav.handle_event(NavEvent::Cancel);
    assert_eq!(nav.screen, Screen::Main);
}
