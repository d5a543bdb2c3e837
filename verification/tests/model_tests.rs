use windows_registry_searcher::ordered_set::OrderedStringSet;
use windows_registry_searcher::root::{
    Root, SelectedRoots, HANDLE_CLASSES_ROOT, HANDLE_CURRENT_CONFIG, HANDLE_CURRENT_USER,
    HANDLE_LOCAL_MACHINE, HANDLE_USERS,
};
use windows_registry_searcher::search_editor::SearchEditor;
use windows_registry_searcher::search_term_tracker::SearchTermTracker;
use windows_registry_searcher::EditorMode;

#[test]
fn root_from_u8_is_total_over_valid_tags() {
    assert!(matches!(Root::from_u8(0), Some(Root::HkeyClassesRoot)));
    assert!(matches!(Root::from_u8(1), Some(Root::HkeyCurrentUser)));
    assert!(matches!(Root::from_u8(2), Some(Root::HkeyLocalMachine)));
    assert!(matches!(Root::from_u8(3), Some(Root::HkeyUsers)));
    assert!(matches!(Root::from_u8(4), Some(Root::HkeyCurrentConfig)));
    assert!(Root::from_u8(5).is_none());
    assert!(Root::from_u8(255).is_none());
}

#[test]
fn root_from_isize_maps_handles() {
    assert!(matches!(Root::from_isize(HANDLE_CLASSES_ROOT), Some(Root::HkeyClassesRoot)));
    assert!(matches!(Root::from_isize(HANDLE_CURRENT_USER), Some(Root::HkeyCurrentUser)));
    assert!(matches!(Root::from_isize(HANDLE_LOCAL_MACHINE), Some(Root::HkeyLocalMachine)));
    assert!(matches!(Root::from_isize(HANDLE_USERS), Some(Root::HkeyUsers)));
    assert!(matches!(Root::from_isize(HANDLE_CURRENT_CONFIG), Some(Root::HkeyCurrentConfig)));
    assert!(Root::from_isize(0).is_none());
    assert!(Root::from_isize(12345).is_none());
}

#[test]
fn root_names_are_canonical() {
    assert_eq!(Root::HkeyClassesRoot.name(), "HKEY_CLASSES_ROOT");
    assert_eq!(Root::HkeyCurrentUser.name(), "HKEY_CURRENT_USER");
    assert_eq!(Root::HkeyLocalMachine.name(), "HKEY_LOCAL_MACHINE");
    assert_eq!(Root::HkeyUsers.name(), "HKEY_USERS");
    assert_eq!(Root::HkeyCurrentConfig.name(), "HKEY_CURRENT_CONFIG");
}

#[test]
fn default_selection_enables_local_machine_and_users() {
    let s = SelectedRoots::default();
    assert!(!s.is_enabled(&Root::HkeyClassesRoot));
    assert!(!s.is_enabled(&Root::HkeyCurrentUser));
    assert!(s.is_enabled(&Root::HkeyLocalMachine));
    assert!(s.is_enabled(&Root::HkeyUsers));
    assert!(!s.is_enabled(&Root::HkeyCurrentConfig));
    assert_eq!(s.export_roots(), vec![HANDLE_LOCAL_MACHINE, HANDLE_USERS]);
}

#[test]
fn toggle_twice_is_a_no_op() {
    let mut s = SelectedRoots::default();
    let before = s;
    s.toggle(&Root::HkeyClassesRoot);
    assert!(s.is_enabled(&Root::HkeyClassesRoot));
    s.toggle(&Root::HkeyClassesRoot);
    assert_eq!(s, before);
    s.toggle(&Root::HkeyUsers);
    assert!(!s.is_enabled(&Root::HkeyUsers));
    s.toggle(&Root::HkeyUsers);
    assert_eq!(s, before);
}

#[test]
fn export_roots_follows_tag_order() {
    let mut s = SelectedRoots::default();
    s.toggle(&Root::HkeyClassesRoot);
    s.toggle(&Root::HkeyCurrentConfig);
    assert_eq!(
        s.export_roots(),
        vec![HANDLE_CLASSES_ROOT, HANDLE_LOCAL_MACHINE, HANDLE_USERS, HANDLE_CURRENT_CONFIG]
    );
}

#[test]
fn ordered_set_keeps_strict_order_and_dedups() {
    let mut set = OrderedStringSet::new();
    set.insert(String::from("beta"));
    set.insert(String::from("alpha"));
    set.insert(String::from("gamma"));
    set.insert(String::from("beta"));
    assert_eq!(set.len(), 3);
    assert_eq!(set.get(0).as_str(), "alpha");
    assert_eq!(set.get(1).as_str(), "beta");
    assert_eq!(set.get(2).as_str(), "gamma");
    assert!(set.contains("beta"));
    assert!(!set.contains("delta"));
    assert_eq!(set.index_of("gamma"), Some(2));
}

#[test]
fn ordered_set_insertion_order_is_irrelevant() {
    let mut first = OrderedStringSet::new();
    first.insert(String::from("one"));
    first.insert(String::from("two"));
    let mut second = OrderedStringSet::new();
    second.insert(String::from("two"));
    second.insert(String::from("one"));
    assert_eq!(first.len(), second.len());
    assert_eq!(first.get(0).as_str(), second.get(0).as_str());
    assert_eq!(first.get(1).as_str(), second.get(1).as_str());
}

#[test]
fn ordered_set_remove_restores_prior_contents() {
    let mut set = OrderedStringSet::new();
    set.insert(String::from("keep"));
    set.insert(String::from("fresh"));
    set.remove("fresh");
    assert_eq!(set.len(), 1);
    assert_eq!(set.get(0).as_str(), "keep");
    set.remove("absent");
    assert_eq!(set.len(), 1);
}

#[test]
fn editor_buffers_and_resolves() {
    let mut e = SearchEditor::new_add();
    e.add_char('a');
    e.add_char('b');
    e.backspace();
    e.add_char('c');
    let (mode, text) = e.resolve();
    assert!(matches!(mode, EditorMode::Add));
    assert_eq!(text, "ac");

    let mut e = SearchEditor::new_edit(String::from("orig"));
    assert_eq!(e.render().text, "orig");
    e.backspace();
    let (mode, text) = e.resolve();
    match mode {
        EditorMode::Edit(original) => assert_eq!(original, "orig"),
        EditorMode::Add => panic!("expected edit mode"),
    }
    assert_eq!(text, "ori");
}

#[test]
fn update_add_keeps_terms_sorted_and_cursor_on_new_text() {
    let mut t = SearchTermTracker::new();
    t.update(EditorMode::Add, String::from("mouse"));
    t.update(EditorMode::Add, String::from("cat"));
    t.update(EditorMode::Add, String::from("zebra"));
    assert_eq!(t.get_value_from_index(0), Some(String::from("cat")));
    assert_eq!(t.get_value_from_index(1), Some(String::from("mouse")));
    assert_eq!(t.get_value_from_index(2), Some(String::from("zebra")));
    assert_eq!(t.search_term_selected, 2);
    assert_eq!(t.get_value_at_current_index(), Some(String::from("zebra")));
}

#[test]
fn update_edit_replaces_original() {
    let mut t = SearchTermTracker::new();
    t.update(EditorMode::Add, String::from("old"));
    t.update(EditorMode::Edit(String::from("old")), String::from("new"));
    assert_eq!(t.search_terms.len(), 1);
    assert_eq!(t.get_value_from_index(0), Some(String::from("new")));
    assert_eq!(t.search_term_selected, 0);
}

#[test]
fn edit_term_to_itself_leaves_set_and_cursor_unchanged() {
    let mut t = SearchTermTracker::new();
    t.update(EditorMode::Add, String::from("alpha"));
    t.update(EditorMode::Add, String::from("beta"));
    let cursor_before = t.search_term_selected;
    let selected = t.get_value_at_current_index().unwrap();
    t.update(EditorMode::Edit(selected.clone()), selected);
    assert_eq!(t.search_terms.len(), 2);
    assert_eq!(t.get_value_from_index(0), Some(String::from("alpha")));
    assert_eq!(t.get_value_from_index(1), Some(String::from("beta")));
    assert_eq!(t.search_term_selected, cursor_before);
}

#[test]
fn add_then_remove_restores_prior_contents() {
    let mut t = SearchTermTracker::new();
    t.update(EditorMode::Add, String::from("stay"));
    t.update(EditorMode::Add, String::from("gone"));
    t.remove(String::from("gone"));
    assert_eq!(t.search_terms.len(), 1);
    assert_eq!(t.get_value_from_index(0), Some(String::from("stay")));
}

#[test]
fn cursor_moves_wrap_and_ignore_empty_set() {
    let mut t = SearchTermTracker::new();
    t.up_at(1_000);
    assert_eq!(t.search_term_selected, 0);
    t.down_at(2_000);
    assert_eq!(t.search_term_selected, 0);

    t.update(EditorMode::Add, String::from("a"));
    t.update(EditorMode::Add, String::from("b"));
    t.update(EditorMode::Add, String::from("c"));
    assert_eq!(t.search_term_selected, 2);
    t.down_at(10_000);
    assert_eq!(t.search_term_selected, 0);
    t.up_at(20_000);
    assert_eq!(t.search_term_selected, 2);
    t.up_at(30_000);
    assert_eq!(t.search_term_selected, 1);
}

#[test]
fn cursor_move_on_single_term_is_identity() {
    let mut t = SearchTermTracker::new();
    t.update(EditorMode::Add, String::from("only"));
    t.up_at(5_000);
    assert_eq!(t.search_term_selected, 0);
    t.down_at(10_000);
    assert_eq!(t.search_term_selected, 0);
}

#[test]
fn debounce_rejects_within_window_and_accepts_after() {
    let mut t = SearchTermTracker::new();
    t.update(EditorMode::Add, String::from("a"));
    t.update(EditorMode::Add, String::from("b"));
    t.down_at(1_000);
    let after_first = t.search_term_selected;
    t.down_at(1_099);
    assert_eq!(t.search_term_selected, after_first);
    assert_eq!(t.search_term_last_changed, 1_000);
    t.down_at(1_100);
    assert_ne!(t.search_term_selected, after_first);
    assert_eq!(t.search_term_last_changed, 1_100);
}
