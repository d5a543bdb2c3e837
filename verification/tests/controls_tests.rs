use windows_registry_searcher::controls::{controls_at, ControlAction, KeyInput};
use windows_registry_searcher::ordered_set::OrderedStringSet;
use windows_registry_searcher::static_selection::StaticSelection;
use windows_registry_searcher::worker_runtime::{finish_run_at, prepare_run};
use windows_registry_searcher::root::{HANDLE_LOCAL_MACHINE, HANDLE_USERS};
use windows_registry_searcher::{EditorMode, Focus};

#[test]
fn adding_a_term_through_the_editor() {
    let mut sel = StaticSelection::new();
    let mut focus = Focus::Main;
    controls_at(&mut sel, &mut focus, KeyInput::Char('n'), 1_000);
    assert!(matches!(focus, Focus::SearchMod(_)));
    controls_at(&mut sel, &mut focus, KeyInput::Char('a'), 1_001);
    controls_at(&mut sel, &mut focus, KeyInput::Char('b'), 1_002);
    controls_at(&mut sel, &mut focus, KeyInput::Backspace, 1_003);
    controls_at(&mut sel, &mut focus, KeyInput::Enter, 1_004);
    assert!(matches!(focus, Focus::Main));
    assert_eq!(sel.search_term_tracker.search_terms.len(), 1);
    assert_eq!(sel.search_term_tracker.get_value_from_index(0), Some(String::from("a")));
}

#[test]
fn escape_discards_the_editor() {
    let mut sel = StaticSelection::new();
    let mut focus = Focus::Main;
    controls_at(&mut sel, &mut focus, KeyInput::Char('n'), 1_000);
    controls_at(&mut sel, &mut focus, KeyInput::Char('x'), 1_001);
    controls_at(&mut sel, &mut focus, KeyInput::Esc, 1_002);
    assert!(matches!(focus, Focus::Main));
    assert_eq!(sel.search_term_tracker.search_terms.len(), 0);
}

#[test]
fn editing_the_selected_term() {
    let mut sel = StaticSelection::new();
    let mut focus = Focus::Main;
    sel.search_term_tracker.update(EditorMode::Add, String::from("old"));
    controls_at(&mut sel, &mut focus, KeyInput::Right, 1_000);
    assert_eq!(sel.pane_selected, 1);
    controls_at(&mut sel, &mut focus, KeyInput::Char('e'), 1_100);
    match &focus {
        Focus::SearchMod(editor) => assert_eq!(editor.state, "old"),
        _ => panic!("expected the editor to open"),
    }
    controls_at(&mut sel, &mut focus, KeyInput::Char('x'), 1_200);
    controls_at(&mut sel, &mut focus, KeyInput::Enter, 1_300);
    assert_eq!(sel.search_term_tracker.search_terms.len(), 1);
    assert_eq!(sel.search_term_tracker.get_value_from_index(0), Some(String::from("oldx")));
}

#[test]
fn f5_toggles_start_and_stop() {
    let mut sel = StaticSelection::new();
    let mut focus = Focus::Main;
    let action = controls_at(&mut sel, &mut focus, KeyInput::FunctionFive, 1_000);
    assert!(matches!(action, ControlAction::StartRun));
    assert!(sel.running);
    assert!(!sel.stop);
    assert_eq!(sel.timer, Some((1_000, None)));
    let action = controls_at(&mut sel, &mut focus, KeyInput::FunctionFive, 2_000);
    assert!(matches!(action, ControlAction::Nothing));
    assert!(sel.stop);
    assert!(sel.run_control_temporarily_disabled);
}

#[test]
fn confirm_close_flow() {
    let mut sel = StaticSelection::new();
    let mut focus = Focus::Main;
    controls_at(&mut sel, &mut focus, KeyInput::Char('q'), 1_000);
    assert!(matches!(focus, Focus::ConfirmClose));
    controls_at(&mut sel, &mut focus, KeyInput::Char('n'), 1_001);
    assert!(matches!(focus, Focus::Main));
    controls_at(&mut sel, &mut focus, KeyInput::Esc, 1_002);
    assert!(matches!(focus, Focus::ConfirmClose));
    let action = controls_at(&mut sel, &mut focus, KeyInput::Enter, 1_003);
    assert!(matches!(action, ControlAction::Shutdown));
}

#[test]
fn help_opens_and_closes() {
    let mut sel = StaticSelection::new();
    let mut focus = Focus::Main;
    controls_at(&mut sel, &mut focus, KeyInput::Char('h'), 1_000);
    assert!(matches!(focus, Focus::Help));
    controls_at(&mut sel, &mut focus, KeyInput::Char('z'), 1_001);
    assert!(matches!(focus, Focus::Help));
    controls_at(&mut sel, &mut focus, KeyInput::Char('h'), 1_002);
    assert!(matches!(focus, Focus::Main));
}

#[test]
fn pane_cursor_wraps_and_debounces() {
    let mut sel = StaticSelection::new();
    let mut focus = Focus::Main;
    controls_at(&mut sel, &mut focus, KeyInput::Left, 1_000);
    assert_eq!(sel.pane_selected, 2);
    controls_at(&mut sel, &mut focus, KeyInput::Right, 1_050);
    assert_eq!(sel.pane_selected, 2);
    controls_at(&mut sel, &mut focus, KeyInput::Right, 1_100);
    assert_eq!(sel.pane_selected, 0);
}

#[test]
fn hive_cursor_moves_and_enter_toggles() {
    let mut sel = StaticSelection::new();
    let mut focus = Focus::Main;
    controls_at(&mut sel, &mut focus, KeyInput::Up, 1_000);
    assert_eq!(sel.root_selected, 4);
    controls_at(&mut sel, &mut focus, KeyInput::Down, 1_100);
    assert_eq!(sel.root_selected, 0);
    controls_at(&mut sel, &mut focus, KeyInput::Enter, 1_200);
    let rows = sel.generate_root_list();
    assert_eq!(rows.len(), 5);
    assert!(rows[0].enabled);
    assert_eq!(rows[0].name, "HKEY_CLASSES_ROOT");
    assert!(rows[0].selected);
    assert!(!rows[1].selected);
}

#[test]
fn search_rows_mark_the_cursor_only_when_focused() {
    let mut sel = StaticSelection::new();
    sel.search_term_tracker.update(EditorMode::Add, String::from("one"));
    sel.search_term_tracker.update(EditorMode::Add, String::from("two"));
    let rows = sel.search_term_tracker.render(true);
    assert_eq!(rows.len(), 2);
    assert_eq!(rows[0].text, "one");
    assert!(!rows[0].selected);
    assert!(rows[1].selected);
    let unfocused = sel.search_term_tracker.render(false);
    assert!(!unfocused[0].selected && !unfocused[1].selected);
}

#[test]
fn prepare_run_snapshots_roots_and_terms() {
    let mut sel = StaticSelection::new();
    sel.search_term_tracker.update(EditorMode::Add, String::from("beta"));
    sel.search_term_tracker.update(EditorMode::Add, String::from("alpha"));
    let (roots, terms) = prepare_run(&sel);
    assert_eq!(roots, vec![HANDLE_LOCAL_MACHINE, HANDLE_USERS]);
    assert_eq!(terms, vec![String::from("alpha"), String::from("beta")]);
}

#[test]
fn finish_run_clears_flags_and_stamps_the_timer() {
    let mut sel = StaticSelection::new();
    sel.running = true;
    sel.stop = true;
    sel.run_control_temporarily_disabled = true;
    sel.timer = Some((5, None));
    let mut results = OrderedStringSet::new();
    results.insert(String::from("line"));
    finish_run_at(&mut sel, results, 99);
    assert!(!sel.running);
    assert!(!sel.stop);
    assert!(!sel.run_control_temporarily_disabled);
    assert_eq!(sel.timer, Some((5, Some(99))));
    let shown = sel.generate_results();
    assert_eq!(shown, vec![String::from("line")]);
}
