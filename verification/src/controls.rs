//! The input handler's decision logic: one keystroke against the current
//! focus becomes a state change and an action for the surrounding loop.
use vstd::prelude::*;
use crate::search_editor::SearchEditor;
use crate::search_term_tracker::{spec_removed, update_members_ok};
use crate::static_selection::StaticSelection;
use crate::{clock, EditorMode, Focus};

verus! {

/// A keystroke, reduced to what the handler dispatches on.
#[derive(Clone, Copy, PartialEq, Eq, Structural, Debug)]
pub enum KeyInput {
    Char(char),
    Left,
    Right,
    Up,
    Down,
    Enter,
    Esc,
    Backspace,
    FunctionFive,
    Other,
}

/// What the surrounding loop must do after a keystroke is handled.
#[derive(Clone, Copy, PartialEq, Eq, Structural, Debug)]
pub enum ControlAction {
    /// Nothing beyond the state change.
    Nothing,
    /// Send one token on the run-request channel.
    StartRun,
    /// Set the process stop flag and close the run-request channel.
    Shutdown,
}

/// Whether the editor `post` continues `pre` after the keystroke `key`:
/// printable characters append to the buffer, backspace trims it, and the
/// resolution mode never changes.
pub open spec fn editor_key_rel(pre: SearchEditor, post: SearchEditor, key: KeyInput) -> bool {
    &&& post.mode == pre.mode
    &&& match key {
        KeyInput::Backspace => if pre.state@.len() == 0 {
            post.state@ == pre.state@
        } else {
            post.state@ == pre.state@.drop_last()
        },
        KeyInput::Char(c) => post.state@ == pre.state@.push(c),
        _ => post.state@ == pre.state@,
    }
}

/// The whole input-handler step relation: how one keystroke under one
/// focus moves the shared state, the focus, and what action it demands.
pub open spec fn controls_rel(
    pre: StaticSelection,
    pre_focus: Focus,
    post: StaticSelection,
    post_focus: Focus,
    action: ControlAction,
    key: KeyInput,
    now: u64,
) -> bool {
    match pre_focus {
        Focus::Main => {
            &&& match key {
                KeyInput::Char(c) => {
                    if c == 'n' {
                        &&& post == pre
                        &&& (post_focus matches Focus::SearchMod(e) && e.mode is Add
                            && e.state@.len() == 0)
                    } else if c == 'e' {
                        if pre.pane_selected == 1 && pre.search_term_tracker.search_terms@.len()
                            > 0 {
                            let selected =
                                pre.search_term_tracker.search_terms@[pre.search_term_tracker.search_term_selected as int];
                            &&& post == pre
                            &&& (post_focus matches Focus::SearchMod(e) && (e.mode
                                matches EditorMode::Edit(o) && o@ == selected) && e.state@
                                == selected)
                        } else {
                            post == pre && post_focus is Main
                        }
                    } else if c == 'h' {
                        post == pre && post_focus is Help
                    } else if c == 'q' {
                        post == pre && post_focus is ConfirmClose
                    } else {
                        post == pre && post_focus is Main
                    }
                },
                KeyInput::Esc => post == pre && post_focus is ConfirmClose,
                KeyInput::Left => post == pre.spec_pane_left(now) && post_focus is Main,
                KeyInput::Right => post == pre.spec_pane_right(now) && post_focus is Main,
                KeyInput::Up => {
                    &&& post_focus is Main
                    &&& if pre.pane_selected == 0 {
                        post == pre.spec_root_up(now)
                    } else if pre.pane_selected == 1 {
                        post == (StaticSelection {
                            search_term_tracker: pre.search_term_tracker.spec_up(now),
                            ..pre
                        })
                    } else {
                        post == pre
                    }
                },
                KeyInput::Down => {
                    &&& post_focus is Main
                    &&& if pre.pane_selected == 0 {
                        post == pre.spec_root_down(now)
                    } else if pre.pane_selected == 1 {
                        post == (StaticSelection {
                            search_term_tracker: pre.search_term_tracker.spec_down(now),
                            ..pre
                        })
                    } else {
                        post == pre
                    }
                },
                KeyInput::Enter => {
                    &&& post_focus is Main
                    &&& if pre.pane_selected == 0 {
                        &&& post == (StaticSelection { selected_roots: post.selected_roots, ..pre })
                        &&& post.selected_roots == pre.selected_roots.spec_toggle(
                            crate::root::Root::spec_from_u8(pre.root_selected)->0,
                        )
                    } else {
                        post == pre
                    }
                },
                KeyInput::FunctionFive => {
                    &&& post_focus is Main
                    &&& if pre.running {
                        &&& post == (StaticSelection {
                            run_control_temporarily_disabled: true,
                            stop: true,
                            ..pre
                        })
                        &&& action is Nothing
                    } else {
                        &&& post == (StaticSelection {
                            running: true,
                            timer: Some((now, None::<u64>)),
                            ..pre
                        })
                        &&& action is StartRun
                    }
                },
                KeyInput::Backspace => post == pre && post_focus is Main,
                KeyInput::Other => post == pre && post_focus is Main,
            }
            &&& (key matches KeyInput::FunctionFive || action is Nothing)
        },
        Focus::SearchMod(editor) => {
            match key {
                KeyInput::Esc => post == pre && post_focus is Main && action is Nothing,
                KeyInput::Enter => {
                    &&& post_focus is Main
                    &&& action is Nothing
                    &&& post == (StaticSelection {
                        search_term_tracker: post.search_term_tracker,
                        ..pre
                    })
                    &&& post.search_term_tracker.wf()
                    &&& update_members_ok(
                        pre.search_term_tracker.search_terms@,
                        post.search_term_tracker.search_terms@,
                        spec_removed(editor.mode),
                        editor.state@,
                    )
                    &&& post.search_term_tracker.search_terms@.len() > 0
                    &&& post.search_term_tracker.search_terms@[post.search_term_tracker.search_term_selected as int]
                        == editor.state@
                    &&& post.search_term_tracker.search_term_last_changed
                        == pre.search_term_tracker.search_term_last_changed
                },
                _ => {
                    &&& post == pre
                    &&& action is Nothing
                    &&& (post_focus matches Focus::SearchMod(e) && editor_key_rel(editor, e, key))
                },
            }
        },
        Focus::Help => {
            &&& post == pre
            &&& action is Nothing
            &&& match key {
                KeyInput::Char(c) => if c == 'q' || c == 'h' {
                    post_focus is Main
                } else {
                    post_focus is Help
                },
                KeyInput::Esc => post_focus is Main,
                _ => post_focus is Help,
            }
        },
        Focus::ConfirmClose => {
            &&& post == pre
            &&& match key {
                KeyInput::Esc => post_focus is Main && action is Nothing,
                KeyInput::Char(c) => if c == 'n' {
                    post_focus is Main && action is Nothing
                } else if c == 'y' || c == 'q' {
                    post_focus is ConfirmClose && action is Shutdown
                } else {
                    post_focus is ConfirmClose && action is Nothing
                },
                KeyInput::Enter => post_focus is ConfirmClose && action is Shutdown,
                _ => post_focus is ConfirmClose && action is Nothing,
            }
        },
    }
}

/// Handle one keystroke at time `now`: dispatch on the focus, mutate the
/// shared state, move the focus, and say what the loop must do.
pub fn controls_at(
    selection: &mut StaticSelection,
    focus: &mut Focus,
    key: KeyInput,
    now: u64,
) -> (r: ControlAction)
    requires
        old(selection).wf(),
    ensures
        final(selection).wf(),
        controls_rel(
            *old(selection),
            *old(focus),
            *final(selection),
            *final(focus),
            r,
            key,
            now,
        ),
{
    let mut current = Focus::Main;
    core::mem::swap(&mut current, focus);
    match current {
        Focus::Main => {
            match key {
                KeyInput::Char(c) => {
                    if c == 'n' {
                        *focus = Focus::SearchMod(SearchEditor::new_add());
                    } else if c == 'e' {
                        if selection.pane_selected == 1 {
                            let selected =
                                selection.search_term_tracker.get_value_at_current_index();
                            match selected {
                                Some(term) => {
                                    *focus = Focus::SearchMod(SearchEditor::new_edit(term));
                                },
                                None => {
                                    *focus = Focus::Main;
                                },
                            }
                        }
                    } else if c == 'h' {
                        *focus = Focus::Help;
                    } else if c == 'q' {
                        *focus = Focus::ConfirmClose;
                    }
                    ControlAction::Nothing
                },
                KeyInput::Esc => {
                    *focus = Focus::ConfirmClose;
                    ControlAction::Nothing
                },
                KeyInput::Left => {
                    selection.pane_left_at(now);
                    ControlAction::Nothing
                },
                KeyInput::Right => {
                    selection.pane_right_at(now);
                    ControlAction::Nothing
                },
                KeyInput::Up => {
                    if selection.pane_selected == 0 {
                        selection.root_up_at(now);
                    } else if selection.pane_selected == 1 {
                        selection.search_term_tracker.up_at(now);
                    }
                    ControlAction::Nothing
                },
                KeyInput::Down => {
                    if selection.pane_selected == 0 {
                        selection.root_down_at(now);
                    } else if selection.pane_selected == 1 {
                        selection.search_term_tracker.down_at(now);
                    }
                    ControlAction::Nothing
                },
                KeyInput::Enter => {
                    if selection.pane_selected == 0 {
                        selection.root_toggle();
                    }
                    ControlAction::Nothing
                },
                KeyInput::FunctionFive => {
                    if selection.running {
                        selection.run_control_temporarily_disabled = true;
                        selection.stop = true;
                        ControlAction::Nothing
                    } else {
                        selection.running = true;
                        selection.timer = Some((now, None));
                        ControlAction::StartRun
                    }
                },
                KeyInput::Backspace => ControlAction::Nothing,
                KeyInput::Other => ControlAction::Nothing,
            }
        },
        Focus::SearchMod(editor) => {
            match key {
                KeyInput::Esc => {
                    *focus = Focus::Main;
                    ControlAction::Nothing
                },
                KeyInput::Enter => {
                    *focus = Focus::Main;
                    let (editor_mode, state) = editor.resolve();
                    selection.search_term_tracker.update(editor_mode, state);
                    ControlAction::Nothing
                },
                KeyInput::Backspace => {
                    let mut e = editor;
                    e.backspace();
                    *focus = Focus::SearchMod(e);
                    ControlAction::Nothing
                },
                KeyInput::Char(c) => {
                    let mut e = editor;
                    e.add_char(c);
                    *focus = Focus::SearchMod(e);
                    ControlAction::Nothing
                },
                _ => {
                    *focus = Focus::SearchMod(editor);
                    ControlAction::Nothing
                },
            }
        },
        Focus::Help => {
            match key {
                KeyInput::Char(c) => {
                    if c == 'q' || c == 'h' {
                        *focus = Focus::Main;
                    } else {
                        *focus = Focus::Help;
                    }
                    ControlAction::Nothing
                },
                KeyInput::Esc => {
                    *focus = Focus::Main;
                    ControlAction::Nothing
                },
                _ => {
                    *focus = Focus::Help;
                    ControlAction::Nothing
                },
            }
        },
        Focus::ConfirmClose => {
            match key {
                KeyInput::Esc => {
                    *focus = Focus::Main;
                    ControlAction::Nothing
                },
                KeyInput::Char(c) => {
                    if c == 'n' {
                        *focus = Focus::Main;
                        ControlAction::Nothing
                    } else if c == 'y' || c == 'q' {
                        *focus = Focus::ConfirmClose;
                        ControlAction::Shutdown
                    } else {
                        *focus = Focus::ConfirmClose;
                        ControlAction::Nothing
                    }
                },
                KeyInput::Enter => {
                    *focus = Focus::ConfirmClose;
                    ControlAction::Shutdown
                },
                _ => {
                    *focus = Focus::ConfirmClose;
                    ControlAction::Nothing
                },
            }
        },
    }
}

/// Handle one keystroke at the present moment.
pub fn controls(selection: &mut StaticSelection, focus: &mut Focus, key: KeyInput) -> (r:
    ControlAction)
    requires
        old(selection).wf(),
    ensures
        final(selection).wf(),
        exists|now: u64|
            controls_rel(
                *old(selection),
                *old(focus),
                *final(selection),
                *final(focus),
                r,
                key,
                now,
            ),
{
    let now = clock::now_millis();
    controls_at(selection, focus, key, now)
}

} // verus!
