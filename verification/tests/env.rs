use ped::color::Color;
use ped::editor::Editor;
use ped::env::{Environment, Focus, SCRATCH_ID};
use ped::source::Source;
use ped::workspace::{Placement, Workspace};

fn env() -> Environment {
    Environment::new(Workspace::new(24, 80, Color::new(1, 2)), false, 4)
}

fn editor(name: &str) -> Editor {
    let mut e = Editor::new(None, false, false, 4, false, None);
    e.set_source(Source::as_ephemeral(name));
    e
}

fn attachments(env: &Environment) -> Vec<(u32, u32)> {
    let mut v = env.view_map().clone();
    v.sort();
    v
}

fn editor_ids(env: &Environment) -> Vec<u32> {
    env.editor_map().iter().map(|(id, _)| *id).collect()
}

#[test]
fn starts_with_scratch_editor() {
    let env = env();
    assert_eq!(env.get_active_view_id(), 0);
    assert_eq!(env.get_active_editor_id(), SCRATCH_ID);
    assert_eq!(editor_ids(&env), vec![SCRATCH_ID]);
    assert_eq!(env.find_editor_id("@scratch", "/home/me"), Some(SCRATCH_ID));
    assert_eq!(env.find_editor_id("@other", "/home/me"), None);
}

#[test]
fn open_editor_adds_view_and_editor() {
    let mut env = env();
    assert_eq!(env.open_editor(editor("a"), Placement::Bottom), Some((1, 1)));
    assert_eq!(attachments(&env), vec![(0, 0), (1, 1)]);
    assert_eq!(env.get_active_view_id(), 0);
    assert_eq!(env.find_editor_view_id(1), Some(1));
    assert_eq!(env.find_editor_id("@a", ""), Some(1));
    assert_eq!(env.workspace().views().len(), 2);
}

#[test]
fn set_active_follows_focus() {
    let mut env = env();
    env.open_editor(editor("a"), Placement::Bottom);
    env.open_editor(editor("b"), Placement::Bottom);
    assert_eq!(env.set_active(Focus::Bottom), 2);
    assert_eq!(env.set_active(Focus::Below), 0);
    assert_eq!(env.set_active(Focus::Above), 2);
    assert_eq!(env.set_active(Focus::To(1)), 1);
    assert_eq!(env.set_active(Focus::Top), 0);
    assert_eq!(env.get_active_editor_id(), SCRATCH_ID);
}

#[test]
fn set_editor_keeps_previous_editor() {
    let mut env = env();
    let id = env.set_editor(editor("a"));
    assert_eq!(id, 1);
    assert_eq!(env.get_active_editor_id(), 1);
    assert_eq!(editor_ids(&env), vec![0, 1]);
    assert_eq!(env.find_editor_view_id(SCRATCH_ID), None);
}

#[test]
fn switch_editor_only_to_unshown_editor() {
    let mut env = env();
    env.open_editor(editor("a"), Placement::Bottom);
    let id = env.set_editor_for(1, editor("b"));
    assert_eq!(id, 2);
    // Editor 1 is now not shown; switching the top view to it succeeds.
    assert_eq!(env.switch_editor(1), 1);
    assert_eq!(attachments(&env), vec![(0, 1), (1, 2)]);
    // Editor 2 is shown by view 1, so the top view keeps editor 1.
    assert_eq!(env.switch_editor(2), 1);
    assert_eq!(attachments(&env), vec![(0, 1), (1, 2)]);
}

#[test]
fn close_window_keeps_editor_kill_removes_it() {
    let mut env = env();
    assert_eq!(env.close_window(), None);
    env.open_editor(editor("a"), Placement::Bottom);
    env.open_editor(editor("b"), Placement::Bottom);
    env.set_active(Focus::To(2));
    assert_eq!(env.close_window(), Some(1));
    assert_eq!(env.get_active_view_id(), 1);
    assert_eq!(editor_ids(&env), vec![0, 1, 2]);
    assert_eq!(env.kill_window(), Some(0));
    assert_eq!(editor_ids(&env), vec![0, 2]);
    assert_eq!(attachments(&env), vec![(0, 0)]);
}

#[test]
fn kill_window_never_removes_scratch() {
    let mut env = env();
    env.open_editor(editor("a"), Placement::Top);
    assert_eq!(env.kill_window_for(0), Some(1));
    assert_eq!(editor_ids(&env), vec![0, 1]);
}

#[test]
fn close_editor_only_when_unshown() {
    let mut env = env();
    env.open_editor(editor("a"), Placement::Bottom);
    assert_eq!(env.close_editor(SCRATCH_ID), None);
    assert_eq!(env.close_editor(1), None);
    env.close_window_for(1);
    assert_eq!(env.close_editor(1), Some(1));
    assert_eq!(editor_ids(&env), vec![0]);
}

#[test]
fn open_window_reuses_view_of_shown_editor() {
    let mut env = env();
    env.set_editor(editor("a"));
    assert_eq!(env.open_window(1, Placement::Bottom), Some(0));
    assert_eq!(env.open_window(SCRATCH_ID, Placement::Bottom), Some(1));
    assert_eq!(attachments(&env), vec![(0, 1), (1, 0)]);
}

#[test]
fn resize_drops_views_but_keeps_editors() {
    let mut env = env();
    env.open_editor(editor("a"), Placement::Bottom);
    env.open_editor(editor("b"), Placement::Bottom);
    env.resize(6, 80);
    assert_eq!(env.workspace().views().len(), 2);
    assert_eq!(attachments(&env), vec![(0, 0), (1, 1)]);
    assert_eq!(editor_ids(&env), vec![0, 1, 2]);
}

#[test]
fn editor_mut_changes_editor() {
    let mut env = env();
    let id = env.get_active_editor_id();
    env.editor_mut(id).insert_str("hello");
    let b = env.get_active_editor().buffer();
    let text: String = b.copy(0, b.size()).into_iter().collect();
    assert_eq!(text, "hello");
}
