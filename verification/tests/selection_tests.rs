use promptkit::key::Key;
use promptkit::selection::Selection;
use promptkit::selection::SelectionStep;

#[test]
fn selection_down_enter_returns_second() {
    let sel = Selection::new("> ", vec![("Up", 1), ("Down", 2)]);
    let keys = vec![Key::ArrowDown, Key::Enter];
    assert_eq!(sel.run_script(&keys), Some(("Down", 2)));
}

#[test]
fn selection_up_wraps_to_last() {
    let sel = Selection::new("> ", vec![("a", 10), ("b", 20), ("c", 30)]);
    let keys = vec![Key::ArrowUp, Key::Enter];
    assert_eq!(sel.run_script(&keys), Some(("c", 30)));
}

#[test]
fn selection_renders_prefix_on_selected_only() {
    let sel = Selection::new("> ", vec![("a", 1), ("b", 2)]);
    let rows = sel.render_rows(0);
    assert_eq!(rows, vec!["> a".to_string(), "b".to_string()]);
}

#[test]
fn selection_handle_key_confirms_pair() {
    let sel = Selection::new("> ", vec![("a", 1), ("b", 2)]);
    assert!(matches!(sel.handle_key(0, Key::ArrowDown), SelectionStep::Continue(1)));
    assert!(matches!(sel.handle_key(1, Key::Enter), SelectionStep::Done(("b", 2))));
}

#[test]
fn selection_builders_chain() {
    let sel = Selection::new("* ", Vec::new())
        .opt(("x", 1))
        .opt(("y", 2))
        .prefix("> ")
        .set_default(1);
    assert_eq!(sel.num_options(), 2);
    assert_eq!(sel.start_index(), 1);
    assert_eq!(sel.run_script(&vec![Key::Enter]), Some(("y", 2)));
    let rows = sel.render_rows(1);
    assert_eq!(rows[1], "> y");
}

#[test]
fn selection_script_without_enter_confirms_nothing() {
    let sel = Selection::new("> ", vec![("a", 1)]);
    let keys = vec![Key::ArrowDown, Key::ArrowDown];
    assert_eq!(sel.run_script(&keys), None);
}
