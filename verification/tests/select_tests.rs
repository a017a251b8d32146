use promptkit::key::next_index;
use promptkit::key::Key;
use promptkit::select::Select;
use promptkit::select::SelectOpt;
use promptkit::select::SelectStep;
use unicode_segmentation::UnicodeSegmentation;

fn up_down_options() -> Vec<SelectOpt<i32>> {
    vec![
        SelectOpt::new("Up".to_string(), None, 1),
        SelectOpt::new("Down".to_string(), None, 2),
    ]
}

#[test]
fn navigation_wraps_both_ways() {
    assert_eq!(next_index(0, Key::ArrowUp, 3), 2);
    assert_eq!(next_index(2, Key::ArrowDown, 3), 0);
    assert_eq!(next_index(1, Key::ArrowDown, 3), 2);
    assert_eq!(next_index(1, Key::ArrowUp, 3), 0);
    assert_eq!(next_index(1, Key::Other, 3), 1);
}

#[test]
fn navigation_congruent_to_downs_minus_ups() {
    // five downs and two ups from index 0 over three options: (5 - 2) % 3 == 0
    let keys = [
        Key::ArrowDown,
        Key::ArrowDown,
        Key::ArrowUp,
        Key::ArrowDown,
        Key::ArrowDown,
        Key::ArrowUp,
        Key::ArrowDown,
    ];
    let mut cur: usize = 0;
    for k in keys {
        cur = next_index(cur, k, 3);
        assert!(cur < 3);
    }
    assert_eq!(cur, 0);
}

#[test]
fn script_confirms_congruent_index() {
    // seven arrows with a net move of three, over three options: the
    // selection wraps back to the first option before Enter confirms it
    let options = vec![
        SelectOpt::new("a".to_string(), None, 1),
        SelectOpt::new("b".to_string(), None, 2),
        SelectOpt::new("c".to_string(), None, 3),
    ];
    let sel = Select::new("> ".to_string(), options);
    let keys = vec![
        Key::ArrowDown,
        Key::ArrowDown,
        Key::ArrowUp,
        Key::ArrowDown,
        Key::ArrowDown,
        Key::ArrowUp,
        Key::ArrowDown,
        Key::Enter,
    ];
    assert_eq!(sel.run_script(&keys), Some(1));
}

#[test]
fn prefix_builder_replaces_the_prefix() {
    let sel = Select::new("* ".to_string(), up_down_options()).prefix("> ".to_string());
    let rows = sel.render_rows(0);
    assert_eq!(rows[0], "> Up");
}

#[test]
fn scenario_down_enter_returns_second_value() {
    let sel = Select::new("> ".to_string(), up_down_options());
    let keys = vec![Key::ArrowDown, Key::Enter];
    assert_eq!(sel.run_script(&keys), Some(2));
}

#[test]
fn scenario_up_wraps_to_last_of_four() {
    let options = vec![
        SelectOpt::new("a".to_string(), None, 10),
        SelectOpt::new("b".to_string(), None, 20),
        SelectOpt::new("c".to_string(), None, 30),
        SelectOpt::new("d".to_string(), None, 40),
    ];
    let sel = Select::new("> ".to_string(), options);
    let keys = vec![Key::ArrowUp, Key::Enter];
    assert_eq!(sel.run_script(&keys), Some(40));
}

#[test]
fn other_keys_leave_selection_alone() {
    let sel = Select::new("> ".to_string(), up_down_options());
    let keys = vec![Key::Other, Key::Other, Key::Enter];
    assert_eq!(sel.run_script(&keys), Some(1));
}

#[test]
fn script_without_enter_confirms_nothing() {
    let sel = Select::new("> ".to_string(), up_down_options());
    let keys = vec![Key::ArrowDown, Key::ArrowUp];
    assert_eq!(sel.run_script(&keys), None);
}

#[test]
fn default_opt_sets_starting_selection() {
    let sel = Select::new("> ".to_string(), up_down_options()).default_opt(1);
    assert_eq!(sel.start_index(), 1);
    assert_eq!(sel.run_script(&vec![Key::Enter]), Some(2));
}

#[test]
fn handle_key_moves_and_confirms() {
    let sel = Select::new("> ".to_string(), up_down_options());
    assert!(matches!(sel.handle_key(0, Key::ArrowDown), SelectStep::Continue(1)));
    assert!(matches!(sel.handle_key(0, Key::ArrowUp), SelectStep::Continue(1)));
    assert!(matches!(sel.handle_key(1, Key::Other), SelectStep::Continue(1)));
    assert!(matches!(sel.handle_key(1, Key::Enter), SelectStep::Done(2)));
}

#[test]
fn cleanup_erases_rows_padding_and_header() {
    let options = vec![
        SelectOpt::new("a".to_string(), None, 1),
        SelectOpt::new("b".to_string(), None, 2),
        SelectOpt::new("c".to_string(), None, 3),
    ];
    let sel = Select::new("> ".to_string(), options).padding(1).clear_after();
    assert_eq!(sel.cleanup_line_count(), 5);
}

#[test]
fn cleanup_erases_nothing_without_clear_after() {
    let sel = Select::new("> ".to_string(), up_down_options()).padding(4);
    assert_eq!(sel.cleanup_line_count(), 0);
}

#[test]
fn selected_row_uses_selected_text_and_prefix() {
    let options = vec![
        SelectOpt::new("plain".to_string(), Some("fancy".to_string()), 1),
        SelectOpt::new("other".to_string(), None, 2),
    ];
    let sel = Select::new("> ".to_string(), options);
    let first = sel.render_rows(0);
    assert_eq!(first[0], "> fancy");
    assert_eq!(first[1], "other");
    let second = sel.render_rows(1);
    assert_eq!(second[0], "plain");
    assert_eq!(second[1], "> other");
}

#[test]
fn rendering_is_idempotent() {
    let options = vec![
        SelectOpt::new("plain".to_string(), Some("fancy".to_string()), 1),
        SelectOpt::new("other".to_string(), None, 2),
    ];
    let sel = Select::new("> ".to_string(), options).aligned();
    let r1 = sel.render_rows(1);
    let r2 = sel.render_rows(1);
    assert_eq!(r1, r2);
}

#[test]
fn aligned_rows_share_a_column_up_to_ten_options() {
    for n in 1..11 {
        let mut sel: Select<i32> = Select::new("> ".to_string(), Vec::new()).aligned();
        for k in 0..n {
            sel = sel.opt(SelectOpt::new(format!("option {}", k), None, k));
        }
        let expected: usize = sel.row_text_column(0, 0);
        assert_eq!(expected, 2);
        let rows = sel.render_rows(0);
        for i in 0..n as usize {
            assert_eq!(sel.row_text_column(0, i), expected);
            let text = format!("option {}", i);
            assert!(rows[i].ends_with(&text));
            let indent = &rows[i][..rows[i].len() - text.len()];
            let cols: usize = indent.graphemes(true).count();
            assert_eq!(cols, expected);
        }
    }
}

#[test]
fn aligned_prefix_with_color_still_lines_up() {
    // a red prefix: the escape bytes must not widen the indent
    let options = vec![
        SelectOpt::new("one".to_string(), None, 1),
        SelectOpt::new("two".to_string(), None, 2),
    ];
    let sel = Select::new("\x1B[31m> \x1B[0m".to_string(), options).aligned();
    let rows = sel.render_rows(0);
    assert_eq!(rows[0], "\x1B[31m> \x1B[0mone");
    assert_eq!(rows[1], "  two");
}

#[test]
fn unaligned_rows_are_unpadded() {
    let sel = Select::new("> ".to_string(), up_down_options());
    let rows = sel.render_rows(0);
    assert_eq!(rows[0], "> Up");
    assert_eq!(rows[1], "Down");
}
