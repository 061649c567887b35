use apyr::control::{process_key_event, sat_add_signed, Key};
use apyr::engine::Engine;
use apyr::types::{Panel, UIState};

fn type_query(app: &mut Engine, ui: &mut UIState, text: &str) {
    for c in text.chars() {
        process_key_event(Key::Char(c), app, ui);
    }
}

fn settle(e: &mut Engine) {
    while let Some(job) = e.next_job() {
        let batch = e.scan_job(job);
        if !batch.is_empty() {
            e.merge_batch(&batch);
        }
    }
}

#[test]
fn default_view_state() {
    let ui = UIState::default();
    assert_eq!(ui.log_offset.x, 0);
    assert_eq!(ui.log_offset.y, 0);
    assert_eq!(ui.log_max_width, 0);
    assert!(ui.selected_panel == Panel::Search);
    assert!(ui.matches_selected.is_none());
    assert!(!ui.matches_should_locate);
    assert_eq!(ui.search_query, "");
    assert!(ui.following);
}

#[test]
fn tab_toggles_the_focused_panel() {
    let mut app = Engine::new();
    let mut ui = UIState::default();
    process_key_event(Key::Tab, &mut app, &mut ui);
    assert!(ui.selected_panel == Panel::Matches);
    process_key_event(Key::Tab, &mut app, &mut ui);
    assert!(ui.selected_panel == Panel::Search);
}

#[test]
fn typing_edits_the_query_and_resubmits() {
    let mut app = Engine::new();
    let mut ui = UIState::default();
    let _ = app.push_line("foo".to_string());
    settle(&mut app);
    type_query(&mut app, &mut ui, "foo");
    assert_eq!(ui.search_query, "foo");
    // one version bump per keystroke
    assert_eq!(app.submit_query("foo"), 4);
    settle(&mut app);
    assert_eq!(app.read_matches_snapshot().len(), 1);
    // Backspace shortens the query below the minimum: filtering off
    process_key_event(Key::Backspace, &mut app, &mut ui);
    assert_eq!(ui.search_query, "fo");
    settle(&mut app);
    assert!(app.read_matches_snapshot().is_empty());
}

#[test]
fn escape_moves_focus_to_the_matches_panel() {
    let mut app = Engine::new();
    let mut ui = UIState::default();
    process_key_event(Key::Esc, &mut app, &mut ui);
    assert!(ui.selected_panel == Panel::Matches);
}

#[test]
fn quit_key_requests_shutdown() {
    let mut app = Engine::new();
    let mut ui = UIState::default();
    ui.selected_panel = Panel::Matches;
    process_key_event(Key::Char('q'), &mut app, &mut ui);
    assert!(app.is_quitting());
}

#[test]
fn clear_key_empties_the_query_and_focuses_search() {
    let mut app = Engine::new();
    let mut ui = UIState::default();
    type_query(&mut app, &mut ui, "foo");
    process_key_event(Key::Esc, &mut app, &mut ui);
    process_key_event(Key::Char('c'), &mut app, &mut ui);
    assert_eq!(ui.search_query, "");
    assert!(ui.selected_panel == Panel::Search);
}

#[test]
fn follow_key_resumes_following() {
    let mut app = Engine::new();
    let mut ui = UIState::default();
    ui.selected_panel = Panel::Matches;
    ui.following = false;
    process_key_event(Key::Char('f'), &mut app, &mut ui);
    assert!(ui.following);
}

#[test]
fn log_scroll_saturates_at_the_top() {
    let mut app = Engine::new();
    let mut ui = UIState::default();
    ui.selected_panel = Panel::Matches;
    process_key_event(Key::Char('u'), &mut app, &mut ui);
    assert_eq!(ui.log_offset.y, 0);
    process_key_event(Key::Char('d'), &mut app, &mut ui);
    assert_eq!(ui.log_offset.y, 5);
    process_key_event(Key::Char('u'), &mut app, &mut ui);
    assert_eq!(ui.log_offset.y, 0);
}

#[test]
fn horizontal_scroll_moves_both_panes() {
    let mut app = Engine::new();
    let mut ui = UIState::default();
    ui.selected_panel = Panel::Matches;
    process_key_event(Key::Char('l'), &mut app, &mut ui);
    process_key_event(Key::Char('l'), &mut app, &mut ui);
    assert_eq!(ui.log_offset.x, 6);
    assert_eq!(ui.matches_offset.x, 6);
    process_key_event(Key::Char('h'), &mut app, &mut ui);
    assert_eq!(ui.log_offset.x, 3);
    assert_eq!(ui.matches_offset.x, 3);
}

#[test]
fn selection_scroll_clamps_to_the_match_list() {
    let mut app = Engine::new();
    let mut ui = UIState::default();
    for i in 0..3usize {
        let _ = app.push_line(format!("foo {}", i));
    }
    type_query(&mut app, &mut ui, "foo");
    settle(&mut app);
    assert_eq!(app.read_matches_snapshot().len(), 3);
    process_key_event(Key::Esc, &mut app, &mut ui);
    // first j selects the pane offset row, further j moves down, clamped
    process_key_event(Key::Char('j'), &mut app, &mut ui);
    assert_eq!(ui.matches_selected, Some(0));
    assert!(!ui.following);
    assert!(ui.matches_should_locate);
    for _ in 0..5 {
        process_key_event(Key::Char('j'), &mut app, &mut ui);
    }
    assert_eq!(ui.matches_selected, Some(2));
    process_key_event(Key::Char('k'), &mut app, &mut ui);
    assert_eq!(ui.matches_selected, Some(1));
    // k saturates at the first match
    for _ in 0..5 {
        process_key_event(Key::Char('k'), &mut app, &mut ui);
    }
    assert_eq!(ui.matches_selected, Some(0));
}

#[test]
fn selection_scroll_ignores_an_empty_match_list() {
    let mut app = Engine::new();
    let mut ui = UIState::default();
    ui.selected_panel = Panel::Matches;
    process_key_event(Key::Char('j'), &mut app, &mut ui);
    assert_eq!(ui.matches_selected, None);
    assert!(ui.following);
}

#[test]
fn saturating_scroll_arithmetic() {
    assert_eq!(sat_add_signed(0, -1), 0);
    assert_eq!(sat_add_signed(0, 1), 1);
    assert_eq!(sat_add_signed(7, -3), 4);
    assert_eq!(sat_add_signed(usize::MAX, 1), usize::MAX);
    assert_eq!(sat_add_signed(5, isize::MIN), 0);
}
