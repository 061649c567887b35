use vstd::prelude::*;

use crate::engine::{submit_effect, Engine};
use crate::types::{Panel, Point, UIState};

verus! {

/// One keystroke, as the control logic sees it.
#[derive(Clone, Copy, PartialEq, Eq, Structural, Debug)]
pub enum Key {
    Tab,
    Char(char),
    Backspace,
    Esc,
    Other,
}

/// Relies on std's `String::push`: appends one character at the end.
#[verifier::external_body]
fn query_push(s: &mut String, c: char)
    ensures
        final(s)@ == old(s)@.push(c),
{
    s.push(c);
}

/// Relies on std's `String::pop`: removes and returns the last character, or
/// returns `None` and leaves the string as it was when it is empty.
#[verifier::external_body]
fn query_pop(s: &mut String) -> (r: Option<char>)
    ensures
        old(s)@.len() == 0 ==> r is None && final(s)@ == old(s)@,
        old(s)@.len() > 0 ==> r == Some(old(s)@.last()) && final(s)@ == old(s)@.drop_last(),
{
    s.pop()
}

/// `a + v`, clamped into `[0, usize::MAX]`.
pub open spec fn sat_add_signed_spec(a: usize, v: isize) -> int {
    if a + v < 0 {
        0
    } else if a + v > usize::MAX {
        usize::MAX as int
    } else {
        a + v
    }
}

/// Saturating addition of a signed scroll step to an unsigned position.
pub fn sat_add_signed(a: usize, v: isize) -> (r: usize)
    ensures
        r as int == sat_add_signed_spec(a, v),
{
    if v >= 0 {
        let d = v as usize;
        if a <= usize::MAX - d {
            a + d
        } else {
            usize::MAX
        }
    } else if v == isize::MIN {
        let d = (isize::MAX as usize) + 1;
        if a >= d {
            a - d
        } else {
            0
        }
    } else {
        let d = (-v) as usize;
        if a >= d {
            a - d
        } else {
            0
        }
    }
}

/// What one j/k step does to the view state: with no matches nothing moves;
/// otherwise following mode ends, the view is asked to locate the selection,
/// and the selection moves by `value`, clamped to the list, starting from the
/// pane offset when nothing was selected.
pub open spec fn matches_scroll_spec(
    app: Engine,
    pre_ui: UIState,
    post_ui: UIState,
    value: isize,
) -> bool {
    if app.matches_view().len() == 0 {
        post_ui == pre_ui
    } else {
        let n = app.matches_view().len();
        &&& !post_ui.following
        &&& post_ui.matches_should_locate
        &&& post_ui.matches_selected == (match pre_ui.matches_selected {
            Some(sel) => {
                let moved = sat_add_signed_spec(sel, value);
                Some((if moved >= n { (n - 1) as usize } else { moved as usize }))
            },
            None => Some(pre_ui.matches_offset.y),
        })
        &&& post_ui.log_offset == pre_ui.log_offset
        &&& post_ui.log_max_width == pre_ui.log_max_width
        &&& post_ui.selected_panel == pre_ui.selected_panel
        &&& post_ui.matches_offset == pre_ui.matches_offset
        &&& post_ui.search_query == pre_ui.search_query
    }
}

/// Moves the match-list selection by `value`.
pub fn add_matches_scroll(app: &Engine, ui: &mut UIState, value: isize)
    ensures
        matches_scroll_spec(*app, *old(ui), *final(ui), value),
{
    let n = app.match_count();
    if n == 0 {
        return ;
    }
    ui.following = false;
    ui.matches_should_locate = true;
    match ui.matches_selected {
        Some(sel) => {
            let moved = sat_add_signed(sel, value);
            ui.matches_selected = Some(
                if moved >= n {
                    n - 1
                } else {
                    moved
                },
            );
        },
        None => {
            ui.matches_selected = Some(ui.matches_offset.y);
        },
    }
}

/// The view state after a vertical log scroll by `value`.
pub open spec fn log_scrolled(ui: UIState, value: isize) -> UIState {
    UIState {
        log_offset: Point {
            x: ui.log_offset.x,
            y: sat_add_signed_spec(ui.log_offset.y, value) as usize,
        },
        ..ui
    }
}

/// Scrolls the log view vertically by `value`, saturating at the ends.
pub fn add_log_scroll(ui: &mut UIState, value: isize)
    ensures
        *final(ui) == log_scrolled(*old(ui), value),
{
    let y = sat_add_signed(ui.log_offset.y, value);
    ui.log_offset = Point { x: ui.log_offset.x, y };
}

/// The view state after a horizontal scroll by `value`: both panes move to
/// the same column.
pub open spec fn h_scrolled(ui: UIState, value: isize) -> UIState {
    let x = sat_add_signed_spec(ui.log_offset.x, value) as usize;
    UIState {
        log_offset: Point { x, y: ui.log_offset.y },
        matches_offset: Point { x, y: ui.matches_offset.y },
        ..ui
    }
}

/// Scrolls both panes horizontally by `value`, saturating at the ends.
pub fn add_horizontal_scroll(ui: &mut UIState, value: isize)
    ensures
        *final(ui) == h_scrolled(*old(ui), value),
{
    let x = sat_add_signed(ui.log_offset.x, value);
    ui.log_offset = Point { x, y: ui.log_offset.y };
    ui.matches_offset = Point { x, y: ui.matches_offset.y };
}

/// One query edit as the controller performs it: the selection and the match
/// pane's scroll are reset in the same step that resubmits the query.
fn recompile(app: &mut Engine, ui: &mut UIState)
    requires
        old(app).wf(),
        old(app).version() < u64::MAX,
    ensures
        final(app).wf(),
        submit_effect(*old(app), *final(app), old(ui).search_query@),
        final(ui).search_query == old(ui).search_query,
        final(ui).matches_selected is None,
        final(ui).matches_offset.y == 0,
        final(ui).matches_offset.x == old(ui).matches_offset.x,
        final(ui).log_offset == old(ui).log_offset,
        final(ui).log_max_width == old(ui).log_max_width,
        final(ui).selected_panel == old(ui).selected_panel,
        final(ui).matches_should_locate == old(ui).matches_should_locate,
        final(ui).following == old(ui).following,
{
    ui.matches_selected = None;
    ui.matches_offset = Point { x: ui.matches_offset.x, y: 0 };
    let _ = app.submit_query(ui.search_query.as_str());
}

/// The panel focus after the common Tab handling.
pub open spec fn panel_after_tab(key: Key, p: Panel) -> Panel {
    if key is Tab {
        match p {
            Panel::Search => Panel::Matches,
            Panel::Matches => Panel::Search,
        }
    } else {
        p
    }
}

/// `ui` with only the panel focus changed.
pub open spec fn ui_with_panel(ui: UIState, p: Panel) -> UIState {
    UIState { selected_panel: p, ..ui }
}

/// What one query edit does to both the engine and the view state: the query
/// becomes `new_text`, the selection and the match pane's scroll are reset,
/// and the engine performs the edit under `new_text`.
pub open spec fn edit_spec(
    pre_app: Engine,
    post_app: Engine,
    pre_ui: UIState,
    post_ui: UIState,
    focus: Panel,
    new_text: Seq<char>,
) -> bool {
    &&& post_ui.search_query@ == new_text
    &&& post_ui.selected_panel == focus
    &&& post_ui.matches_selected is None
    &&& post_ui.matches_offset.y == 0
    &&& post_ui.matches_offset.x == pre_ui.matches_offset.x
    &&& post_ui.log_offset == pre_ui.log_offset
    &&& post_ui.log_max_width == pre_ui.log_max_width
    &&& post_ui.matches_should_locate == pre_ui.matches_should_locate
    &&& post_ui.following == pre_ui.following
    &&& submit_effect(pre_app, post_app, new_text)
}

/// What one keystroke does. Tab first toggles the panel focus; the rest of
/// the effect depends on the pane that then has focus. In the search pane a
/// character extends the query and Backspace shortens it, either way
/// resubmitting it; Esc moves focus to the matches pane. In the matches pane
/// j/k move the selection, d/u scroll the log, l/h scroll horizontally, q
/// requests shutdown, c clears the query and returns to the search pane, i
/// returns to the search pane, and f resumes following mode.
pub open spec fn key_event_spec(
    key: Key,
    pre_app: Engine,
    post_app: Engine,
    pre_ui: UIState,
    post_ui: UIState,
) -> bool {
    let focus = panel_after_tab(key, pre_ui.selected_panel);
    match focus {
        Panel::Search => match key {
            Key::Char(c) => edit_spec(
                pre_app,
                post_app,
                pre_ui,
                post_ui,
                focus,
                pre_ui.search_query@.push(c),
            ),
            Key::Backspace => edit_spec(
                pre_app,
                post_app,
                pre_ui,
                post_ui,
                focus,
                if pre_ui.search_query@.len() == 0 {
                    pre_ui.search_query@
                } else {
                    pre_ui.search_query@.drop_last()
                },
            ),
            Key::Esc => post_app == pre_app && post_ui == ui_with_panel(pre_ui, Panel::Matches),
            _ => post_app == pre_app && post_ui == ui_with_panel(pre_ui, focus),
        },
        Panel::Matches => match key {
            Key::Char(c) => {
                if c == 'j' {
                    post_app == pre_app && matches_scroll_spec(pre_app, pre_ui, post_ui, 1)
                } else if c == 'k' {
                    post_app == pre_app && matches_scroll_spec(pre_app, pre_ui, post_ui, (-1) as isize)
                } else if c == 'd' {
                    post_app == pre_app && post_ui == log_scrolled(pre_ui, 5)
                } else if c == 'u' {
                    post_app == pre_app && post_ui == log_scrolled(pre_ui, (-5) as isize)
                } else if c == 'l' {
                    post_app == pre_app && post_ui == h_scrolled(pre_ui, 3)
                } else if c == 'h' {
                    post_app == pre_app && post_ui == h_scrolled(pre_ui, (-3) as isize)
                } else if c == 'q' {
                    &&& post_ui == pre_ui
                    &&& post_app.quitting()
                    &&& post_app.lines() == pre_app.lines()
                    &&& post_app.pattern_model() == pre_app.pattern_model()
                    &&& post_app.version() == pre_app.version()
                    &&& post_app.jobs_view() == pre_app.jobs_view()
                    &&& post_app.matches_view() == pre_app.matches_view()
                    &&& post_app.sorter_ver() == pre_app.sorter_ver()
                } else if c == 'c' {
                    &&& post_app == pre_app
                    &&& post_ui.search_query@ == Seq::<char>::empty()
                    &&& post_ui.selected_panel is Search
                    &&& post_ui.log_offset == pre_ui.log_offset
                    &&& post_ui.log_max_width == pre_ui.log_max_width
                    &&& post_ui.matches_selected == pre_ui.matches_selected
                    &&& post_ui.matches_should_locate == pre_ui.matches_should_locate
                    &&& post_ui.matches_offset == pre_ui.matches_offset
                    &&& post_ui.following == pre_ui.following
                } else if c == 'i' {
                    post_app == pre_app && post_ui == ui_with_panel(pre_ui, Panel::Search)
                } else if c == 'f' {
                    post_app == pre_app && post_ui == (UIState { following: true, ..pre_ui })
                } else {
                    post_app == pre_app && post_ui == ui_with_panel(pre_ui, focus)
                }
            },
            _ => post_app == pre_app && post_ui == ui_with_panel(pre_ui, focus),
        },
    }
}

/// Handles one keystroke, as the interface thread's controller does.
pub fn process_key_event(key: Key, app: &mut Engine, ui: &mut UIState)
    requires
        old(app).wf(),
        old(app).version() < u64::MAX,
    ensures
        final(app).wf(),
        key_event_spec(key, *old(app), *final(app), *old(ui), *final(ui)),
{
    match key {
        Key::Tab => {
            match ui.selected_panel {
                Panel::Search => {
                    ui.selected_panel = Panel::Matches;
                },
                Panel::Matches => {
                    ui.selected_panel = Panel::Search;
                },
            }
        },
        _ => {},
    }
    match ui.selected_panel {
        Panel::Search => {
            match key {
                Key::Char(c) => {
                    query_push(&mut ui.search_query, c);
                    recompile(app, ui);
                },
                Key::Backspace => {
                    let _ = query_pop(&mut ui.search_query);
                    recompile(app, ui);
                },
                Key::Esc => {
                    ui.selected_panel = Panel::Matches;
                },
                _ => {},
            }
        },
        Panel::Matches => {
            match key {
                Key::Char(c) => {
                    if c == 'j' {
                        add_matches_scroll(app, ui, 1);
                    } else if c == 'k' {
                        add_matches_scroll(app, ui, -1);
                    } else if c == 'd' {
                        add_log_scroll(ui, 5);
                    } else if c == 'u' {
                        add_log_scroll(ui, -5);
                    } else if c == 'l' {
                        add_horizontal_scroll(ui, 3);
                    } else if c == 'h' {
                        add_horizontal_scroll(ui, -3);
                    } else if c == 'q' {
                        app.request_quit();
                    } else if c == 'c' {
                        ui.search_query = String::new();
                        ui.selected_panel = Panel::Search;
                    } else if c == 'i' {
                        ui.selected_panel = Panel::Search;
                    } else if c == 'f' {
                        ui.following = true;
                    }
                },
                _ => {},
            }
        },
    }
}

} // verus!
