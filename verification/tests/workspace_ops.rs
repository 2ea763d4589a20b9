use oxidewm::{Movement, Workspace, WmRequest};

fn abc_workspace() -> Workspace {
    let mut ws = Workspace::new(1, 0, 0, 900, 600);
    ws.new_window(1, 1001);
    ws.new_window(2, 1002);
    ws.new_window(3, 1003);
    ws.remap_windows();
    ws
}

fn order(ws: &Workspace) -> Vec<u32> {
    ws.windows.iter().map(|w| w.window).collect()
}

#[test]
fn removing_an_absent_window_is_a_no_op() {
    let mut ws = abc_workspace();
    ws.focus_window(2);
    let before_order = order(&ws);
    let before_focus = ws.focused_window;
    let reqs = ws.remove_window(99);
    assert!(reqs.is_empty());
    assert_eq!(order(&ws), before_order);
    assert_eq!(ws.focused_window, before_focus);
}

#[test]
fn removing_the_focused_window_clears_the_focus() {
    let mut ws = abc_workspace();
    ws.focus_window(2);
    ws.remove_window(2);
    assert_eq!(ws.focused_window, None);
    assert_eq!(order(&ws), vec![1, 3]);
}

#[test]
fn removing_an_unfocused_window_keeps_the_focus() {
    let mut ws = abc_workspace();
    ws.focus_window(2);
    ws.remove_window(3);
    assert_eq!(ws.focused_window, Some(2));
    assert_eq!(order(&ws), vec![1, 2]);
}

#[test]
fn moving_the_first_window_right_swaps_it_with_its_neighbour() {
    let mut ws = abc_workspace();
    ws.focus_window(1);
    let (moved, reqs) = ws.move_window(Movement::Right);
    assert_eq!(order(&ws), vec![2, 1, 3]);
    assert_eq!(moved, Some(1));
    // Exactly one remap cycle: one configure and one map per window.
    assert_eq!(reqs.len(), 6);
    let configures = reqs
        .iter()
        .filter(|r| matches!(r, WmRequest::Configure { .. }))
        .count();
    assert_eq!(configures, 3);
}

#[test]
fn moving_the_last_window_right_changes_nothing() {
    let mut ws = abc_workspace();
    ws.focus_window(3);
    let (moved, reqs) = ws.move_window(Movement::Right);
    assert_eq!(order(&ws), vec![1, 2, 3]);
    assert_eq!(moved, None);
    assert!(reqs.is_empty());
}

#[test]
fn moving_a_window_left_swaps_towards_the_front() {
    let mut ws = abc_workspace();
    ws.focus_window(3);
    let (moved, _) = ws.move_window(Movement::Left);
    assert_eq!(order(&ws), vec![1, 3, 2]);
    assert_eq!(moved, Some(3));
}

#[test]
fn focus_moves_to_the_right_neighbour_and_stops_at_the_edge() {
    let mut ws = abc_workspace();
    ws.focus_window(1);
    ws.move_focus(Movement::Right);
    assert_eq!(ws.focused_window, Some(2));
    ws.move_focus(Movement::Right);
    assert_eq!(ws.focused_window, Some(3));
    ws.move_focus(Movement::Right);
    assert_eq!(ws.focused_window, Some(3));
    ws.move_focus(Movement::Left);
    assert_eq!(ws.focused_window, Some(2));
}

#[test]
fn focusing_a_stale_window_id_changes_nothing() {
    let mut ws = abc_workspace();
    ws.focus_window(2);
    ws.focus_window(42);
    assert_eq!(ws.focused_window, Some(2));
}

#[test]
fn a_window_id_joins_the_ordering_at_most_once() {
    let mut ws = Workspace::new(1, 0, 0, 800, 600);
    ws.new_window(5, 1005);
    ws.new_window(5, 1005);
    assert_eq!(order(&ws), vec![5]);
}

#[test]
fn kill_issues_a_close_request_without_touching_the_model() {
    let ws = abc_workspace();
    let req = ws.kill_window(2);
    assert_eq!(req, WmRequest::Kill { window: 2 });
    assert_eq!(order(&ws), vec![1, 2, 3]);
}

#[test]
fn update_size_retiles_a_visible_workspace() {
    let mut ws = abc_workspace();
    let reqs = ws.update_size(0, 100, 300, 300);
    assert_eq!(ws.windows[0].width, 100);
    assert_eq!(ws.windows[0].y, 100);
    assert_eq!(reqs.len(), 6);
}
