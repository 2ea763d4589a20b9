use oxidewm::ScreenInfo;

fn snapshot(s: &ScreenInfo) -> (u16, Vec<(u16, bool, bool, Vec<(u32, bool, i32, i32, u32, u32)>)>) {
    let mut workspaces = Vec::new();
    for ws in &s.workspaces {
        let mut windows = Vec::new();
        for w in &ws.windows {
            windows.push((w.window, w.visible, w.x, w.y, w.width, w.height));
        }
        workspaces.push((ws.name, ws.visible, ws.focused, windows));
    }
    (s.active_workspace, workspaces)
}

#[test]
fn a_fresh_screen_starts_on_workspace_one() {
    let s = ScreenInfo::new(42, 1024, 768);
    assert_eq!(s.active_workspace, 1);
    assert_eq!(s.get_workspace_count(), 1);
    assert!(s.has_workspace(1));
    assert!(!s.has_workspace(2));
}

#[test]
fn switching_to_the_same_workspace_twice_changes_nothing_the_second_time() {
    let mut s = ScreenInfo::new(42, 1024, 768);
    s.on_map_request(7, 1007);
    s.on_map_request(8, 1008);
    s.set_workspace_create_if_not_exists(5);
    let after_first = snapshot(&s);
    s.set_workspace_create_if_not_exists(5);
    let after_second = snapshot(&s);
    assert_eq!(after_first, after_second);
    assert_eq!(s.active_workspace, 5);
}

#[test]
fn switching_to_the_active_workspace_is_idempotent_with_windows() {
    let mut s = ScreenInfo::new(42, 1024, 768);
    s.on_map_request(7, 1007);
    s.on_map_request(8, 1008);
    s.set_workspace_create_if_not_exists(1);
    let after_first = snapshot(&s);
    s.set_workspace_create_if_not_exists(1);
    assert_eq!(snapshot(&s), after_first);
}

#[test]
fn switching_hides_the_old_workspace_and_shows_the_new_one() {
    let mut s = ScreenInfo::new(42, 1024, 768);
    s.on_map_request(7, 1007);
    s.set_workspace_create_if_not_exists(2);
    assert_eq!(s.active_workspace, 2);
    for ws in &s.workspaces {
        if ws.name == 1 {
            assert!(!ws.visible);
            assert!(!ws.focused);
            assert!(!ws.windows[0].visible);
        }
        if ws.name == 2 {
            assert!(ws.visible);
            assert!(ws.focused);
        }
    }
}

#[test]
fn new_workspace_allocation_is_monotonic_lowest_free() {
    let mut s = ScreenInfo::new(42, 1024, 768);
    s.create_workspace(2);
    s.create_workspace(3);
    let (first, _) = s.create_new_workspace();
    assert_eq!(first, 4);
    let (second, _) = s.create_new_workspace();
    assert_eq!(second, 5);
    assert_eq!(s.active_workspace, 5);
}

#[test]
fn new_workspace_allocation_fills_gaps_first() {
    let mut s = ScreenInfo::new(42, 1024, 768);
    s.create_workspace(3);
    let (id, _) = s.create_new_workspace();
    assert_eq!(id, 2);
}

#[test]
fn create_workspace_never_overwrites_an_existing_one() {
    let mut s = ScreenInfo::new(42, 1024, 768);
    s.on_map_request(7, 1007);
    s.create_workspace(1);
    assert_eq!(s.get_workspace_count(), 1);
    for ws in &s.workspaces {
        assert_eq!(ws.windows.len(), 1);
    }
}

#[test]
fn a_map_request_affects_only_the_active_workspace() {
    let mut s = ScreenInfo::new(42, 1024, 768);
    s.set_workspace_create_if_not_exists(2);
    s.on_map_request(77, 1077);
    for ws in &s.workspaces {
        if ws.name == 2 {
            assert_eq!(ws.windows.len(), 1);
            assert_eq!(ws.windows[0].window, 77);
        } else {
            assert!(ws.windows.is_empty());
        }
    }
}

#[test]
fn a_bottom_anchored_bar_leaves_workspaces_the_top_of_the_screen() {
    let mut s = ScreenInfo::new(42, 1000, 800);
    s.add_status_bar(9);
    // The bar settles at y == screen height - bar height: bottom.
    s.configure_status_bar(9, 780, 1000, 20);
    assert_eq!(s.ws_pos_y, 0);
    assert_eq!(s.ws_height, 780);
    for ws in &s.workspaces {
        assert_eq!(ws.y, 0);
        assert_eq!(ws.height, 780);
    }
}

#[test]
fn a_top_anchored_bar_pushes_workspaces_below_it() {
    let mut s = ScreenInfo::new(42, 1000, 800);
    s.add_status_bar(9);
    s.configure_status_bar(9, 0, 1000, 20);
    assert_eq!(s.ws_pos_y, 20);
    assert_eq!(s.ws_height, 780);
}

#[test]
fn a_configure_notification_for_a_foreign_window_changes_nothing() {
    let mut s = ScreenInfo::new(42, 1000, 800);
    s.add_status_bar(9);
    let before = snapshot(&s);
    let reqs = s.configure_status_bar(1234, 0, 1000, 20);
    assert!(reqs.is_empty());
    assert_eq!(snapshot(&s), before);
    assert_eq!(s.ws_height, 800);
}

#[test]
fn neighbour_workspace_ids_wrap_around() {
    let mut s = ScreenInfo::new(42, 1024, 768);
    s.create_workspace(3);
    s.create_workspace(7);
    // active is 1; existing ids are {1, 3, 7}
    assert_eq!(s.next_workspace_id(), 3);
    assert_eq!(s.prev_workspace_id(), 7);
    s.set_workspace_create_if_not_exists(7);
    assert_eq!(s.next_workspace_id(), 1);
    assert_eq!(s.prev_workspace_id(), 3);
}
