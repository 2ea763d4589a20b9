use oxidewm::events::{CommandEffect, WmActionEvent, WmEvent};
use oxidewm::protocol::{classify_protocol_error, KeyCode, MOD_MASK_SECONDARY};
use oxidewm::{
    Config, ErrorSeverity, EventCounter, KeyGrab, ProtocolErrorKind, ScreenSetup, WindowManager,
    WmCommands, WmRequest,
};

fn two_screen_manager() -> WindowManager {
    let setups = vec![
        ScreenSetup { root: 100, width: 800, height: 600 },
        ScreenSetup { root: 200, width: 1024, height: 768 },
    ];
    WindowManager::new(&setups, Config::default_config())
}

#[test]
fn the_screen_set_up_last_holds_the_focus() {
    let wm = two_screen_manager();
    assert_eq!(wm.focused_screen, 200);
    assert_eq!(wm.screeninfo.len(), 2);
    assert_eq!(wm.get_active_workspace_id(), 1);
}

#[test]
fn the_state_snapshot_shares_nothing_with_the_live_model() {
    let mut wm = two_screen_manager();
    let st = wm.get_state();
    wm.handle_map_request(200, 7, 1007);
    // The snapshot still shows the world before the map request.
    for scr in &st.screeninfo {
        for ws in &scr.workspaces {
            assert!(ws.windows.is_empty());
        }
    }
}

#[test]
fn a_map_request_for_an_unknown_root_is_dropped() {
    let mut wm = two_screen_manager();
    let reqs = wm.handle_map_request(999, 7, 1007);
    assert!(reqs.is_empty());
    for scr in &wm.screeninfo {
        for ws in &scr.workspaces {
            assert!(ws.windows.is_empty());
        }
    }
}

#[test]
fn a_map_request_lands_on_the_named_screen() {
    let mut wm = two_screen_manager();
    let reqs = wm.handle_map_request(100, 7, 1007);
    assert!(!reqs.is_empty());
    for scr in &wm.screeninfo {
        let windows: usize = scr.workspaces.iter().map(|w| w.windows.len()).sum();
        if scr.root == 100 {
            assert_eq!(windows, 1);
        } else {
            assert_eq!(windows, 0);
        }
    }
}

#[test]
fn a_window_move_arms_the_enter_notify_bridge() {
    let mut wm = two_screen_manager();
    wm.handle_map_request(200, 7, 1007);
    wm.handle_map_request(200, 8, 1008);
    wm.handle_event_enter_notify(7);
    let reqs = wm.handle_keypress_move(Some("right".to_string()));
    assert!(!reqs.is_empty());
    assert_eq!(wm.moved_window, Some(7));
    // The next enter notification reports the old geometry's window,
    // but the bridge redirects the focus to the moved window.
    wm.handle_event_enter_notify(8);
    assert_eq!(wm.moved_window, None);
    let (_, focused) = wm.get_focused_window();
    assert_eq!(focused, Some(7));
}

#[test]
fn an_unmap_notification_removes_the_window_from_the_active_workspace() {
    let mut wm = two_screen_manager();
    wm.handle_map_request(200, 7, 1007);
    wm.handle_event_enter_notify(7);
    wm.handle_event_unmap_notify(7);
    let (_, focused) = wm.get_focused_window();
    assert_eq!(focused, None);
    for scr in &wm.screeninfo {
        for ws in &scr.workspaces {
            assert!(ws.windows.is_empty());
        }
    }
}

#[test]
fn kill_targets_the_focused_window_or_nothing() {
    let mut wm = two_screen_manager();
    assert_eq!(wm.handle_keypress_kill(), None);
    wm.handle_map_request(200, 7, 1007);
    wm.handle_event_enter_notify(7);
    assert_eq!(wm.handle_keypress_kill(), Some(WmRequest::Kill { window: 7 }));
}

#[test]
fn a_bad_movement_argument_is_a_no_op() {
    let mut wm = two_screen_manager();
    wm.handle_map_request(200, 7, 1007);
    wm.handle_event_enter_notify(7);
    wm.handle_keypress_focus(None);
    wm.handle_keypress_focus(Some("diagonally".to_string()));
    let (_, focused) = wm.get_focused_window();
    assert_eq!(focused, Some(7));
}

#[test]
fn goto_workspace_switches_and_creates_on_demand() {
    let mut wm = two_screen_manager();
    let (target, reqs) = wm.handle_keypress_go_to_workspace(Some("4".to_string()));
    assert_eq!(target, Some(4));
    assert_eq!(wm.get_active_workspace_id(), 4);
    assert!(reqs.is_empty());
    let (back, _) = wm.handle_keypress_go_to_workspace(Some("next".to_string()));
    assert_eq!(back, Some(1));
    assert_eq!(wm.get_active_workspace_id(), 1);
}

#[test]
fn new_workspace_command_allocates_the_lowest_free_id() {
    let mut wm = two_screen_manager();
    let (id, _) = wm.handle_keypress_new_workspace();
    assert_eq!(id, 2);
    let (id2, _) = wm.handle_keypress_new_workspace();
    assert_eq!(id2, 3);
    assert_eq!(wm.get_active_workspace_id(), 3);
}

#[test]
fn grab_keys_covers_every_screen_and_both_modifier_states() {
    let wm = two_screen_manager();
    let bindings = vec![
        KeyCode { mask: 8, code: 24 },
        KeyCode { mask: 12, code: 53 },
    ];
    let grabs = wm.grab_keys(&bindings);
    assert_eq!(grabs.len(), 8);
    assert_eq!(grabs[0], KeyGrab { root: 100, mask: 8, code: 24 });
    assert_eq!(grabs[1], KeyGrab { root: 100, mask: 12, code: 53 });
    assert_eq!(
        grabs[2],
        KeyGrab { root: 100, mask: 8 | MOD_MASK_SECONDARY, code: 24 }
    );
    assert_eq!(grabs[4], KeyGrab { root: 200, mask: 8, code: 24 });
    assert_eq!(
        grabs[7],
        KeyGrab { root: 200, mask: 12 | MOD_MASK_SECONDARY, code: 53 }
    );
}

#[test]
fn restart_replaces_the_configuration_and_keeps_window_state() {
    let mut wm = two_screen_manager();
    wm.handle_map_request(200, 7, 1007);
    let mut cfg = Config::default_config();
    cfg.gap = 9;
    wm.restart(cfg);
    assert_eq!(wm.config.gap, 9);
    let windows: usize = wm
        .screeninfo
        .iter()
        .flat_map(|s| s.workspaces.iter())
        .map(|w| w.windows.len())
        .sum();
    assert_eq!(windows, 1);
}

#[test]
fn dispatch_routes_commands_and_reports_outside_work() {
    let mut wm = two_screen_manager();
    let (effect, reqs) = wm.dispatch_command(WmActionEvent::new(
        "exec",
        Some("kitty".to_string()),
    ));
    assert_eq!(effect, CommandEffect::Spawn("kitty".to_string()));
    assert!(reqs.is_empty());
    let (effect, _) = wm.dispatch_command(WmActionEvent::new("restart", None));
    assert_eq!(effect, CommandEffect::Restart);
    let (effect, _) = wm.dispatch_command(WmActionEvent::new("quit", None));
    assert_eq!(effect, CommandEffect::Quit);
    let (effect, _) = wm.dispatch_command(WmActionEvent {
        command: WmCommands::NewWorkspace,
        args: None,
    });
    assert_eq!(effect, CommandEffect::Handled);
    assert_eq!(wm.get_active_workspace_id(), 2);
}

#[test]
fn dispatch_ignores_unrecognised_events() {
    let mut wm = two_screen_manager();
    let before = wm.get_state();
    let reqs = wm.dispatch_event(WmEvent::Ignored);
    assert!(reqs.is_empty());
    let after = wm.get_state();
    assert_eq!(before.focused_screen, after.focused_screen);
    assert_eq!(before.screeninfo.len(), after.screeninfo.len());
}

#[test]
fn a_configure_notification_reaches_only_the_screen_owning_the_bar() {
    let mut wm = two_screen_manager();
    wm.screeninfo[1].add_status_bar(9);
    wm.dispatch_event(WmEvent::ConfigureNotify { window: 9, y: 748, width: 1024, height: 20 });
    assert_eq!(wm.screeninfo[1].ws_height, 748);
    assert_eq!(wm.screeninfo[1].ws_pos_y, 0);
    assert_eq!(wm.screeninfo[0].ws_height, 600);
}

#[test]
fn access_denied_is_the_one_fatal_protocol_error() {
    assert_eq!(
        classify_protocol_error(ProtocolErrorKind::Access),
        ErrorSeverity::Fatal
    );
    assert!(classify_protocol_error(ProtocolErrorKind::Access).is_fatal());
    for kind in [
        ProtocolErrorKind::Window,
        ProtocolErrorKind::Drawable,
        ProtocolErrorKind::Match,
        ProtocolErrorKind::Value,
        ProtocolErrorKind::Other,
    ] {
        assert_eq!(classify_protocol_error(kind), ErrorSeverity::Recoverable);
    }
}

#[test]
fn the_event_counter_counts() {
    let mut c = EventCounter::new();
    assert_eq!(c.get_event_count(), 0);
    c.incr_event_count();
    c.incr_event_count();
    assert_eq!(c.get_event_count(), 2);
}
