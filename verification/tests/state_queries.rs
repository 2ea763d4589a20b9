use oxidewm::{Config, Keybinding, ScreenSetup, WindowManager, WmCommand, WmCommands};

fn manager() -> WindowManager {
    let setups = vec![ScreenSetup { root: 100, width: 800, height: 600 }];
    WindowManager::new(&setups, Config::default_config())
}

#[test]
fn the_workspace_list_comes_back_sorted() {
    let mut wm = manager();
    wm.screeninfo[0].create_workspace(9);
    wm.screeninfo[0].create_workspace(4);
    wm.screeninfo[0].create_workspace(6);
    let st = wm.get_state();
    assert_eq!(st.get_workspace_list(100), Some(vec![1, 4, 6, 9]));
    assert_eq!(st.get_workspace_list(999), None);
}

#[test]
fn the_active_workspace_query_follows_switches() {
    let mut wm = manager();
    wm.handle_keypress_go_to_workspace(Some("3".to_string()));
    let st = wm.get_state();
    assert_eq!(st.get_active_workspace(100), Some(3));
    assert_eq!(st.get_active_workspace(7), None);
}

#[test]
fn workspace_tuples_pair_focus_with_id() {
    let mut wm = manager();
    wm.handle_keypress_go_to_workspace(Some("2".to_string()));
    let st = wm.get_state();
    let tuples = st.workspace_tuple(100).unwrap();
    assert_eq!(tuples.len(), 2);
    assert!(tuples.contains(&(false, 1)));
    assert!(tuples.contains(&(true, 2)));
}

#[test]
fn get_workspaces_returns_a_copy_of_the_screen() {
    let mut wm = manager();
    wm.handle_map_request(100, 7, 1007);
    let st = wm.get_state();
    let workspaces = st.get_workspaces(100).unwrap();
    assert_eq!(workspaces.len(), 1);
    assert_eq!(workspaces[0].windows.len(), 1);
    assert_eq!(workspaces[0].windows[0].window, 7);
    assert!(st.get_workspaces(5).is_none());
}

#[test]
fn a_keybinding_description_prints_the_command_token() {
    let cmd = WmCommand {
        keys: vec!["A".to_string(), "t".to_string()],
        command: WmCommands::GoToWorkspace,
        args: Some("2".to_string()),
    };
    let kb = Keybinding::from_wm_command(&cmd);
    assert_eq!(kb.keys, vec!["A".to_string(), "t".to_string()]);
    assert_eq!(kb.command, "gotoworkspace".to_string());
    assert_eq!(kb.args, Some("2".to_string()));
}
