use oxidewm::commands::{parse_u16, GoToWorkspace, Movement, WmCommands};
use oxidewm::config::normalize_arg;
use oxidewm::state::command_token;
use oxidewm::Layout;

#[test]
fn movement_parse_accepts_all_directions_case_insensitively() {
    assert_eq!(Movement::parse("left"), Some(Movement::Left));
    assert_eq!(Movement::parse("Left"), Some(Movement::Left));
    assert_eq!(Movement::parse("RIGHT"), Some(Movement::Right));
    assert_eq!(Movement::parse("uP"), Some(Movement::Up));
    assert_eq!(Movement::parse("down"), Some(Movement::Down));
}

#[test]
fn movement_parse_rejects_everything_else() {
    assert_eq!(Movement::parse(""), None);
    assert_eq!(Movement::parse("sideways"), None);
    assert_eq!(Movement::parse("lefts"), None);
    assert_eq!(Movement::parse("le ft"), None);
}

#[test]
fn command_parse_accepts_the_vocabulary() {
    assert_eq!(WmCommands::parse("focus"), Some(WmCommands::Focus));
    assert_eq!(WmCommands::parse("Move"), Some(WmCommands::Move));
    assert_eq!(WmCommands::parse("KILL"), Some(WmCommands::Kill));
    assert_eq!(WmCommands::parse("layout"), Some(WmCommands::Layout));
    assert_eq!(WmCommands::parse("nextlayout"), Some(WmCommands::NextLayout));
    assert_eq!(
        WmCommands::parse("gotoworkspace"),
        Some(WmCommands::GoToWorkspace)
    );
    assert_eq!(
        WmCommands::parse("newworkspace"),
        Some(WmCommands::NewWorkspace)
    );
    assert_eq!(WmCommands::parse("exec"), Some(WmCommands::Exec));
    assert_eq!(WmCommands::parse("execalways"), Some(WmCommands::ExecAlways));
    assert_eq!(WmCommands::parse("restart"), Some(WmCommands::Restart));
    assert_eq!(WmCommands::parse("quit"), Some(WmCommands::Quit));
    assert_eq!(WmCommands::parse("dance"), None);
}

#[test]
fn command_token_parses_back_to_the_same_command() {
    let all = [
        WmCommands::Focus,
        WmCommands::Move,
        WmCommands::Kill,
        WmCommands::Layout,
        WmCommands::NextLayout,
        WmCommands::GoToWorkspace,
        WmCommands::NewWorkspace,
        WmCommands::Exec,
        WmCommands::ExecAlways,
        WmCommands::Restart,
        WmCommands::Quit,
    ];
    for c in all {
        let token = command_token(c);
        assert_eq!(WmCommands::parse(token.as_str()), Some(c));
    }
}

#[test]
fn workspace_number_parse_accepts_16_bit_values() {
    assert_eq!(parse_u16("0"), Some(0));
    assert_eq!(parse_u16("7"), Some(7));
    assert_eq!(parse_u16("007"), Some(7));
    assert_eq!(parse_u16("65535"), Some(65535));
}

#[test]
fn workspace_number_parse_rejects_overflow_and_junk() {
    assert_eq!(parse_u16(""), None);
    assert_eq!(parse_u16("65536"), None);
    assert_eq!(parse_u16("99999"), None);
    assert_eq!(parse_u16("12a"), None);
    assert_eq!(parse_u16("-3"), None);
}

#[test]
fn goto_parse_handles_tokens_and_numbers() {
    assert_eq!(
        GoToWorkspace::parse(&Some("next".to_string())),
        Some(GoToWorkspace::Next)
    );
    assert_eq!(
        GoToWorkspace::parse(&Some("Previous".to_string())),
        Some(GoToWorkspace::Previous)
    );
    assert_eq!(
        GoToWorkspace::parse(&Some("12".to_string())),
        Some(GoToWorkspace::Index(12))
    );
    assert_eq!(GoToWorkspace::parse(&Some("elsewhere".to_string())), None);
    assert_eq!(GoToWorkspace::parse(&None), None);
}

#[test]
fn layout_parse_accepts_only_tiling() {
    assert_eq!(Layout::parse("tiling"), Some(Layout::Tiling));
    assert_eq!(Layout::parse("TILING"), Some(Layout::Tiling));
    assert_eq!(Layout::parse("floating"), None);
}

#[test]
fn normalize_arg_drops_empty_and_none_strings() {
    assert_eq!(normalize_arg(None), None);
    assert_eq!(normalize_arg(Some("".to_string())), None);
    assert_eq!(normalize_arg(Some("None".to_string())), None);
    assert_eq!(
        normalize_arg(Some("kitty".to_string())),
        Some("kitty".to_string())
    );
}
