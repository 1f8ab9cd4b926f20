use agent_kernel::tui::app::App;
use agent_kernel::tui::input::{handle_key, KeyCode, KeyEvent};
use agent_kernel::tui::types::{parse_slash_command, InputAction, SlashCommand};

#[test]
fn parse_clear() {
    assert_eq!(parse_slash_command("/clear"), Some(SlashCommand::Clear));
}

#[test]
fn parse_compact() {
    assert_eq!(parse_slash_command("/compact"), Some(SlashCommand::Compact));
}

#[test]
fn parse_status() {
    assert_eq!(parse_slash_command("/status"), Some(SlashCommand::Status));
}

#[test]
fn parse_quit_and_exit() {
    assert_eq!(parse_slash_command("/quit"), Some(SlashCommand::Quit));
    assert_eq!(parse_slash_command("/exit"), Some(SlashCommand::Quit));
}

#[test]
fn parse_unknown_command() {
    assert_eq!(
        parse_slash_command("/foo"),
        Some(SlashCommand::Unknown("/foo".to_string()))
    );
}

#[test]
fn parse_normal_message_is_not_a_command() {
    assert_eq!(parse_slash_command("hello world"), None);
    assert_eq!(parse_slash_command("not a /command"), None);
}

#[test]
fn parse_trims_whitespace() {
    assert_eq!(parse_slash_command("  /clear  "), Some(SlashCommand::Clear));
}

#[test]
fn permission_mode_y_and_n_unchanged() {
    let mut app = App::new();
    app.awaiting_permission = true;
    let action = handle_key(&mut app, KeyEvent::plain(KeyCode::Char('y')));
    assert!(matches!(action, InputAction::PermissionDecision(true)));
}

#[test]
fn permission_mode_a_returns_always_allow() {
    let mut app = App::new();
    app.awaiting_permission = true;
    let action = handle_key(&mut app, KeyEvent::plain(KeyCode::Char('a')));
    assert!(matches!(action, InputAction::PermissionAlwaysAllow));
}

#[test]
fn non_permission_mode_a_is_plain_input() {
    let mut app = App::new();
    let action = handle_key(&mut app, KeyEvent::plain(KeyCode::Char('a')));
    assert!(matches!(action, InputAction::Nothing));
    assert_eq!(app.input(), "a");
}
