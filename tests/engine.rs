use espanso_core::engine::{Action, ActionType, Engine, MenuItem, MenuItemType};
use espanso_core::model::{Backend, Config, Match, MatchContent, RenderResult, Variable};
use espanso_core::render::Renderer;
use espanso_core::Platform;

fn config(backend: Backend) -> Config {
    Config {
        backend,
        enable_active: true,
        enable_passive: true,
        preserve_clipboard: false,
        paste_shortcut: "CTRL+V".to_owned(),
        action_noop_interval: 300,
        restore_clipboard_delay: 50,
    }
}

fn text_match(trigger: &str, template: &str, word: bool) -> Match {
    Match {
        trigger: trigger.to_owned(),
        content: MatchContent::Text { template: template.to_owned(), vars: Vec::<Variable>::new() },
        word,
    }
}

fn expand(engine: &Engine, m: &Match, sep: Option<char>, active: &Config) -> Vec<Action> {
    let rendered = Renderer::render_match(m, &vec![]);
    engine.match_actions(m, sep, &rendered, active)
}

/// Carries out the clipboard actions on a text clipboard.
fn run_clipboard(actions: &[Action], clipboard: &mut Option<String>) {
    let mut saved: Option<String> = None;
    for a in actions {
        match a {
            Action::SaveClipboard => saved = clipboard.clone(),
            Action::SetClipboard(s) => *clipboard = Some(s.clone()),
            Action::SetClipboardImage(_) => *clipboard = None,
            Action::RestoreClipboard(_) => {
                if let Some(s) = &saved {
                    *clipboard = Some(s.clone());
                }
            }
            _ => {}
        }
    }
}

#[test]
fn plain_text_expansion() {
    let active = config(Backend::Inject);
    let mut engine = Engine::new(&active, Platform::Linux, 0);
    let m = text_match(":hello", "Hello, world", false);
    assert!(engine.on_match(&active, 1000));
    assert_eq!(
        expand(&engine, &m, None, &active),
        vec![Action::DeleteChars(6), Action::SendString("Hello, world".to_owned())]
    );
}

#[test]
fn word_trigger_types_separator_back() {
    let active = config(Backend::Inject);
    let engine = Engine::new(&active, Platform::Linux, 0);
    let m = text_match(":br", "Best regards", true);
    assert_eq!(
        expand(&engine, &m, Some(' '), &active),
        vec![Action::DeleteChars(4), Action::SendString("Best regards ".to_owned())]
    );
    assert_eq!(
        expand(&engine, &m, Some('\r'), &active),
        vec![Action::DeleteChars(4), Action::SendString("Best regards\n".to_owned())]
    );
}

#[test]
fn cursor_hint_moves_cursor_back() {
    let active = config(Backend::Inject);
    let engine = Engine::new(&active, Platform::Linux, 0);
    let m = text_match(":p", "<p>$|$</p>", false);
    assert_eq!(
        expand(&engine, &m, None, &active),
        vec![Action::DeleteChars(2), Action::SendString("<p></p>".to_owned()), Action::MoveCursorLeft(4)]
    );
}

#[test]
fn clipboard_backend_restores_clipboard() {
    let mut active = config(Backend::Clipboard);
    active.preserve_clipboard = true;
    let engine = Engine::new(&active, Platform::Linux, 0);
    let m = text_match(":y", "Y", false);
    let actions = expand(&engine, &m, None, &active);
    assert_eq!(
        actions,
        vec![
            Action::DeleteChars(2),
            Action::SaveClipboard,
            Action::SetClipboard("Y".to_owned()),
            Action::TriggerPaste("CTRL+V".to_owned()),
            Action::RestoreClipboard(50),
        ]
    );
    let mut clipboard = Some("X".to_owned());
    run_clipboard(&actions[..4], &mut clipboard);
    assert_eq!(clipboard, Some("Y".to_owned()));
    let mut clipboard = Some("X".to_owned());
    run_clipboard(&actions, &mut clipboard);
    assert_eq!(clipboard, Some("X".to_owned()));
}

#[test]
fn clipboard_backend_without_preserve_keeps_payload() {
    let active = config(Backend::Clipboard);
    let engine = Engine::new(&active, Platform::Linux, 0);
    let m = text_match(":y", "Y", false);
    assert_eq!(
        expand(&engine, &m, None, &active),
        vec![
            Action::DeleteChars(2),
            Action::SetClipboard("Y".to_owned()),
            Action::TriggerPaste("CTRL+V".to_owned()),
        ]
    );
}

#[test]
fn image_goes_through_clipboard() {
    let mut active = config(Backend::Inject);
    active.preserve_clipboard = true;
    let engine = Engine::new(&active, Platform::Linux, 0);
    let m = Match { trigger: ":img".to_owned(), content: MatchContent::Image { path: "/tmp/a.png".to_owned() }, word: false };
    let actions = expand(&engine, &m, None, &active);
    assert_eq!(
        actions,
        vec![
            Action::DeleteChars(4),
            Action::SaveClipboard,
            Action::SetClipboardImage("/tmp/a.png".to_owned()),
            Action::TriggerPaste("CTRL+V".to_owned()),
            Action::RestoreClipboard(50),
        ]
    );
    let mut clipboard = Some("X".to_owned());
    run_clipboard(&actions, &mut clipboard);
    assert_eq!(clipboard, Some("X".to_owned()));
}

#[test]
fn render_error_does_nothing() {
    let active = config(Backend::Inject);
    let engine = Engine::new(&active, Platform::Linux, 0);
    let m = text_match(":e", "x", false);
    assert!(engine.match_actions(&m, None, &RenderResult::Error, &active).is_empty());
}

#[test]
fn newlines_become_enter_off_linux() {
    let active = config(Backend::Inject);
    let engine = Engine::new(&active, Platform::Windows, 0);
    let m = text_match(":l", "a\r\nb\nc", false);
    let actions = expand(&engine, &m, None, &active);
    assert_eq!(
        actions,
        vec![
            Action::DeleteChars(2),
            Action::SendString("a".to_owned()),
            Action::SendEnter,
            Action::SendString("b".to_owned()),
            Action::SendEnter,
            Action::SendString("c".to_owned()),
        ]
    );
    let linux = Engine::new(&active, Platform::Linux, 0);
    assert_eq!(
        expand(&linux, &m, None, &active),
        vec![Action::DeleteChars(2), Action::SendString("a\nb\nc".to_owned())]
    );
}

#[test]
fn keystroke_balance_on_inject() {
    let active = config(Backend::Inject);
    let engine = Engine::new(&active, Platform::MacOs, 0);
    let m = text_match(":sig", "Best,\nMe$|$!", true);
    let actions = expand(&engine, &m, Some('.'), &active);
    let mut net: i64 = 0;
    for a in &actions {
        match a {
            Action::DeleteChars(n) => net -= *n as i64,
            Action::SendString(s) => net += s.chars().count() as i64,
            Action::SendEnter => net += 1,
            _ => {}
        }
    }
    let payload = "Best,\nMe!.";
    assert_eq!(net, payload.chars().count() as i64 - 5);
    assert_eq!(actions.last(), Some(&Action::MoveCursorLeft(2)));
}

#[test]
fn self_echo_guard_drops_second_match() {
    let active = config(Backend::Inject);
    let mut engine = Engine::new(&active, Platform::Linux, 0);
    assert!(engine.on_match(&active, 1000));
    assert!(!engine.on_match(&active, 1010));
    assert_eq!(engine.last_action_time, 1000);
    assert!(engine.on_match(&active, 1300));
    assert_eq!(engine.last_action_time, 1300);
}

#[test]
fn guard_right_after_start_and_clock_going_back() {
    let active = config(Backend::Inject);
    let mut engine = Engine::new(&active, Platform::Linux, 500);
    assert!(engine.check_last_action_and_set(300, 600));
    assert!(!engine.check_last_action_and_set(300, 100));
    assert_eq!(engine.last_action_time, 100);
}

#[test]
fn disabled_config_ignores_matches() {
    let mut active = config(Backend::Inject);
    active.enable_active = false;
    let mut engine = Engine::new(&active, Platform::Linux, 0);
    assert!(!engine.on_match(&active, 5000));
    assert_eq!(engine.last_action_time, 0);
}

#[test]
fn enable_update_and_toggle() {
    let active = config(Backend::Inject);
    let mut engine = Engine::new(&active, Platform::Linux, 0);
    assert_eq!(engine.on_enable_update(false, 1000), vec![Action::Notify("espanso disabled".to_owned())]);
    assert!(!engine.enabled);
    assert!(engine.on_enable_update(true, 1100).is_empty());
    assert!(!engine.enabled);
    assert_eq!(engine.on_action_event(ActionType::Toggle), vec![Action::Notify("espanso enabled".to_owned())]);
    assert!(engine.enabled);
}

#[test]
fn tray_menu_and_exit() {
    let active = config(Backend::Inject);
    let mut engine = Engine::new(&active, Platform::Linux, 0);
    let menu = vec![
        MenuItem { item_type: MenuItemType::Button, item_name: "Disable".to_owned(), item_id: 1 },
        MenuItem { item_type: MenuItemType::Separator, item_name: "".to_owned(), item_id: 999 },
        MenuItem { item_type: MenuItemType::Button, item_name: "Exit".to_owned(), item_id: 2 },
    ];
    assert_eq!(engine.build_menu(), menu);
    assert_eq!(engine.on_action_event(ActionType::IconClick), vec![Action::ShowMenu(menu)]);
    assert_eq!(engine.on_action_event(ActionType::Exit), vec![Action::Cleanup, Action::Exit]);
    assert!(engine.on_action_event(ActionType::Noop).is_empty());
    engine.enabled = false;
    assert_eq!(engine.build_menu()[0].item_name, "Enable");
    assert_eq!(ActionType::from_id(2), Some(ActionType::Exit));
    assert_eq!(ActionType::from_id(999), None);
}

#[test]
fn passive_mode_sequence() {
    let mut active = config(Backend::Inject);
    let mut engine = Engine::new(&active, Platform::Linux, 0);
    assert_eq!(engine.on_passive(&active, 1000), vec![Action::TriggerCopy, Action::Sleep(100)]);
    assert!(engine.on_passive(&active, 1050).is_empty());
    let rendered = RenderResult::Text("done".to_owned());
    assert_eq!(
        engine.passive_actions(&rendered, &active),
        vec![Action::SetClipboard("done".to_owned()), Action::Sleep(100), Action::TriggerPaste("CTRL+V".to_owned())]
    );
    assert!(engine.passive_actions(&RenderResult::Error, &active).is_empty());
    active.enable_passive = false;
    assert!(engine.on_passive(&active, 5000).is_empty());
}

#[test]
fn tray_toggle_ignores_the_guard() {
    let active = config(Backend::Inject);
    let mut engine = Engine::new(&active, Platform::Linux, 0);
    assert!(engine.on_match(&active, 1000));
    assert_eq!(engine.on_action_event(ActionType::Toggle), vec![Action::Notify("espanso disabled".to_owned())]);
    assert!(!engine.enabled);
    assert_eq!(engine.last_action_time, 1000);
    assert_eq!(engine.on_action_event(ActionType::Toggle), vec![Action::Notify("espanso enabled".to_owned())]);
    assert!(engine.enabled);
}

#[test]
fn preserve_comes_from_default_config() {
    let default = config(Backend::Clipboard);
    let engine = Engine::new(&default, Platform::Linux, 0);
    let mut active = config(Backend::Clipboard);
    active.preserve_clipboard = true;
    let m = text_match(":y", "Y", false);
    assert_eq!(
        expand(&engine, &m, None, &active),
        vec![Action::DeleteChars(2), Action::SetClipboard("Y".to_owned()), Action::TriggerPaste("CTRL+V".to_owned())]
    );
}
