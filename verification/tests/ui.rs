use easycad::graphics::gui_elements::{
    theme, ColorScheme, Notification, UiAction, UiState, NOTIFICATION_TTL,
};

#[test]
fn a_new_ui_is_dark_and_idle() {
    let ui = UiState::new();
    assert_eq!(ui.theme.color_scheme, ColorScheme::Dark);
    assert_eq!(ui.theme.colors, [1, 1, 1]);
    assert!(ui.numeric_buff.is_empty());
    assert!(!ui.numeric_active);
    assert!(ui.action.is_none());
    assert!(ui.notifications.is_empty());
}

#[test]
fn themes() {
    assert_eq!(theme(0).color_scheme, ColorScheme::Dark);
    assert_eq!(theme(1).color_scheme, ColorScheme::Grey);
    assert_eq!(theme(1).colors, [5, 8, 12]);
    assert_eq!(theme(2).color_scheme, ColorScheme::Light);
    assert_eq!(theme(2).colors, [255, 255, 255]);
}

#[test]
fn toggle_theme_cycles() {
    let mut ui = UiState::new();
    ui.toggle_theme();
    assert_eq!(ui.theme.color_scheme, ColorScheme::Grey);
    assert_eq!(ui.theme.colors, [5, 8, 12]);
    assert!(matches!(ui.action, Some(UiAction::ChangeTheme)));
    ui.action = None;
    ui.toggle_theme();
    assert_eq!(ui.theme.color_scheme, ColorScheme::Light);
    ui.toggle_theme();
    assert_eq!(ui.theme.color_scheme, ColorScheme::Dark);
    assert_eq!(ui.theme.colors, [1, 1, 1]);
    assert!(matches!(ui.action, Some(UiAction::ChangeTheme)));
}

#[test]
fn notifications_live_for_five_seconds() {
    assert_eq!(NOTIFICATION_TTL, 5_000);
    let mut ui = UiState::new();
    ui.add_notification("first", 100);
    ui.add_notification("second", 2_000);
    ui.add_notification("third", 4_000);
    assert_eq!(ui.notifications.len(), 3);
    assert_eq!(ui.notifications[0].message(), "first");
    assert_eq!(ui.notifications[0].created_at(), 100);
    assert_eq!(ui.notifications[0].ttl(), 5_000);
    ui.expire_notifications(5_099);
    assert_eq!(ui.notifications.len(), 3);
    ui.expire_notifications(5_100);
    let left: Vec<&str> = ui.notifications.iter().map(|n| n.message().as_str()).collect();
    assert_eq!(left, vec!["second", "third"]);
    ui.add_notification("fourth", 6_000);
    ui.expire_notifications(9_000);
    let left: Vec<&str> = ui.notifications.iter().map(|n| n.message().as_str()).collect();
    assert_eq!(left, vec!["fourth"]);
    // a clock that went backward takes nothing off
    ui.expire_notifications(0);
    assert_eq!(ui.notifications.len(), 1);
    ui.expire_notifications(u64::MAX);
    assert!(ui.notifications.is_empty());
}

#[test]
fn a_notification_knows_when_it_is_live() {
    let note = Notification::new("text", 1_000, 10);
    assert!(note.is_live(1_000));
    assert!(note.is_live(1_009));
    assert!(!note.is_live(1_010));
    assert!(note.is_live(999));
    let copy = note.duplicate();
    assert_eq!(copy.message(), "text");
    assert_eq!((copy.created_at(), copy.ttl()), (1_000, 10));
    assert!(!Notification::new("", 0, 0).is_live(0));
}

#[test]
fn digits_are_typed_and_committed() {
    let mut ui = UiState::new();
    ui.push_digit('1');
    assert!(ui.numeric_active);
    ui.push_digit('2');
    ui.push_digit('.');
    ui.push_digit('5');
    assert_eq!(ui.numeric_buff, "12.5");
    ui.commit_input();
    assert!(!ui.numeric_active);
    assert!(ui.numeric_buff.is_empty());
    match &ui.action {
        Some(UiAction::Input(value)) => assert_eq!(value, "12.5"),
        other => panic!("{:?}", other),
    }
    ui.commit_input();
    match &ui.action {
        Some(UiAction::Input(value)) => assert_eq!(value, ""),
        other => panic!("{:?}", other),
    }
}
