use niri_taskbar::settings::default_context_menu;
use niri_taskbar::settings::default_icon_size;
use niri_taskbar::settings::default_max_taskbar;
use niri_taskbar::settings::default_max_width;
use niri_taskbar::settings::default_min_width;
use niri_taskbar::settings::default_scroll_arrow_left;
use niri_taskbar::settings::default_scroll_arrow_right;
use niri_taskbar::settings::default_spacing;
use niri_taskbar::settings::default_true;
use niri_taskbar::settings::AppRule;
use niri_taskbar::settings::ClickActions;
use niri_taskbar::settings::ContextMenuItem;
use niri_taskbar::settings::IgnoreRule;
use niri_taskbar::settings::NotificationConfig;
use niri_taskbar::settings::Settings;
use niri_taskbar::settings::WindowAction;

fn base_settings() -> Settings {
    Settings {
        apps: Vec::new(),
        notifications: NotificationConfig::default(),
        show_all_outputs: false,
        only_current_workspace: false,
        show_window_titles: true,
        min_button_width: default_min_width(),
        max_button_width: default_max_width(),
        icon_size: default_icon_size(),
        icon_spacing: default_spacing(),
        max_taskbar_width: default_max_taskbar(),
        max_taskbar_width_per_output: Vec::new(),
        scroll_arrow_left: default_scroll_arrow_left(),
        scroll_arrow_right: default_scroll_arrow_right(),
        click_actions: ClickActions::default(),
        ignore_rules: Vec::new(),
        context_menu: default_context_menu(),
    }
}

fn empty_rule() -> IgnoreRule {
    IgnoreRule { app_id: None, title: None, title_regex: None, title_contains: None, workspace: None }
}

#[test]
fn default_values_match_the_documented_configuration() {
    assert!(default_true());
    assert_eq!(default_min_width(), 150);
    assert_eq!(default_max_width(), 235);
    assert_eq!(default_icon_size(), 24);
    assert_eq!(default_spacing(), 6);
    assert_eq!(default_max_taskbar(), 1200);
    assert_eq!(default_scroll_arrow_left(), "◀");
    assert_eq!(default_scroll_arrow_right(), "▶");
}

#[test]
fn default_click_actions_bind_the_documented_actions() {
    let actions = ClickActions::default();
    assert_eq!(actions.left_click_unfocused, WindowAction::FocusWindow);
    assert_eq!(actions.left_click_focused, WindowAction::MaximizeColumn);
    assert_eq!(actions.double_click, WindowAction::MaximizeWindowToEdges);
    assert_eq!(actions.right_click, WindowAction::Menu);
    assert_eq!(actions.middle_click, WindowAction::CloseWindow);
}

#[test]
fn default_notification_config_enables_desktop_entry_but_not_fuzzy() {
    let config = NotificationConfig::default();
    assert!(config.enabled);
    assert!(config.use_desktop_entry);
    assert!(!config.use_fuzzy_matching);
    assert!(config.map_app_ids.is_empty());
}

#[test]
fn default_context_menu_has_the_four_documented_entries() {
    let menu = default_context_menu();
    let actions: Vec<WindowAction> = menu.iter().map(|item| item.action).collect();
    assert_eq!(
        actions,
        vec![
            WindowAction::MaximizeColumn,
            WindowAction::MaximizeWindowToEdges,
            WindowAction::ToggleWindowFloating,
            WindowAction::CloseWindow,
        ],
    );
    assert!(menu[0].label.contains("Maximize Column"));
    assert!(menu[3].label.contains("Close Window"));
}

#[test]
fn app_classes_are_collected_per_app_id() {
    let mut settings = base_settings();
    settings.apps = vec![(
        "editor".to_string(),
        vec![
            AppRule { pattern: ".*".to_string(), class: Some("dark".to_string()), click_actions: None },
            AppRule { pattern: "x".to_string(), class: None, click_actions: None },
            AppRule { pattern: "y".to_string(), class: Some("wide".to_string()), click_actions: None },
        ],
    )];
    assert_eq!(settings.get_app_classes("editor"), vec!["dark".to_string(), "wide".to_string()]);
    assert_eq!(settings.get_app_classes("other"), Vec::<String>::new());
}

#[test]
fn match_app_rules_filters_classes_by_title_pattern() {
    let mut settings = base_settings();
    settings.apps = vec![(
        "editor".to_string(),
        vec![
            AppRule {
                pattern: "^draft".to_string(),
                class: Some("draft".to_string()),
                click_actions: None,
            },
            AppRule {
                pattern: "notes".to_string(),
                class: Some("notes".to_string()),
                click_actions: None,
            },
        ],
    )];
    assert_eq!(settings.match_app_rules("editor", "draft of notes"), vec![
        "draft".to_string(),
        "notes".to_string(),
    ]);
    assert_eq!(settings.match_app_rules("editor", "final"), Vec::<String>::new());
}

#[test]
fn click_actions_come_from_the_first_matching_rule_with_overrides() {
    let mut settings = base_settings();
    let special = ClickActions { middle_click: WindowAction::NoOp, ..ClickActions::default() };
    settings.apps = vec![(
        "editor".to_string(),
        vec![
            AppRule { pattern: "^zzz".to_string(), class: None, click_actions: None },
            AppRule { pattern: "draft".to_string(), class: None, click_actions: Some(special) },
        ],
    )];
    let picked = settings.get_click_actions(Some("editor"), Some("my draft"));
    assert_eq!(picked.middle_click, WindowAction::NoOp);
    let fallback = settings.get_click_actions(Some("editor"), Some("final"));
    assert_eq!(fallback.middle_click, WindowAction::CloseWindow);
    let missing_title = settings.get_click_actions(Some("editor"), None);
    assert_eq!(missing_title.middle_click, WindowAction::CloseWindow);
}

#[test]
fn should_ignore_requires_every_stated_criterion() {
    let mut settings = base_settings();
    settings.ignore_rules = vec![IgnoreRule {
        app_id: Some("bar".to_string()),
        workspace: Some(3),
        ..empty_rule()
    }];
    assert!(settings.should_ignore(Some("bar"), None, Some(3)));
    assert!(!settings.should_ignore(Some("bar"), None, Some(4)));
    assert!(!settings.should_ignore(Some("other"), None, Some(3)));
    assert!(!settings.should_ignore(None, None, Some(3)));
}

#[test]
fn should_ignore_matches_title_substrings() {
    let mut settings = base_settings();
    settings.ignore_rules =
        vec![IgnoreRule { title_contains: Some("lock".to_string()), ..empty_rule() }];
    assert!(settings.should_ignore(None, Some("Sherlock Holmes"), None));
    assert!(!settings.should_ignore(None, Some("Open files"), None));
    assert!(!settings.should_ignore(None, None, None));
}

#[test]
fn should_ignore_matches_title_patterns() {
    let mut settings = base_settings();
    settings.ignore_rules =
        vec![IgnoreRule { title_regex: Some("^Bell.*".to_string()), ..empty_rule() }];
    assert!(settings.should_ignore(None, Some("Bells"), None));
    assert!(!settings.should_ignore(None, Some("Doorbells"), None));
}

#[test]
fn an_invalid_pattern_matches_nothing() {
    let mut settings = base_settings();
    settings.ignore_rules =
        vec![IgnoreRule { title_regex: Some("(".to_string()), ..empty_rule() }];
    assert!(!settings.should_ignore(None, Some("(anything"), None));
}

#[test]
fn taskbar_width_prefers_the_output_specific_entry() {
    let mut settings = base_settings();
    settings.max_taskbar_width_per_output = vec![("DP-1".to_string(), 900)];
    assert_eq!(settings.max_taskbar_width_for_output(Some("DP-1")), 900);
    assert_eq!(settings.max_taskbar_width_for_output(Some("DP-2")), 1200);
    assert_eq!(settings.max_taskbar_width_for_output(None), 1200);
}

#[test]
fn notification_app_map_resolves_known_ids_only() {
    let mut settings = base_settings();
    settings.notifications.map_app_ids =
        vec![("terminal".to_string(), "org.kde.konsole".to_string())];
    assert_eq!(settings.notifications_app_map("terminal"), Some("org.kde.konsole"));
    assert_eq!(settings.notifications_app_map("browser"), None);
}

#[test]
fn simple_getters_reflect_the_stored_configuration() {
    let mut settings = base_settings();
    settings.show_all_outputs = true;
    settings.only_current_workspace = true;
    assert!(settings.show_all_outputs());
    assert!(settings.only_current_workspace());
    assert!(settings.show_window_titles());
    assert!(settings.notifications_enabled());
    assert!(settings.notifications_use_desktop_entry());
    assert!(!settings.notifications_use_fuzzy_matching());
    assert_eq!(settings.min_button_width(), 150);
    assert_eq!(settings.max_button_width(), 235);
    assert_eq!(settings.icon_size(), 24);
    assert_eq!(settings.icon_spacing(), 6);
    assert_eq!(settings.scroll_arrow_left(), "◀");
    assert_eq!(settings.scroll_arrow_right(), "▶");
    let menu: &Vec<ContextMenuItem> = settings.context_menu();
    assert_eq!(menu.len(), 4);
}
