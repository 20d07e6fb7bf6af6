use djibon::theme::{
    init_theme, theme_from_stored, toggle_theme, AppState, Theme, ThemeWrite, THEME_ATTRIBUTE,
    THEME_STORAGE_KEY,
};

#[test]
fn default_theme_is_light() {
    assert_eq!(Theme::default(), Theme::Light);
}

#[test]
fn toggled_flips_each_way() {
    assert_eq!(Theme::Light.toggled(), Theme::Dark);
    assert_eq!(Theme::Dark.toggled(), Theme::Light);
}

#[test]
fn toggle_twice_restores_state() {
    for start in [Theme::Light, Theme::Dark] {
        let mut state = AppState::new(start, "1.0".to_string());
        toggle_theme(&mut state);
        assert_ne!(state.theme, start);
        toggle_theme(&mut state);
        assert_eq!(state.theme, start);
        assert_eq!(state.counter, 0);
        assert_eq!(state.version, "1.0");
    }
}

#[test]
fn init_prefers_system_dark_when_nothing_stored() {
    assert_eq!(init_theme(None, Some(true)), Theme::Dark);
}

#[test]
fn init_stored_light_overrides_system() {
    assert_eq!(init_theme(Some("light"), Some(true)), Theme::Light);
    assert_eq!(init_theme(Some("light"), None), Theme::Light);
}

#[test]
fn init_stored_dark_overrides_system() {
    assert_eq!(init_theme(Some("dark"), Some(false)), Theme::Dark);
}

#[test]
fn init_defaults_to_light() {
    assert_eq!(init_theme(None, None), Theme::Light);
    assert_eq!(init_theme(None, Some(false)), Theme::Light);
}

#[test]
fn unknown_stored_value_is_light() {
    assert_eq!(theme_from_stored("blue"), Theme::Light);
    assert_eq!(theme_from_stored("Dark"), Theme::Light);
    assert_eq!(theme_from_stored(""), Theme::Light);
    assert_eq!(theme_from_stored("dark"), Theme::Dark);
}

#[test]
fn start_light_then_toggle_to_dark() {
    let initial = init_theme(None, Some(false));
    assert_eq!(initial, Theme::Light);
    let mut state = AppState::new(initial, "0.1.0".to_string());
    let write = toggle_theme(&mut state);
    assert_eq!(state.theme, Theme::Dark);
    assert_eq!(write.storage_key, "theme");
    assert_eq!(write.storage_value, "dark");
    assert_eq!(write.root_attribute, "data-bs-theme");
    assert_eq!(write.root_value, "dark");
}

#[test]
fn theme_write_names() {
    let w = ThemeWrite::for_theme(Theme::Light);
    assert_eq!(w.storage_key, THEME_STORAGE_KEY);
    assert_eq!(w.root_attribute, THEME_ATTRIBUTE);
    assert_eq!(w.storage_value, "light");
    assert_eq!(Theme::Dark.as_str(), "dark");
    assert!(Theme::Dark.is_dark());
    assert!(!Theme::Light.is_dark());
}

#[test]
fn increment_counts_up() {
    let mut state = AppState::new(Theme::Dark, String::new());
    state.increment();
    state.increment();
    assert_eq!(state.counter, 2);
    assert_eq!(state.theme, Theme::Dark);
}
