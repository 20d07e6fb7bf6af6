use djibon::family::Person;
use djibon::layout::{layout, Content};
use djibon::nav::{bottom_nav, icon, label, nav_entry, sidebar_nav};
use djibon::route::{resolve, Route, RouteKind};
use djibon::theme::Theme;

#[test]
fn comms_is_the_only_active_bottom_entry() {
    let entries = bottom_nav(&Route::Comms);
    let targets: Vec<RouteKind> = entries.iter().map(|e| e.target).collect();
    assert_eq!(
        targets,
        vec![
            RouteKind::Home,
            RouteKind::Profile,
            RouteKind::Comms,
            RouteKind::Circles,
            RouteKind::Tree,
            RouteKind::Settings
        ]
    );
    let active: Vec<RouteKind> = entries.iter().filter(|e| e.is_active).map(|e| e.target).collect();
    assert_eq!(active, vec![RouteKind::Comms]);
}

#[test]
fn system_info_highlights_no_bottom_entry() {
    let entries = bottom_nav(&Route::SystemInfo);
    assert_eq!(entries.len(), 6);
    assert!(entries.iter().all(|e| !e.is_active));
}

#[test]
fn system_info_highlights_its_sidebar_entry() {
    let entries = sidebar_nav(&Route::SystemInfo);
    assert_eq!(entries.len(), 7);
    let active: Vec<RouteKind> = entries.iter().filter(|e| e.is_active).map(|e| e.target).collect();
    assert_eq!(active, vec![RouteKind::SystemInfo]);
}

#[test]
fn not_found_highlights_nothing() {
    let current = resolve("/nowhere");
    assert!(bottom_nav(&current).iter().all(|e| !e.is_active));
    assert!(sidebar_nav(&current).iter().all(|e| !e.is_active));
}

#[test]
fn entry_labels_and_icons() {
    let e = nav_entry(RouteKind::Tree, &Route::Tree);
    assert_eq!(e.label, "Trees");
    assert_eq!(e.icon, "bi bi-diagram-3");
    assert!(e.is_active);
    let e = nav_entry(RouteKind::Home, &Route::Profile);
    assert_eq!(e.label, "Home");
    assert!(!e.is_active);
    assert_eq!(label(RouteKind::SystemInfo), "System Info");
    assert_eq!(icon(RouteKind::Comms), "bi bi-chat-dots");
}

#[test]
fn not_found_page_shows_path_and_home_link() {
    let shell = layout(&resolve("/unknown/path/x"), Theme::Light);
    match shell.content {
        Content::NotFound { missing_path, heading, home_link } => {
            assert_eq!(missing_path, "unknown/path/x");
            assert_eq!(heading, "Page Not Found: unknown/path/x");
            assert_eq!(home_link, "/");
        }
        other => panic!("expected the not-found page, got {:?}", other),
    }
}

#[test]
fn layout_for_named_route() {
    let shell = layout(&Route::Circles, Theme::Dark);
    assert_eq!(shell.theme_attr, "dark");
    assert!(matches!(shell.content, Content::Page { kind: RouteKind::Circles }));
    assert_eq!(shell.bottom.iter().filter(|e| e.is_active).count(), 1);
    assert_eq!(shell.sidebar.iter().filter(|e| e.is_active).count(), 1);
    assert_eq!(layout(&Route::Home, Theme::Light).theme_attr, "light");
}

#[test]
fn person_holds_its_fields() {
    let p = Person {
        id: "rina-hossain".to_string(),
        name: "Rina".to_string(),
        birth_year: Some(1950),
        profile_image: None,
        relationship: "grandmother".to_string(),
    };
    let q = p.clone();
    assert!(p == q);
    assert_eq!(q.birth_year, Some(1950));
}
