use djibon::route::{join_segments, path_for, resolve, split_segments, Route, RouteKind};

fn strings(parts: &[&str]) -> Vec<String> {
    parts.iter().map(|p| p.to_string()).collect()
}

#[test]
fn resolve_circles() {
    assert_eq!(resolve("/circles"), Route::Circles);
}

#[test]
fn resolve_unknown_path() {
    let r = resolve("/unknown/path/x");
    assert_eq!(r, Route::NotFound { route: strings(&["unknown", "path", "x"]) });
    assert_eq!(r.kind(), RouteKind::NotFound);
}

#[test]
fn configured_paths_round_trip() {
    let cases = [
        ("/", Route::Home),
        ("/profile", Route::Profile),
        ("/comms", Route::Comms),
        ("/circles", Route::Circles),
        ("/trees", Route::Tree),
        ("/settings", Route::Settings),
        ("/system-info", Route::SystemInfo),
    ];
    for (path, route) in cases {
        let r = resolve(path);
        assert_eq!(r, route);
        assert_eq!(path_for(&r), path);
    }
}

#[test]
fn unmatched_canonical_path_round_trip() {
    for path in ["/unknown/path/x", "/a", "/messages", "/circles/inner", "/trees-x"] {
        let r = resolve(path);
        assert_eq!(r.kind(), RouteKind::NotFound);
        assert_eq!(path_for(&r), path);
    }
}

#[test]
fn unmatched_path_drops_empty_segments() {
    let r = resolve("//a///b/");
    assert_eq!(r, Route::NotFound { route: strings(&["a", "b"]) });
    assert_eq!(path_for(&r), "/a/b");
}

#[test]
fn trailing_slash_is_not_a_configured_path() {
    let r = resolve("/circles/");
    assert_eq!(r, Route::NotFound { route: strings(&["circles"]) });
    assert_eq!(path_for(&r), "/circles");
}

#[test]
fn empty_path_is_not_found_without_segments() {
    let r = resolve("");
    assert_eq!(r, Route::NotFound { route: Vec::new() });
    assert_eq!(path_for(&r), "/");
}

#[test]
fn path_without_leading_slash_is_not_found() {
    let r = resolve("profile");
    assert_eq!(r, Route::NotFound { route: strings(&["profile"]) });
    assert_eq!(path_for(&r), "/profile");
}

#[test]
fn split_segments_cases() {
    assert_eq!(split_segments(""), Vec::<String>::new());
    assert_eq!(split_segments("///"), Vec::<String>::new());
    assert_eq!(split_segments("abc"), strings(&["abc"]));
    assert_eq!(split_segments("/a/bc/"), strings(&["a", "bc"]));
    assert_eq!(split_segments("/ä/ß"), strings(&["ä", "ß"]));
}

#[test]
fn join_segments_cases() {
    assert_eq!(join_segments(&Vec::new()), "");
    assert_eq!(join_segments(&strings(&["one"])), "one");
    assert_eq!(join_segments(&strings(&["unknown", "path", "x"])), "unknown/path/x");
}

#[test]
fn same_variant_ignores_payload() {
    let a = Route::NotFound { route: strings(&["a"]) };
    let b = Route::NotFound { route: strings(&["b", "c"]) };
    assert!(a.same_variant(&b));
    assert!(Route::Home.same_variant(&Route::Home));
    assert!(!Route::Home.same_variant(&Route::Profile));
    assert!(!Route::Comms.same_variant(&a));
}

#[test]
fn same_text_compares_characters() {
    assert!(djibon::text::same_text("/trees", "/trees"));
    assert!(!djibon::text::same_text("/trees", "/tree"));
    assert!(!djibon::text::same_text("/trees", "/treeS"));
    assert!(djibon::text::same_text("", ""));
}
