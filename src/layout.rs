//! The layout shell: what surrounds the page of the current route, and what
//! fills its content slot.

use vstd::prelude::*;
use crate::nav::{bottom_nav, bottom_targets, entries_are, sidebar_nav, sidebar_targets, NavEntry};
use crate::route::{join, join_segments, path_for, path_of, Route, RouteKind, RouteView};
use crate::theme::Theme;

verus! {

/// What the content slot shows.
#[derive(Clone, Debug, PartialEq, Eq)]
pub enum Content {
    /// The page bound to a named route.
    Page { kind: RouteKind },
    /// The page for a path that matched no route: the path that was asked
    /// for, the heading that shows it, and the link back home.
    NotFound { missing_path: String, heading: String, home_link: String },
}

/// The chrome and content of the application for one route and theme.
#[derive(Clone, Debug)]
pub struct Layout {
    pub theme_attr: &'static str,
    pub sidebar: Vec<NavEntry>,
    pub bottom: Vec<NavEntry>,
    pub content: Content,
}

/// The content slot for `current`.
pub open spec fn content_is(c: Content, current: RouteView) -> bool {
    match current {
        RouteView::NotFound(segs) => {
            &&& c matches Content::NotFound { missing_path, heading, home_link }
            &&& missing_path@ == join(segs)
            &&& heading@ == "Page Not Found: "@ + join(segs)
            &&& home_link@ == path_of(RouteView::Home)
        },
        _ => c matches Content::Page { kind } && kind == current.kind(),
    }
}

/// The page for a path with the given segments that matched no route.
pub fn not_found_content(segs: &Vec<String>) -> (c: Content)
    ensures
        content_is(c, RouteView::NotFound(crate::route::texts(segs@))),
{
    let missing_path = join_segments(segs);
    let mut heading = String::from_str("Page Not Found: ");
    heading.append(missing_path.as_str());
    let home_link = path_for(&Route::Home);
    Content::NotFound { missing_path, heading, home_link }
}

/// The content slot for `current`.
pub fn content_for(current: &Route) -> (c: Content)
    ensures
        content_is(c, current@),
{
    match current {
        Route::NotFound { route } => not_found_content(route),
        _ => Content::Page { kind: current.kind() },
    }
}

/// The layout shell around `current` in `theme`: the theme attribute, the
/// side menu, the bottom tab bar and the content slot.
pub fn layout(current: &Route, theme: Theme) -> (r: Layout)
    ensures
        r.theme_attr@ == theme.name(),
        entries_are(r.sidebar@, sidebar_targets(), current@),
        entries_are(r.bottom@, bottom_targets(), current@),
        content_is(r.content, current@),
{
    Layout {
        theme_attr: theme.as_str(),
        sidebar: sidebar_nav(current),
        bottom: bottom_nav(current),
        content: content_for(current),
    }
}

} // verus!
