//! Navigation entries and which of them is highlighted.

use vstd::prelude::*;
use crate::route::{Route, RouteKind, RouteView};

verus! {

/// One link of a navigation bar, derived from its target and the current
/// route.
#[derive(Clone, Copy, Debug, PartialEq, Eq)]
pub struct NavEntry {
    pub target: RouteKind,
    pub label: &'static str,
    pub icon: &'static str,
    pub is_active: bool,
}

/// An entry is active when its target has the tag of the current route;
/// the route's payload plays no part.
pub open spec fn is_active(target: RouteKind, current: RouteView) -> bool {
    target == current.kind()
}

pub open spec fn label_of(k: RouteKind) -> Seq<char> {
    match k {
        RouteKind::Home => "Home"@,
        RouteKind::Profile => "Profile"@,
        RouteKind::Comms => "Comms"@,
        RouteKind::Circles => "Circles"@,
        RouteKind::Tree => "Trees"@,
        RouteKind::Settings => "Settings"@,
        RouteKind::SystemInfo => "System Info"@,
        RouteKind::NotFound => "Not Found"@,
    }
}

pub open spec fn icon_of(k: RouteKind) -> Seq<char> {
    match k {
        RouteKind::Home => "bi bi-house-door"@,
        RouteKind::Profile => "bi bi-person"@,
        RouteKind::Comms => "bi bi-chat-dots"@,
        RouteKind::Circles => "bi bi-people"@,
        RouteKind::Tree => "bi bi-diagram-3"@,
        RouteKind::Settings => "bi bi-gear"@,
        RouteKind::SystemInfo => "bi bi-info-circle"@,
        RouteKind::NotFound => "bi bi-question-circle"@,
    }
}

/// The targets of the bottom tab bar, in order.
pub open spec fn bottom_targets() -> Seq<RouteKind> {
    seq![
        RouteKind::Home,
        RouteKind::Profile,
        RouteKind::Comms,
        RouteKind::Circles,
        RouteKind::Tree,
        RouteKind::Settings,
    ]
}

/// The targets of the side menu, in order.
pub open spec fn sidebar_targets() -> Seq<RouteKind> {
    bottom_targets().push(RouteKind::SystemInfo)
}

/// The entry for `target` when `current` is the current route.
pub open spec fn entry_is(e: NavEntry, target: RouteKind, current: RouteView) -> bool {
    &&& e.target == target
    &&& e.label@ == label_of(target)
    &&& e.icon@ == icon_of(target)
    &&& e.is_active == is_active(target, current)
}

/// The entries for `targets`, one each and in order.
pub open spec fn entries_are(es: Seq<NavEntry>, targets: Seq<RouteKind>, current: RouteView) -> bool {
    &&& es.len() == targets.len()
    &&& forall|i: int| 0 <= i < es.len() ==> entry_is(#[trigger] es[i], targets[i], current)
}

pub fn label(k: RouteKind) -> (r: &'static str)
    ensures
        r@ == label_of(k),
{
    match k {
        RouteKind::Home => "Home",
        RouteKind::Profile => "Profile",
        RouteKind::Comms => "Comms",
        RouteKind::Circles => "Circles",
        RouteKind::Tree => "Trees",
        RouteKind::Settings => "Settings",
        RouteKind::SystemInfo => "System Info",
        RouteKind::NotFound => "Not Found",
    }
}

pub fn icon(k: RouteKind) -> (r: &'static str)
    ensures
        r@ == icon_of(k),
{
    match k {
        RouteKind::Home => "bi bi-house-door",
        RouteKind::Profile => "bi bi-person",
        RouteKind::Comms => "bi bi-chat-dots",
        RouteKind::Circles => "bi bi-people",
        RouteKind::Tree => "bi bi-diagram-3",
        RouteKind::Settings => "bi bi-gear",
        RouteKind::SystemInfo => "bi bi-info-circle",
        RouteKind::NotFound => "bi bi-question-circle",
    }
}

/// The entry that links to `target` while `current` is displayed.
pub fn nav_entry(target: RouteKind, current: &Route) -> (e: NavEntry)
    ensures
        entry_is(e, target, current@),
{
    NavEntry {
        target,
        label: label(target),
        icon: icon(target),
        is_active: target == current.kind(),
    }
}

/// The entries for `targets`, in order, while `current` is displayed.
pub fn nav_entries(targets: &Vec<RouteKind>, current: &Route) -> (r: Vec<NavEntry>)
    ensures
        entries_are(r@, targets@, current@),
{
    let mut out: Vec<NavEntry> = Vec::new();
    let mut i: usize = 0;
    while i < targets.len()
        invariant
            i <= targets@.len(),
            entries_are(out@, targets@.subrange(0, i as int), current@),
        decreases targets@.len() - i,
    {
        out.push(nav_entry(targets[i], current));
        i = i + 1;
    }
    assert(targets@.subrange(0, targets@.len() as int) =~= targets@);
    out
}

/// The targets of the bottom tab bar.
pub fn bottom_nav_targets() -> (r: Vec<RouteKind>)
    ensures
        r@ == bottom_targets(),
{
    let r = vec![
        RouteKind::Home,
        RouteKind::Profile,
        RouteKind::Comms,
        RouteKind::Circles,
        RouteKind::Tree,
        RouteKind::Settings,
    ];
    assert(r@ =~= bottom_targets());
    r
}

/// The targets of the side menu.
pub fn sidebar_nav_targets() -> (r: Vec<RouteKind>)
    ensures
        r@ == sidebar_targets(),
{
    let mut r = bottom_nav_targets();
    r.push(RouteKind::SystemInfo);
    r
}

/// The bottom tab bar while `current` is displayed.
pub fn bottom_nav(current: &Route) -> (r: Vec<NavEntry>)
    ensures
        entries_are(r@, bottom_targets(), current@),
{
    nav_entries(&bottom_nav_targets(), current)
}

/// The side menu while `current` is displayed.
pub fn sidebar_nav(current: &Route) -> (r: Vec<NavEntry>)
    ensures
        entries_are(r@, sidebar_targets(), current@),
{
    nav_entries(&sidebar_nav_targets(), current)
}

/// In a list of entries with distinct targets at most one is active, and
/// none is when the current route's tag is not among the targets.
pub proof fn lemma_at_most_one_active(es: Seq<NavEntry>, targets: Seq<RouteKind>, current: RouteView)
    requires
        entries_are(es, targets, current),
        targets.no_duplicates(),
    ensures
        forall|i: int, j: int|
            0 <= i < es.len() && 0 <= j < es.len() && (#[trigger] es[i]).is_active
                && (#[trigger] es[j]).is_active ==> i == j,
        !targets.contains(current.kind()) ==> forall|i: int|
            0 <= i < es.len() ==> !(#[trigger] es[i]).is_active,
        targets.contains(current.kind()) ==> exists|i: int|
            0 <= i < es.len() && (#[trigger] es[i]).is_active,
{
    assert forall|i: int, j: int|
        0 <= i < es.len() && 0 <= j < es.len() && (#[trigger] es[i]).is_active
            && (#[trigger] es[j]).is_active implies i == j by {
        assert(entry_is(es[i], targets[i], current));
        assert(entry_is(es[j], targets[j], current));
    }
    if !targets.contains(current.kind()) {
        assert forall|i: int| 0 <= i < es.len() implies !(#[trigger] es[i]).is_active by {
            assert(entry_is(es[i], targets[i], current));
        }
    } else {
        let k = choose|k: int| 0 <= k < targets.len() && targets[k] == current.kind();
        assert(entry_is(es[k], targets[k], current));
    }
}

/// The targets of both bars are distinct, so each bar highlights at most
/// one entry.
pub proof fn lemma_bars_distinct()
    ensures
        bottom_targets().no_duplicates(),
        sidebar_targets().no_duplicates(),
        !bottom_targets().contains(RouteKind::SystemInfo),
        !bottom_targets().contains(RouteKind::NotFound),
        !sidebar_targets().contains(RouteKind::NotFound),
{
    let b = bottom_targets();
    let s = sidebar_targets();
    assert(b.len() == 6 && s.len() == 7);
    assert(s[6] == RouteKind::SystemInfo);
    assert forall|i: int| 0 <= i < 6 implies s[i] == b[i] by {}
}

} // verus!
