//! The theme store: the light/dark theme, how it is chosen at start, how it
//! is toggled, and what must be written out after each change.

use vstd::prelude::*;
use crate::text::same_text;

verus! {

/// The display mode of the application.
#[derive(Clone, Copy, Debug, PartialEq, Eq, Structural)]
pub enum Theme {
    Light,
    Dark,
}

/// The key under which the theme is persisted.
pub const THEME_STORAGE_KEY: &'static str = "theme";

/// The attribute of the document's root element that carries the theme.
pub const THEME_ATTRIBUTE: &'static str = "data-bs-theme";

impl Default for Theme {
    fn default() -> (r: Theme)
        ensures
            r == Theme::Light,
    {
        Theme::Light
    }
}

impl Theme {
    /// The other theme.
    pub open spec fn flipped(self) -> Theme {
        match self {
            Theme::Light => Theme::Dark,
            Theme::Dark => Theme::Light,
        }
    }

    /// The persisted and attribute value of the theme.
    pub open spec fn name(self) -> Seq<char> {
        match self {
            Theme::Light => "light"@,
            Theme::Dark => "dark"@,
        }
    }

    /// The other theme.
    pub fn toggled(self) -> (r: Theme)
        ensures
            r == self.flipped(),
    {
        match self {
            Theme::Light => Theme::Dark,
            Theme::Dark => Theme::Light,
        }
    }

    /// `"light"` or `"dark"`: the value that is persisted and set on the
    /// root element.
    pub fn as_str(self) -> (r: &'static str)
        ensures
            r@ == self.name(),
    {
        match self {
            Theme::Light => "light",
            Theme::Dark => "dark",
        }
    }

    pub fn is_dark(self) -> (r: bool)
        ensures
            r == (self == Theme::Dark),
    {
        match self {
            Theme::Light => false,
            Theme::Dark => true,
        }
    }
}

/// The theme that a persisted value stands for: `"dark"` is dark, any
/// other value light.
pub open spec fn stored_theme(v: Seq<char>) -> Theme {
    if v == "dark"@ {
        Theme::Dark
    } else {
        Theme::Light
    }
}

/// The theme at start: the persisted value where there is one, else dark
/// where the system prefers dark, else light.
pub open spec fn initial_theme(stored: Option<Seq<char>>, prefers_dark: Option<bool>) -> Theme {
    match stored {
        Some(v) => stored_theme(v),
        None => if prefers_dark == Some(true) {
            Theme::Dark
        } else {
            Theme::Light
        },
    }
}

pub open spec fn stored_text(stored: Option<&str>) -> Option<Seq<char>> {
    match stored {
        Some(s) => Some(s@),
        None => None,
    }
}

/// The theme that a persisted value stands for.
pub fn theme_from_stored(value: &str) -> (r: Theme)
    ensures
        r == stored_theme(value@),
{
    if same_text(value, "dark") {
        Theme::Dark
    } else {
        Theme::Light
    }
}

/// Chooses the theme at start from the persisted value (`None` where
/// storage has none or cannot be read) and the system's colour-scheme
/// preference (`None` where it cannot be queried).
pub fn init_theme(stored: Option<&str>, prefers_dark: Option<bool>) -> (r: Theme)
    ensures
        r == initial_theme(stored_text(stored), prefers_dark),
{
    match stored {
        Some(value) => theme_from_stored(value),
        None => match prefers_dark {
            Some(true) => Theme::Dark,
            _ => Theme::Light,
        },
    }
}

/// What has to be written outside the application for a theme: the value
/// under the storage key, and the attribute of the document's root element.
#[derive(Clone, Copy, Debug)]
pub struct ThemeWrite {
    pub storage_key: &'static str,
    pub storage_value: &'static str,
    pub root_attribute: &'static str,
    pub root_value: &'static str,
}

impl ThemeWrite {
    pub open spec fn writes(self, theme: Theme) -> bool {
        &&& self.storage_key@ == THEME_STORAGE_KEY@
        &&& self.storage_value@ == theme.name()
        &&& self.root_attribute@ == THEME_ATTRIBUTE@
        &&& self.root_value@ == theme.name()
    }

    /// The writes that make `theme` persisted and visible.
    pub fn for_theme(theme: Theme) -> (r: ThemeWrite)
        ensures
            r.writes(theme),
    {
        ThemeWrite {
            storage_key: THEME_STORAGE_KEY,
            storage_value: theme.as_str(),
            root_attribute: THEME_ATTRIBUTE,
            root_value: theme.as_str(),
        }
    }
}

/// The state shared by the whole application.
#[derive(Clone, Debug)]
pub struct AppState {
    pub counter: i32,
    pub theme: Theme,
    pub version: String,
}

impl AppState {
    /// A fresh state with the given theme and version, and the counter at 0.
    pub fn new(theme: Theme, version: String) -> (r: AppState)
        ensures
            r.counter == 0,
            r.theme == theme,
            r.version@ == version@,
    {
        AppState { counter: 0, theme, version }
    }

    /// Adds one to the counter.
    pub fn increment(&mut self)
        requires
            old(self).counter < i32::MAX,
        ensures
            final(self).counter == old(self).counter + 1,
            final(self).theme == old(self).theme,
            final(self).version@ == old(self).version@,
    {
        self.counter = self.counter + 1;
    }
}

/// Flips the theme of `state` and returns what must be written out so that
/// the persisted value and the root element follow it.
pub fn toggle_theme(state: &mut AppState) -> (w: ThemeWrite)
    ensures
        final(state).theme == old(state).theme.flipped(),
        final(state).counter == old(state).counter,
        final(state).version@ == old(state).version@,
        w.writes(final(state).theme),
{
    state.theme = state.theme.toggled();
    ThemeWrite::for_theme(state.theme)
}

/// Toggling flips the theme one way or the other, and toggling twice gives
/// the theme back.
pub proof fn lemma_toggle_twice(t: Theme)
    ensures
        Theme::Light.flipped() == Theme::Dark,
        Theme::Dark.flipped() == Theme::Light,
        t.flipped() != t,
        t.flipped().flipped() == t,
{
}

/// With nothing persisted and a system that prefers dark, the theme at
/// start is dark; a persisted value decides whatever the system prefers,
/// and a persisted `"light"` gives light.
pub proof fn lemma_init_priority(stored: Seq<char>, prefers_dark: Option<bool>)
    ensures
        initial_theme(None, Some(true)) == Theme::Dark,
        initial_theme(Some(stored), prefers_dark) == stored_theme(stored),
        initial_theme(Some("light"@), prefers_dark) == Theme::Light,
{
    reveal_strlit("light");
    reveal_strlit("dark");
    assert("light"@.len() != "dark"@.len());
}

} // verus!
