//! The navigation core of the DJibon client: the route table, the
//! active-entry rule of the navigation bars, the theme store and the
//! view model of the layout shell.

pub mod text;
pub mod route;
pub mod theme;
pub mod nav;
pub mod layout;
pub mod family;
