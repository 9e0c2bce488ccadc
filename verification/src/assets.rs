//! The asset table: one loaded menu document per screen, read-only after
//! loading.

use vstd::prelude::*;

use crate::document::{Menu, WhichMenu};

verus! {

/// The loaded menu documents, one per screen.
#[derive(Debug)]
pub struct MenuAssets {
    pub main: Menu,
    pub join: Menu,
    pub host: Menu,
    pub settings: Menu,
    pub credits: Menu,
}

impl WhichMenu {
    /// The document describing this screen.
    pub fn to_view<'a>(self, assets: &'a MenuAssets) -> (r: &'a Menu)
        ensures
            *r == (match self {
                WhichMenu::Main => assets.main,
                WhichMenu::JoinGame => assets.join,
                WhichMenu::HostGame => assets.host,
                WhichMenu::Settings => assets.settings,
                WhichMenu::Credits => assets.credits,
            }),
    {
        match self {
            WhichMenu::Main => &assets.main,
            WhichMenu::JoinGame => &assets.join,
            WhichMenu::HostGame => &assets.host,
            WhichMenu::Settings => &assets.settings,
            WhichMenu::Credits => &assets.credits,
        }
    }
}

} // verus!
