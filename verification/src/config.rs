//! The settings of the application.

use vstd::prelude::*;
use crate::text::owned;

verus! {

/// What the user has set.
#[derive(Debug)]
pub struct Settings {
    pub vintage_story_path: Option<String>,
    pub mods_path: Option<String>,
    pub api_username: Option<String>,
    pub api_password: Option<String>,
    pub theme: String,
    pub default_mod_pack_location: Option<String>,
}

impl Clone for Settings {
    fn clone(&self) -> (r: Self)
        ensures
            r.vintage_story_path.deep_view() == self.vintage_story_path.deep_view(),
            r.mods_path.deep_view() == self.mods_path.deep_view(),
            r.api_username.deep_view() == self.api_username.deep_view(),
            r.api_password.deep_view() == self.api_password.deep_view(),
            r.theme@ == self.theme@,
            r.default_mod_pack_location.deep_view() == self.default_mod_pack_location.deep_view(),
    {
        Settings {
            vintage_story_path: self.vintage_story_path.clone(),
            mods_path: self.mods_path.clone(),
            api_username: self.api_username.clone(),
            api_password: self.api_password.clone(),
            theme: self.theme.clone(),
            default_mod_pack_location: self.default_mod_pack_location.clone(),
        }
    }
}

impl Default for Settings {
    /// Nothing is set but the theme, which is light.
    fn default() -> (r: Self)
        ensures
            r.vintage_story_path is None,
            r.mods_path is None,
            r.api_username is None,
            r.api_password is None,
            r.theme@ == "light"@,
            r.default_mod_pack_location is None,
    {
        Settings {
            vintage_story_path: None,
            mods_path: None,
            api_username: None,
            api_password: None,
            theme: owned("light"),
            default_mod_pack_location: None,
        }
    }
}

} // verus!
