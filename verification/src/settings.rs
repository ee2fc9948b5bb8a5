//! General application settings and how a partial update applies to them.
use crate::text::str_eq;
use vstd::prelude::*;

verus! {

/// Application-wide settings shown in the settings window.
#[derive(Debug)]
pub struct AppSettings {
    pub revision: u64,
    pub theme: String,
    pub language: String,
    pub play_mode: String,
    pub minimize_to_tray: bool,
    pub download_directory: String,
}

impl Clone for AppSettings {
    fn clone(&self) -> (r: Self)
        ensures
            r == *self,
    {
        AppSettings {
            revision: self.revision,
            theme: self.theme.clone(),
            language: self.language.clone(),
            play_mode: self.play_mode.clone(),
            minimize_to_tray: self.minimize_to_tray,
            download_directory: self.download_directory.clone(),
        }
    }
}

/// A partial update of the general settings; absent fields keep their value.
#[derive(Debug)]
pub struct AppSettingsPatch {
    pub theme: Option<String>,
    pub language: Option<String>,
    pub play_mode: Option<String>,
    pub minimize_to_tray: Option<bool>,
}

impl AppSettingsPatch {
    /// The update that changes nothing.
    pub fn empty() -> (r: Self)
        ensures
            r.theme is None,
            r.language is None,
            r.play_mode is None,
            r.minimize_to_tray is None,
    {
        AppSettingsPatch { theme: None, language: None, play_mode: None, minimize_to_tray: None }
    }
}

pub open spec fn valid_theme(s: Seq<char>) -> bool {
    s == "auto"@ || s == "light"@ || s == "dark"@
}

pub open spec fn valid_language(s: Seq<char>) -> bool {
    s == "zh"@ || s == "en"@
}

pub open spec fn valid_play_mode(s: Seq<char>) -> bool {
    s == "sequential"@ || s == "random"@ || s == "repeat_one"@ || s == "repeat_all"@
}

/// The first problem of a patch, in the order the fields are checked.
pub open spec fn patch_error(p: AppSettingsPatch) -> Option<Seq<char>> {
    if p.theme matches Some(t) && !valid_theme(t@) {
        Some("Invalid theme"@)
    } else if p.language matches Some(l) && !valid_language(l@) {
        Some("Invalid interface language"@)
    } else if p.play_mode matches Some(m) && !valid_play_mode(m@) {
        Some("Invalid play mode"@)
    } else {
        None
    }
}

/// The settings with the fields that `patch` carries replaced and the
/// revision advanced by one.
pub open spec fn apply_patch(s: AppSettings, p: AppSettingsPatch) -> AppSettings {
    AppSettings {
        revision: (s.revision + 1) as u64,
        theme: match p.theme {
            Some(t) => t,
            None => s.theme,
        },
        language: match p.language {
            Some(l) => l,
            None => s.language,
        },
        play_mode: match p.play_mode {
            Some(m) => m,
            None => s.play_mode,
        },
        minimize_to_tray: match p.minimize_to_tray {
            Some(b) => b,
            None => s.minimize_to_tray,
        },
        download_directory: s.download_directory,
    }
}

impl AppSettings {
    /// These settings with `patch` applied and the revision advanced by one.
    pub fn patched(&self, patch: AppSettingsPatch) -> (r: Result<Self, String>)
        ensures
            match r {
                Ok(next) => {
                    &&& patch_error(patch) is None
                    &&& self.revision < u64::MAX
                    &&& next == apply_patch(*self, patch)
                },
                Err(e) => match patch_error(patch) {
                    Some(m) => e@ == m,
                    None => self.revision == u64::MAX && e@ == "Settings revision overflow"@,
                },
            },
    {
        proof {
            reveal_strlit("auto");
            reveal_strlit("light");
            reveal_strlit("dark");
            reveal_strlit("zh");
            reveal_strlit("en");
            reveal_strlit("sequential");
            reveal_strlit("random");
            reveal_strlit("repeat_one");
            reveal_strlit("repeat_all");
            reveal_strlit("Invalid theme");
            reveal_strlit("Invalid interface language");
            reveal_strlit("Invalid play mode");
            reveal_strlit("Settings revision overflow");
        }
        let mut next = self.clone();
        if let Some(theme) = patch.theme {
            if !(str_eq(theme.as_str(), "auto") || str_eq(theme.as_str(), "light") || str_eq(
                theme.as_str(),
                "dark",
            )) {
                return Err(String::from_str("Invalid theme"));
            }
            next.theme = theme;
        }
        if let Some(language) = patch.language {
            if !(str_eq(language.as_str(), "zh") || str_eq(language.as_str(), "en")) {
                return Err(String::from_str("Invalid interface language"));
            }
            next.language = language;
        }
        if let Some(mode) = patch.play_mode {
            if !(str_eq(mode.as_str(), "sequential") || str_eq(mode.as_str(), "random") || str_eq(
                mode.as_str(),
                "repeat_one",
            ) || str_eq(mode.as_str(), "repeat_all")) {
                return Err(String::from_str("Invalid play mode"));
            }
            next.play_mode = mode;
        }
        if let Some(enabled) = patch.minimize_to_tray {
            next.minimize_to_tray = enabled;
        }
        if self.revision == u64::MAX {
            return Err(String::from_str("Settings revision overflow"));
        }
        next.revision = self.revision + 1;
        Ok(next)
    }
}

} // verus!
