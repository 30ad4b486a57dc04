//! The persisted settings: the letters of the global shortcuts and the folder that
//! screenshots are saved in, with the checks made before they are stored.
use vstd::prelude::*;
use vstd::string::StringExecFns;

verus! {

/// The stored settings. Each shortcut is the letter pressed with the modifier.
pub struct Settings {
    pub quick: String,
    pub newscreenshot: String,
    pub save: String,
    pub pen: String,
    pub rubber: String,
    pub path: String,
}

/// Why settings were not accepted.
#[derive(Clone, Copy, Debug, PartialEq, Eq, Structural)]
pub enum SettingsError {
    /// The save folder does not exist.
    PathMissing,
    /// A shortcut has no letter.
    EmptyHotkey,
}

impl SettingsError {
    /// A sentence that describes the error to the user.
    pub fn message(&self) -> &'static str {
        match self {
            SettingsError::PathMissing => "Path does not exist",
            SettingsError::EmptyHotkey => "Hotkey must be at least 1 character long",
        }
    }
}

/// The shortcuts of the application.
#[derive(Clone, Copy, Debug, PartialEq, Eq, Structural)]
pub enum KeyType {
    Quick,
    NewScreenshot,
    Save,
    Pen,
    Rubber,
}

/// Which shortcuts are live: all of them once a screenshot is on display, only the
/// capture ones while waiting for one, none while paused.
#[derive(Clone, Copy, Debug, PartialEq, Eq, Structural)]
pub enum ActiveShortcuts {
    ScreenshotDone,
    ScreenshotWaiting,
    Pause,
}

pub open spec fn enabled_spec(state: ActiveShortcuts, key: KeyType) -> bool {
    match state {
        ActiveShortcuts::ScreenshotDone => true,
        ActiveShortcuts::ScreenshotWaiting => key == KeyType::Quick || key == KeyType::NewScreenshot,
        ActiveShortcuts::Pause => false,
    }
}

impl ActiveShortcuts {
    /// Whether the shortcut `key` is live in this state.
    pub fn is_enabled(&self, key: KeyType) -> (r: bool)
        ensures
            r == enabled_spec(*self, key),
    {
        match self {
            ActiveShortcuts::ScreenshotDone => true,
            ActiveShortcuts::ScreenshotWaiting => match key {
                KeyType::Quick => true,
                KeyType::NewScreenshot => true,
                _ => false,
            },
            ActiveShortcuts::Pause => false,
        }
    }
}

impl Settings {
    /// The letters Q, N, S, P and R, and the current folder.
    pub fn new_default() -> (r: Settings)
        ensures
            r.quick@ == "Q"@,
            r.newscreenshot@ == "N"@,
            r.save@ == "S"@,
            r.pen@ == "P"@,
            r.rubber@ == "R"@,
            r.path@ == "./"@,
    {
        Settings {
            quick: String::from_str("Q"),
            newscreenshot: String::from_str("N"),
            save: String::from_str("S"),
            pen: String::from_str("P"),
            rubber: String::from_str("R"),
            path: String::from_str("./"),
        }
    }

    /// The folder that screenshots are saved in.
    pub fn get_path(&self) -> (r: String)
        ensures
            r@ == self.path@,
    {
        self.path.clone()
    }

    /// The letter of the shortcut `key`.
    pub fn letter(&self, key: KeyType) -> (r: &String)
        ensures
            r@ == self.letter_spec(key),
    {
        match key {
            KeyType::Quick => &self.quick,
            KeyType::NewScreenshot => &self.newscreenshot,
            KeyType::Save => &self.save,
            KeyType::Pen => &self.pen,
            KeyType::Rubber => &self.rubber,
        }
    }

    pub open spec fn letter_spec(&self, key: KeyType) -> Seq<char> {
        match key {
            KeyType::Quick => self.quick@,
            KeyType::NewScreenshot => self.newscreenshot@,
            KeyType::Save => self.save@,
            KeyType::Pen => self.pen@,
            KeyType::Rubber => self.rubber@,
        }
    }

    /// The name of the key code of the shortcut `key`: `Key` followed by its letter.
    pub fn hotkey_name(&self, key: KeyType) -> (r: String)
        ensures
            r@ == "Key"@ + self.letter_spec(key),
    {
        let l = self.letter(key);
        String::from_str("Key").concat(l.as_str())
    }

    /// Checks settings before they are stored: the save folder must exist (the caller
    /// says whether it does) and every shortcut must have a letter.
    pub fn validate(&self, path_exists: bool) -> (r: Result<(), SettingsError>)
        ensures
            !path_exists ==> r == Err::<(), SettingsError>(SettingsError::PathMissing),
            path_exists ==> (r == if self.quick@.len() == 0 || self.newscreenshot@.len() == 0 || self.save@.len()
                == 0 || self.pen@.len() == 0 || self.rubber@.len() == 0 {
                Err::<(), SettingsError>(SettingsError::EmptyHotkey)
            } else {
                Ok::<(), SettingsError>(())
            }),
    {
        if !path_exists {
            return Err(SettingsError::PathMissing);
        }
        if self.quick.as_str().is_empty() || self.newscreenshot.as_str().is_empty() || self.save.as_str().is_empty()
            || self.pen.as_str().is_empty() || self.rubber.as_str().is_empty() {
            Err(SettingsError::EmptyHotkey)
        } else {
            Ok(())
        }
    }
}

impl Default for Settings {
    /// The letters Q, N, S, P and R, and the current folder.
    fn default() -> (r: Settings)
        ensures
            r.quick@ == "Q"@,
            r.newscreenshot@ == "N"@,
            r.save@ == "S"@,
            r.pen@ == "P"@,
            r.rubber@ == "R"@,
            r.path@ == "./"@,
    {
        Settings::new_default()
    }
}

} // verus!
