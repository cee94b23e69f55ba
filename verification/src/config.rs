//! Application configuration values, and the shape they are handed to the
//! shell in.  Reading and writing the configuration file belongs to the
//! caller.

use vstd::prelude::*;

verus! {

/// The application's configuration.
#[derive(Debug)]
pub struct AppConfig {
    /// UI language code.
    pub language: String,
    /// UI theme name.
    pub theme: String,
    /// The last opened project's id.
    pub last_project_id: Option<String>,
    /// Window width in pixels.
    pub window_width: u32,
    /// Window height in pixels.
    pub window_height: u32,
    /// Maximum dialogue line length for injection.
    pub max_line_length: Option<usize>,
}

impl Default for AppConfig {
    /// The out-of-the-box configuration.
    fn default() -> (r: Self)
        ensures
            r.language@ == "en"@,
            r.theme@ == "system"@,
            r.last_project_id is None,
            r.window_width == 1280,
            r.window_height == 800,
            r.max_line_length == Some(55usize),
    {
        AppConfig {
            language: String::from_str("en"),
            theme: String::from_str("system"),
            last_project_id: None,
            window_width: 1280,
            window_height: 800,
            max_line_length: Some(55),
        }
    }
}

impl AppConfig {
    /// The out-of-the-box configuration.
    pub fn new() -> (r: Self)
        ensures
            r.language@ == "en"@,
            r.theme@ == "system"@,
            r.window_width == 1280,
            r.window_height == 800,
    {
        Self::default()
    }

    /// Replace the UI language.
    pub fn set_language(&mut self, language: &str)
        ensures
            final(self).language@ == language@,
            final(self).theme == old(self).theme,
            final(self).last_project_id == old(self).last_project_id,
            final(self).window_width == old(self).window_width,
            final(self).window_height == old(self).window_height,
            final(self).max_line_length == old(self).max_line_length,
    {
        self.language = String::from_str(language);
    }

    /// Replace the UI theme.
    pub fn set_theme(&mut self, theme: &str)
        ensures
            final(self).theme@ == theme@,
            final(self).language == old(self).language,
            final(self).last_project_id == old(self).last_project_id,
            final(self).window_width == old(self).window_width,
            final(self).window_height == old(self).window_height,
            final(self).max_line_length == old(self).max_line_length,
    {
        self.theme = String::from_str(theme);
    }

    /// Replace the last opened project id.
    pub fn set_last_project(&mut self, project_id: Option<&str>)
        ensures
            match project_id {
                Some(p) => final(self).last_project_id matches Some(v) && v@ == p@,
                None => final(self).last_project_id is None,
            },
            final(self).language == old(self).language,
            final(self).theme == old(self).theme,
    {
        self.last_project_id = match project_id {
            Some(p) => Some(String::from_str(p)),
            None => None,
        };
    }

    /// Replace the window size.
    pub fn set_window_size(&mut self, width: u32, height: u32)
        ensures
            final(self).window_width == width,
            final(self).window_height == height,
            final(self).language == old(self).language,
            final(self).theme == old(self).theme,
            final(self).last_project_id == old(self).last_project_id,
            final(self).max_line_length == old(self).max_line_length,
    {
        self.window_width = width;
        self.window_height = height;
    }
}

/// The configuration as handed to the shell.
#[derive(Debug)]
pub struct ConfigResponse {
    /// UI language code.
    pub language: String,
    /// UI theme name.
    pub theme: String,
    /// The last opened project's id.
    pub last_project_id: Option<String>,
    /// Window width in pixels.
    pub window_width: u32,
    /// Window height in pixels.
    pub window_height: u32,
    /// Maximum dialogue line length for injection.
    pub max_line_length: Option<usize>,
}

impl From<AppConfig> for ConfigResponse {
    /// Carry every configuration field over unchanged.
    fn from(config: AppConfig) -> (r: ConfigResponse) {
        ConfigResponse {
            language: config.language,
            theme: config.theme,
            last_project_id: config.last_project_id,
            window_width: config.window_width,
            window_height: config.window_height,
            max_line_length: config.max_line_length,
        }
    }
}

impl vstd::std_specs::convert::FromSpecImpl<AppConfig> for ConfigResponse {
    open spec fn obeys_from_spec() -> bool {
        true
    }

    open spec fn from_spec(v: AppConfig) -> ConfigResponse {
        ConfigResponse {
            language: v.language,
            theme: v.theme,
            last_project_id: v.last_project_id,
            window_width: v.window_width,
            window_height: v.window_height,
            max_line_length: v.max_line_length,
        }
    }
}

} // verus!
