//! Plugin-wide settings: backgrounds and timing parameters.
use vstd::prelude::*;
use crate::keyed_map::KeyedMap;
use crate::text::opt_view;

verus! {

/// Fallback values for settings that `settings.json` leaves out.
pub fn default_keepalive_interval_secs() -> (r: u64)
    ensures
        r == 10,
{
    10
}

pub fn default_brightness() -> (r: u8)
    ensures
        r == 100,
{
    100
}

pub fn default_profile_retry_window_ms() -> (r: u64)
    ensures
        r == 500,
{
    500
}

pub fn default_profile_retry_interval_ms() -> (r: u64)
    ensures
        r == 50,
{
    50
}

pub fn default_settings_refresh_interval_ms() -> (r: u64)
    ensures
        r == 500,
{
    500
}

/// Plugin-wide settings and backgrounds, as kept in `settings.json`.
pub struct PluginConfig {
    /// Background shown when the active profile has none of its own.
    pub base_background: Option<String>,
    pub profile_backgrounds: KeyedMap<String>,
    /// How often to send a keepalive pulse to a connected device, in seconds.
    pub keepalive_interval_secs: u64,
    /// Brightness applied when a device first connects, in percent.
    pub default_brightness: u8,
    /// How long to wait for OpenDeck's profile-selection file after a profile switch, in ms.
    pub profile_retry_window_ms: u64,
    /// How often to poll that file meanwhile, in ms.
    pub profile_retry_interval_ms: u64,
    /// How often the settings window polls for changes, in ms.
    pub settings_refresh_interval_ms: u64,
}

/// What a device shows behind its keys.
#[derive(Debug, PartialEq, Eq)]
pub enum BackgroundChoice {
    /// Draw this image (a data URL).
    Apply(String),
    /// Clear the background layer.
    Clear,
}

impl PluginConfig {
    /// True when the settings are the built-in defaults.
    pub open spec fn is_default(&self) -> bool {
        &&& self.base_background is None
        &&& self.profile_backgrounds@ == Map::<Seq<char>, String>::empty()
        &&& self.keepalive_interval_secs == 10
        &&& self.default_brightness == 100
        &&& self.profile_retry_window_ms == 500
        &&& self.profile_retry_interval_ms == 50
        &&& self.settings_refresh_interval_ms == 500
    }

    /// The built-in settings, used when `settings.json` does not exist yet.
    pub fn default() -> (r: Self)
        ensures
            r.is_default(),
    {
        PluginConfig {
            base_background: None,
            profile_backgrounds: KeyedMap::new(),
            keepalive_interval_secs: default_keepalive_interval_secs(),
            default_brightness: default_brightness(),
            profile_retry_window_ms: default_profile_retry_window_ms(),
            profile_retry_interval_ms: default_profile_retry_interval_ms(),
            settings_refresh_interval_ms: default_settings_refresh_interval_ms(),
        }
    }

    /// The keepalive period, in seconds.
    pub fn keepalive_interval(&self) -> (r: u64)
        ensures
            r == self.keepalive_interval_secs,
    {
        self.keepalive_interval_secs
    }

    /// The profile-change retry window, in milliseconds.
    pub fn profile_retry_window(&self) -> (r: u64)
        ensures
            r == self.profile_retry_window_ms,
    {
        self.profile_retry_window_ms
    }

    /// The profile-change polling period, in milliseconds.
    pub fn profile_retry_interval(&self) -> (r: u64)
        ensures
            r == self.profile_retry_interval_ms,
    {
        self.profile_retry_interval_ms
    }

    /// The settings-window refresh period, in milliseconds.
    pub fn settings_refresh_interval(&self) -> (r: u64)
        ensures
            r == self.settings_refresh_interval_ms,
    {
        self.settings_refresh_interval_ms
    }

    /// The background configured for `profile`: its own, else the base background.
    pub open spec fn background_of(&self, profile: Seq<char>) -> Option<Seq<char>> {
        if self.profile_backgrounds@.dom().contains(profile) {
            Some(self.profile_backgrounds@[profile]@)
        } else {
            match self.base_background {
                Some(b) => Some(b@),
                None => None,
            }
        }
    }

    /// The background configured for `profile`: its own, else the base background.
    pub fn background_for_profile(&self, profile: &str) -> (r: Option<String>)
        ensures
            match r {
                Some(b) => self.background_of(profile@) == Some(b@),
                None => self.background_of(profile@) is None,
            },
    {
        match self.profile_backgrounds.get(profile) {
            Some(b) => Some(b.clone()),
            None => match &self.base_background {
                Some(b) => Some(b.clone()),
                None => None,
            },
        }
    }

    /// Sets the base background.
    pub fn set_base(&mut self, data_url: String)
        ensures
            final(self).base_background == Some(data_url),
            final(self).profile_backgrounds@ == old(self).profile_backgrounds@,
            final(self).same_timing(*old(self)),
    {
        self.base_background = Some(data_url);
    }

    /// Removes the base background.
    pub fn clear_base(&mut self)
        ensures
            final(self).base_background is None,
            final(self).profile_backgrounds@ == old(self).profile_backgrounds@,
            final(self).same_timing(*old(self)),
    {
        self.base_background = None;
    }

    /// Sets the background of one profile.
    pub fn set_profile(&mut self, profile: String, data_url: String)
        ensures
            final(self).profile_backgrounds@ == old(self).profile_backgrounds@.insert(profile@, data_url),
            final(self).base_background == old(self).base_background,
            final(self).same_timing(*old(self)),
    {
        self.profile_backgrounds.insert(profile, data_url);
    }

    /// Removes the background of one profile, so that it falls back to the base one.
    pub fn clear_profile(&mut self, profile: &str)
        ensures
            final(self).profile_backgrounds@ == old(self).profile_backgrounds@.remove(profile@),
            final(self).base_background == old(self).base_background,
            final(self).same_timing(*old(self)),
    {
        self.profile_backgrounds.remove(profile);
    }

    /// The timing and brightness settings of two configurations agree.
    pub open spec fn same_timing(&self, other: PluginConfig) -> bool {
        &&& self.keepalive_interval_secs == other.keepalive_interval_secs
        &&& self.default_brightness == other.default_brightness
        &&& self.profile_retry_window_ms == other.profile_retry_window_ms
        &&& self.profile_retry_interval_ms == other.profile_retry_interval_ms
        &&& self.settings_refresh_interval_ms == other.settings_refresh_interval_ms
    }
}

/// An empty data URL counts as no background: the layer is cleared.
pub open spec fn spec_background_choice(background: Option<Seq<char>>) -> Option<Seq<char>> {
    match background {
        Some(b) => if b.len() > 0 { Some(b) } else { None },
        None => None,
    }
}

/// Decides what to draw for a configured background: a non-empty image is applied,
/// anything else clears the layer.
pub fn background_choice(background: Option<String>) -> (r: BackgroundChoice)
    ensures
        match r {
            BackgroundChoice::Apply(b) => spec_background_choice(opt_view(background)) == Some(b@),
            BackgroundChoice::Clear => spec_background_choice(opt_view(background)) is None,
        },
{
    match background {
        Some(b) => {
            if !b.as_str().is_empty() {
                BackgroundChoice::Apply(b)
            } else {
                BackgroundChoice::Clear
            }
        },
        None => BackgroundChoice::Clear,
    }
}

/// A profile's own background is what is read back for it after it was set.
pub proof fn lemma_set_profile_then_read(c: PluginConfig, d: PluginConfig, profile: Seq<char>, url: String)
    requires
        d.profile_backgrounds@ == c.profile_backgrounds@.insert(profile, url),
        d.base_background == c.base_background,
    ensures
        d.background_of(profile) == Some(url@),
        forall|other: Seq<char>| other != profile ==> #[trigger] d.background_of(other) == c.background_of(other),
{
}

/// Once a profile's own background is cleared, that profile shows the base background.
pub proof fn lemma_clear_profile_falls_back(c: PluginConfig, d: PluginConfig, profile: Seq<char>)
    requires
        d.profile_backgrounds@ == c.profile_backgrounds@.remove(profile),
        d.base_background == c.base_background,
    ensures
        d.background_of(profile) == (match c.base_background {
            Some(b) => Some(b@),
            None => None::<Seq<char>>,
        }),
        forall|other: Seq<char>| other != profile ==> #[trigger] d.background_of(other) == c.background_of(other),
{
}

/// Changing the base background changes what every profile without a background of
/// its own shows, and nothing else.
pub proof fn lemma_set_base_affects_only_fallback(c: PluginConfig, d: PluginConfig, url: String)
    requires
        d.profile_backgrounds@ == c.profile_backgrounds@,
        d.base_background == Some(url),
    ensures
        forall|p: Seq<char>| #[trigger] d.background_of(p) == if c.profile_backgrounds@.dom().contains(p) {
            c.background_of(p)
        } else {
            Some(url@)
        },
{
}

} // verus!
