//! The settings and colours of the clock face (`eink-clock`), and the settings of
//! `setbackside`.
use vstd::prelude::*;

use crate::server::Theme;

verus! {

/// The clock's settings, as read from `server.toml`.
#[derive(Clone, Copy, Debug)]
pub struct Config {
    pub flip: Option<bool>,
    pub theme: Option<Theme>,
}

impl Config {
    /// Whether the face is turned by 180 degrees (unset: no).
    pub fn is_flipped(&self) -> (b: bool)
        ensures
            b == (self.flip == Some(true)),
    {
        match self.flip {
            Some(f) => f,
            None => false,
        }
    }

    /// Whether the dark theme is chosen (unset: yes).
    pub fn is_dark(&self) -> (b: bool)
        ensures
            b == (self.theme != Some(Theme::Light)),
    {
        match self.theme {
            Some(Theme::Light) => false,
            _ => true,
        }
    }

    /// Grey levels of the background and of the digits.
    pub fn colors(&self) -> (r: (u8, u8))
        ensures
            self.theme != Some(Theme::Light) ==> r == (10u8, 245u8),
            self.theme == Some(Theme::Light) ==> r == (230u8, 0u8),
    {
        if self.is_dark() {
            (10, 245)
        } else {
            (230, 0)
        }
    }
}

/// Seconds until the next minute begins, from the current second (0 to 59).
pub fn seconds_to_next_minute(second: u32) -> (r: u64)
    requires
        second < 60,
    ensures
        r == 60 - second,
        1 <= r <= 60,
{
    (60 - second) as u64
}

/// The settings of `setbackside`, as read from `server.toml` (other keys are ignored).
#[derive(Clone, Copy, Debug)]
pub struct BacksideConfig {
    pub flip: Option<bool>,
}

impl BacksideConfig {
    /// Whether the picture is turned by 180 degrees (unset: no).
    pub fn is_flipped(&self) -> (b: bool)
        ensures
            b == (self.flip == Some(true)),
    {
        match self.flip {
            Some(f) => f,
            None => false,
        }
    }
}

} // verus!
