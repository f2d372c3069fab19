//! Verified logic of a prayer-times dashboard: Arabic shaping, the UI
//! translation tables, calendar and local-time arithmetic, prayer-time
//! parsing and the timeline around today, location search and selection,
//! WiFi credential rules and setup flow, the on-screen keyboard, screen
//! layouts and hit tests, the seven-segment clock, the touch sampling
//! sequence and the countdown zones.

use vstd::prelude::*;

pub mod about;
pub mod arabic;
pub mod dashboard;
pub mod framebuf;
pub mod keyboard;
pub mod language;
pub mod location;
pub mod location_setup;
pub mod prayer_times;
pub mod segdisplay;
pub mod settings;
pub mod settings_screen;
pub mod text;
pub mod time_utils;
pub mod timeline;
pub mod touch;
pub mod touch_calibration;
pub mod unicode;
pub mod wifi_credentials;
pub mod wifi_setup;
pub mod zone;
