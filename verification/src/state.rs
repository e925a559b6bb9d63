//! User settings and their defaults.

use vstd::prelude::*;
use crate::text::trim_both;

verus! {

/// The user's settings.
#[derive(Clone, Debug)]
pub struct Settings {
    pub device_name: String,
    pub watch_enabled: bool,
    pub notify_preview: bool,
    pub system_notification: bool,
    pub save_history: bool,
    pub retention_days: i64,
    pub max_items: i64,
}

impl Default for Settings {
    fn default() -> (s: Settings)
        ensures
            s.device_name@.len() == 0,
            s.watch_enabled,
            s.notify_preview,
            s.system_notification,
            s.save_history,
            s.retention_days == 7,
            s.max_items == 1000,
    {
        Settings {
            device_name: String::new(),
            watch_enabled: true,
            notify_preview: true,
            system_notification: true,
            save_history: true,
            retention_days: 7,
            max_items: 1000,
        }
    }
}

/// The settings with a device name: a blank name (empty once trimmed) is replaced
/// by `default_name`; everything else is kept.
pub fn with_default_name(settings: Settings, default_name: &str) -> (r: Settings)
    ensures
        trim_both(settings.device_name@, false).len() == 0 ==> r.device_name@ == default_name@,
        trim_both(settings.device_name@, false).len() != 0 ==> r.device_name@ == settings.device_name@,
        r.watch_enabled == settings.watch_enabled,
        r.notify_preview == settings.notify_preview,
        r.system_notification == settings.system_notification,
        r.save_history == settings.save_history,
        r.retention_days == settings.retention_days,
        r.max_items == settings.max_items,
{
    let mut s = settings;
    let trimmed = crate::text::trim_str(s.device_name.as_str());
    if trimmed.as_str().is_empty() {
        s.device_name = default_name.to_owned();
    }
    s
}

} // verus!
