//! The tray menu's state.

use vstd::prelude::*;
use crate::state::Settings;

verus! {

/// Whether the "pause watching" menu item is checked for these settings: checked
/// exactly when the clipboard is not watched.
pub fn sync_pause_check(settings: &Settings) -> (checked: bool)
    ensures
        checked == !settings.watch_enabled,
{
    !settings.watch_enabled
}

/// Toggles watching from the tray: the new settings have watching flipped and
/// everything else kept.
pub fn toggle_watch(settings: &mut Settings)
    ensures
        final(settings).watch_enabled == !old(settings).watch_enabled,
        final(settings).device_name == old(settings).device_name,
        final(settings).notify_preview == old(settings).notify_preview,
        final(settings).system_notification == old(settings).system_notification,
        final(settings).save_history == old(settings).save_history,
        final(settings).retention_days == old(settings).retention_days,
        final(settings).max_items == old(settings).max_items,
{
    settings.watch_enabled = !settings.watch_enabled;
}

} // verus!
