//! The pop-up shown when content arrives: its payload and its place on screen.

use vstd::prelude::*;
use crate::commands::HistoryItemView;
use crate::storage::ClipboardItem;

verus! {

/// What the pop-up window is sent for a new item.
#[derive(Clone, Debug)]
pub struct IncomingPayload {
    pub item: HistoryItemView,
    /// Whether the preview text may be shown.
    pub preview_allowed: bool,
}

/// The pop-up payload for a received `item`: its view, marked persistent only
/// when it was saved, and whether the preview may be shown.
pub fn incoming_payload(item: &ClipboardItem, saved: bool, notify_preview: bool) -> (p: IncomingPayload)
    ensures
        p.item.shows(item, saved),
        p.preview_allowed == notify_preview,
{
    let mut v = crate::commands::item_view(item);
    v.persistent = saved;
    IncomingPayload { item: v, preview_allowed: notify_preview }
}

/// A monitor: position and size in physical pixels.
#[derive(Clone, Copy, Debug)]
pub struct MonitorArea {
    pub x: i32,
    pub y: i32,
    pub width: u32,
    pub height: u32,
}

/// Where the pop-up goes: 16 pixels in from the top-right corner of the primary
/// monitor (a 1920x1080 screen at the origin when none is known), for a window of
/// the given size (400x230 when unknown). Sizes are taken as `i32` the way `as`
/// casts them.
pub open spec fn spec_popup_position(monitor: Option<MonitorArea>, size: Option<(u32, u32)>) -> (int, int) {
    let m = match monitor {
        Some(m) => m,
        None => MonitorArea { x: 0, y: 0, width: 1920, height: 1080 },
    };
    let w = match size {
        Some(s) => s.0,
        None => 400u32,
    };
    (m.x + (m.width as i32) - (w as i32) - 16, m.y + 16)
}

/// The pop-up's position (see [`spec_popup_position`]); the sums must fit in `i32`.
pub fn popup_position(monitor: Option<MonitorArea>, size: Option<(u32, u32)>) -> (r: (i32, i32))
    requires
        i32::MIN <= spec_popup_position(monitor, size).0 <= i32::MAX,
        i32::MIN <= spec_popup_position(monitor, size).1 <= i32::MAX,
        ({
            let m = match monitor {
                Some(m) => m,
                None => MonitorArea { x: 0, y: 0, width: 1920, height: 1080 },
            };
            i32::MIN <= m.x + (m.width as i32) <= i32::MAX
        }),
    ensures
        r.0 == spec_popup_position(monitor, size).0,
        r.1 == spec_popup_position(monitor, size).1,
{
    let m = match monitor {
        Some(m) => m,
        None => MonitorArea { x: 0, y: 0, width: 1920, height: 1080 },
    };
    let w: u32 = match size {
        Some(s) => s.0,
        None => 400,
    };
    let mw = m.width as i32;
    let ww = w as i32;
    let a = m.x + mw;
    let x = (a as i64 - ww as i64 - 16) as i32;
    (x, m.y + 16)
}

} // verus!
