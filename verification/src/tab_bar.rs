//! Tab bars of tabbed containers: what a tab shows, and the room a tab bar
//! leaves for the client below it.
use crate::geometry::{Point, Rectangle, Size};
use crate::window::WindowId;
use vstd::prelude::*;

verus! {

/// Tab bar height in logical pixels
pub const TAB_BAR_HEIGHT: i32 = 30;

/// Information about a single tab
#[derive(Debug, Clone)]
pub struct TabInfo {
    pub window_id: WindowId,
    pub title: String,
    pub app_id: Option<String>,
    pub is_active: bool,
}

/// Calculate the client area for a tabbed container (excluding tab bar)
pub fn calculate_client_area(container_geometry: Rectangle) -> (r: Rectangle)
    requires
        container_geometry.loc.y + TAB_BAR_HEIGHT <= i32::MAX,
        container_geometry.size.h - TAB_BAR_HEIGHT >= i32::MIN,
    ensures
        r.loc.x == container_geometry.loc.x,
        r.loc.y == container_geometry.loc.y + TAB_BAR_HEIGHT,
        r.size.w == container_geometry.size.w,
        r.size.h == container_geometry.size.h - TAB_BAR_HEIGHT,
{
    Rectangle {
        loc: Point { x: container_geometry.loc.x, y: container_geometry.loc.y + TAB_BAR_HEIGHT },
        size: Size { w: container_geometry.size.w, h: container_geometry.size.h - TAB_BAR_HEIGHT },
    }
}

} // verus!
