//! Plain data carried by the remote status-notifier item protocol: raw icon
//! pixmaps and the tooltip structure.

use vstd::prelude::*;

verus! {

/// One icon image offered by a remote item: 32-bit samples in A,R,G,B byte
/// order, row-major, no padding.
pub struct Pixmap {
    pub width: i32,
    pub height: i32,
    pub image_data: Vec<u8>,
}

/// The remote item's tooltip: an icon (by name or data), a title, and a
/// descriptive text.
pub struct ToolTip {
    pub icon_name: String,
    pub icon_data: Vec<Pixmap>,
    pub title: String,
    pub description: String,
}

} // verus!
