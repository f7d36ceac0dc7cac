use vstd::prelude::*;

use crate::client::ClientId;
use crate::geometry::Geometry;
use crate::tag::Tag;
use crate::tagset::Tagset;

verus! {

/// The optional status bar.
#[derive(Debug, Clone, Copy, PartialEq, Eq, Default, Structural)]
pub struct Bar {
    /// The bar window.
    pub window: Option<u32>,
    /// Whether the bar should be shown and managed.
    pub show: bool,
    /// Whether the bar is displayed at the top.
    pub top: bool,
}

impl Bar {
    /// A bar without a window yet.
    pub fn new(show: bool, top: bool) -> (r: Bar)
        ensures
            r == (Bar { window: None, show, top }),
    {
        Bar { window: None, show, top }
    }
}

/// A screen region hosting a fixed set of tags.
#[derive(Debug)]
pub struct Monitor {
    /// The index of the monitor.
    pub id: u8,
    /// Where the monitor lies in screen space.
    pub dimensions: Geometry,
    /// The tags currently selected.
    pub selected_tagset: Tagset,
    /// The tags that exist.
    pub tagset: Tagset,
    /// The tags of this monitor; clients are placed on the first.
    pub tags: Vec<Tag>,
    /// The focused client, if any.
    pub selection: Option<ClientId>,
    /// The previously focused client, if any.
    pub last_selection: Option<ClientId>,
    /// The status bar.
    pub bar: Bar,
}

} // verus!
