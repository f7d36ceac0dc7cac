use vstd::prelude::*;

use crate::geometry::Geometry;

verus! {

/// A stable handle of a managed client, valid for the lifetime of the process.
#[derive(Debug, Clone, Copy, PartialEq, Eq, Hash, Structural)]
pub struct ClientId(pub u64);

/// Whether `k` is the first index of `ms` whose overlap with `c` is maximal.
pub open spec fn is_first_max(ms: Seq<Geometry>, c: Geometry, k: int) -> bool {
    &&& 0 <= k < ms.len()
    &&& forall|j: int| 0 <= j < ms.len() ==> #[trigger] ms[j].overlap_spec(c) <= ms[k].overlap_spec(c)
    &&& forall|j: int| 0 <= j < k ==> #[trigger] ms[j].overlap_spec(c) < ms[k].overlap_spec(c)
}

/// The index of the monitor this client should primarily be located on: the
/// first of `monitor_geoms` with the largest overlap, or zero when there is
/// none. An index past 255 is reported modulo 256.
pub fn find_monitor(client_geometry: Geometry, monitor_geoms: Vec<Geometry>) -> (r: u8)
    ensures
        monitor_geoms@.len() == 0 ==> r == 0,
        monitor_geoms@.len() > 0 ==> exists|k: int|
            is_first_max(monitor_geoms@, client_geometry, k) && r == k % 256,
{
    let n = monitor_geoms.len();
    if n == 0 {
        return 0;
    }
    let mut best: usize = 0;
    let mut best_overlap = monitor_geoms[0].overlap(client_geometry);
    let mut i: usize = 1;
    while i < n
        invariant
            n == monitor_geoms@.len(),
            1 <= i <= n,
            best < i,
            best_overlap == monitor_geoms@[best as int].overlap_spec(client_geometry),
            forall|j: int|
                0 <= j < i ==> #[trigger] monitor_geoms@[j].overlap_spec(client_geometry)
                    <= best_overlap,
            forall|j: int|
                0 <= j < best ==> #[trigger] monitor_geoms@[j].overlap_spec(client_geometry)
                    < best_overlap,
        decreases n - i,
    {
        let v = monitor_geoms[i].overlap(client_geometry);
        if v > best_overlap {
            best = i;
            best_overlap = v;
        }
        i += 1;
    }
    let r = (best % 256) as u8;
    assert(is_first_max(monitor_geoms@, client_geometry, best as int));
    r
}

/// A dimension size hint.
#[derive(Debug, Clone, Copy, PartialEq, Eq, Default, Structural)]
pub struct SizeDimensionHint {
    /// The width hint.
    pub width: u32,
    /// The height hint.
    pub height: u32,
}

/// The state flags of a client.
#[derive(Debug, Clone, Copy, PartialEq, Eq, Default, Structural)]
pub struct ClientState {
    /// Whether this client is in a fixed position.
    pub fixed: bool,
    /// Whether this client is floating.
    pub floating: bool,
    /// Whether this client is in an urgent status.
    pub urgent: bool,
    /// Whether this client should never focus.
    pub never_focus: bool,
    /// Whether this client is fullscreened.
    pub fullscreen: bool,
}

impl ClientState {
    /// All flags cleared.
    pub open spec fn none() -> ClientState {
        ClientState {
            fixed: false,
            floating: false,
            urgent: false,
            never_focus: false,
            fullscreen: false,
        }
    }

    /// All flags cleared.
    pub fn cleared() -> (r: ClientState)
        ensures
            r == ClientState::none(),
    {
        ClientState {
            fixed: false,
            floating: false,
            urgent: false,
            never_focus: false,
            fullscreen: false,
        }
    }
}

/// The record of one managed top-level window.
#[derive(Debug)]
pub struct Client {
    /// The handle of this record.
    pub id: ClientId,
    /// The window title when it was managed.
    pub name: String,
    /// The client's own window.
    pub window: u32,
    /// The decoration window; destroyed while the client is fullscreen.
    pub frame: u32,
    /// The current geometry.
    pub geometry: Geometry,
    /// The geometry before its most recent change.
    pub prev_geometry: Geometry,
    /// The geometry to return to when leaving fullscreen.
    pub original_geometry: Geometry,
    /// The state flags.
    pub state: ClientState,
    /// The state flags before their most recent change.
    pub prev_state: ClientState,
    /// Set while a fullscreen transition awaits the server's confirmation.
    pub transitioning: bool,
}

impl Client {
    /// A fresh record: geometry, previous and original geometry all `geometry`,
    /// every flag cleared.
    pub fn new(id: ClientId, name: String, window: u32, frame: u32, geometry: Geometry) -> (r:
        Client)
        ensures
            r.id == id,
            r.name == name,
            r.window == window,
            r.frame == frame,
            r.geometry == geometry,
            r.prev_geometry == geometry,
            r.original_geometry == geometry,
            r.state == ClientState::none(),
            r.prev_state == ClientState::none(),
            !r.transitioning,
    {
        Client {
            id,
            name,
            window,
            frame,
            geometry,
            prev_geometry: geometry,
            original_geometry: geometry,
            state: ClientState::cleared(),
            prev_state: ClientState::cleared(),
            transitioning: false,
        }
    }

    /// Whether this client is fullscreen.
    pub open spec fn is_fullscreen(self) -> bool {
        self.state.fullscreen
    }

    /// Replaces the geometry, keeping the old one as the previous geometry.
    pub fn set_geometry(&mut self, geometry: Geometry)
        ensures
            *final(self) == (Client { geometry, prev_geometry: old(self).geometry, ..*old(self) }),
    {
        self.prev_geometry = self.geometry;
        self.geometry = geometry;
    }

    /// Replaces the state flags, keeping the old ones as the previous state.
    pub fn set_state(&mut self, state: ClientState)
        ensures
            *final(self) == (Client { state, prev_state: old(self).state, ..*old(self) }),
    {
        self.prev_state = self.state;
        self.state = state;
    }

    /// Whether a notification about `event` and `child` concerns this client's window or frame.
    pub open spec fn targeted_by(self, event: u32, child: u32) -> bool {
        child == self.window || child == self.frame || event == self.window || event
            == self.frame
    }

    /// Whether a notification about `event` and `child` concerns this client's window or frame.
    pub fn is_targeted_by(&self, event: u32, child: u32) -> (r: bool)
        ensures
            r == self.targeted_by(event, child),
    {
        child == self.window || child == self.frame || event == self.window || event == self.frame
    }
}

} // verus!
