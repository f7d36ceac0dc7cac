use vstd::prelude::*;

use crate::client::{Client, ClientId};
use crate::geometry::Geometry;
use crate::keybind::{KeybindAction, KeybindTriggered};
use crate::keyboard::{find_keybind_action_for, key_name, first_firing, mod_mask, mod_mask_of};
use crate::platform::{frame_corner, frame_position, Answer, RWMPlatform, Request, Server};
use crate::sequence::sweep;
use crate::wm::{manage_answered, Drag, ManageError, WindowManager};

verus! {

/// The pointer button that drags windows.
pub const PRIMARY_BUTTON: u8 = 1;

/// The crossing mode of an ordinary pointer motion, as opposed to a grab.
pub const NOTIFY_MODE_NORMAL: u8 = 0;

/// A protocol notification, reduced to the values the core reads.
#[derive(Debug, Clone, PartialEq, Eq)]
pub enum X11Event {
    /// A top-level window asks to be mapped; `geometry` is what the server reports for it.
    MapRequest { window: u32, geometry: Geometry },
    /// `window` was unmapped; `event` is the window the notification was reported on.
    UnmapNotify { event: u32, window: u32 },
    /// The pointer entered `event`.
    EnterNotify { event: u32, mode: u8 },
    /// The pointer moved to `(root_x, root_y)`.
    MotionNotify { root_x: i16, root_y: i16 },
    /// A button was pressed with modifier `state` at `(event_x, event_y)` relative to `event`.
    ButtonPress { detail: u8, state: u16, event: u32, child: u32, event_x: i16, event_y: i16 },
    /// A button was released.
    ButtonRelease { detail: u8, event: u32, child: u32 },
    /// A key was pressed; `keysym` is its first key symbol, if the server gave one.
    KeyPress { detail: u8, keysym: Option<u32>, state: u16 },
    /// `window` was mapped; `event` is the window the notification was reported on.
    MapNotify { event: u32, window: u32 },
    /// The server reported an error for an earlier request.
    Error,
    /// Any other notification; it is only checked against the ignored sequence numbers.
    Other,
}

/// What handling one notification came to.
#[derive(Debug)]
pub enum Outcome {
    /// The notification echoed one of the window manager's own requests.
    Ignored,
    /// The notification was handled.
    Handled,
    /// A window asked to be mapped; the result of managing it.
    Managed(Result<ClientId, ManageError>),
    /// A key binding fired; the events it raised.
    Keybind(Vec<KeybindTriggered>),
}

/// Whether `k` is the first client that a notification about `event` and `child` concerns.
pub open spec fn first_targeted(cs: Seq<Client>, event: u32, child: u32, k: int) -> bool {
    &&& 0 <= k < cs.len()
    &&& cs[k].targeted_by(event, child)
    &&& forall|j: int| 0 <= j < k ==> !(#[trigger] cs[j]).targeted_by(event, child)
}

/// Whether the client `c` is the one an unmap of `window` reported on `event`
/// removes: its own window went, and it is not a notification caused by its
/// frame during a fullscreen transition.
pub open spec fn unmapped_by(c: Client, event: u32, window: u32) -> bool {
    c.window == window && !(c.transitioning && (c.frame == event || c.frame == window))
}

/// Whether `k` is the first client that an unmap of `window` on `event` removes.
pub open spec fn first_unmapped(cs: Seq<Client>, event: u32, window: u32, k: int) -> bool {
    &&& 0 <= k < cs.len()
    &&& unmapped_by(cs[k], event, window)
    &&& forall|j: int| 0 <= j < k ==> !unmapped_by(#[trigger] cs[j], event, window)
}

/// Whether a release at `(px, py)` about `event` and `child` focuses `c`.
pub open spec fn focusable(c: Client, event: u32, child: u32, px: i32, py: i32) -> bool {
    c.targeted_by(event, child) && c.geometry.contains_spec(px as int, py as int)
}

/// Whether `k` is the first client a release at `(px, py)` focuses.
pub open spec fn first_focused(cs: Seq<Client>, event: u32, child: u32, px: i32, py: i32, k: int) -> bool {
    &&& 0 <= k < cs.len()
    &&& focusable(cs[k], event, child, px, py)
    &&& forall|j: int| 0 <= j < k ==> !focusable(#[trigger] cs[j], event, child, px, py)
}

/// Whether `k` is the first client whose window is `window`.
pub open spec fn first_with_window(cs: Seq<Client>, window: u32, k: int) -> bool {
    &&& 0 <= k < cs.len()
    &&& cs[k].window == window
    &&& forall|j: int| 0 <= j < k ==> (#[trigger] cs[j]).window != window
}

impl WindowManager {
    /// The effect of an unmap of `window` reported on `event`: the first
    /// client it removes is dropped; without one nothing changes.
    pub open spec fn unmap_effect(self, next: Self, event: u32, window: u32) -> bool {
        &&& next.dragging == self.dragging
        &&& forall|k: int| #[trigger]
            first_unmapped(self.clients@, event, window, k) ==> self.drop_effect(
                next,
                self.clients@[k].id,
            )
        &&& (forall|k: int|
            0 <= k < self.clients@.len() ==> !unmapped_by(#[trigger] self.clients@[k], event, window))
            ==> next == self
    }

    /// The requests an unmap of `window` reported on `event` makes: the
    /// window of the first client it removes goes back to the root.
    pub open spec fn unmap_requests(self, event: u32, window: u32) -> Seq<Request> {
        if exists|k: int| first_unmapped(self.clients@, event, window, k) {
            let k = choose|k: int| first_unmapped(self.clients@, event, window, k);
            seq![self.unmanage_request(self.clients@[k])]
        } else {
            Seq::empty()
        }
    }

    /// The effect of a map of `event`: every client whose frame it is has
    /// finished its transition; nothing else changes.
    pub open spec fn map_notify_effect(self, next: Self, event: u32) -> bool {
        &&& next.same_setting(self)
        &&& next.dragging == self.dragging
        &&& next.clients@.len() == self.clients@.len()
        &&& forall|i: int|
            0 <= i < self.clients@.len() ==> #[trigger] next.clients@[i] == if self.clients@[i].frame
                == event {
                Client { transitioning: false, ..self.clients@[i] }
            } else {
                self.clients@[i]
            }
    }

    /// The effect of a key press: when a binding fires, `events` holds one
    /// event per client carrying its action (one unaddressed event without
    /// clients), and those events are applied as fullscreen toggles; when
    /// none fires, nothing happens.
    pub open spec fn key_effect(
        self,
        next: Self,
        events: Seq<KeybindTriggered>,
        keysym: Option<u32>,
        detail: u8,
        state: u16,
        s0: Seq<Request>,
        s1: Seq<Request>,
    ) -> bool {
        match find_action(self.config, keysym, detail, state) {
            None => events.len() == 0 && next == self && s1 == s0,
            Some(a) => {
                &&& if self.clients@.len() == 0 {
                    events == seq![KeybindTriggered { action: a, client: None }]
                } else {
                    &&& events.len() == self.clients@.len()
                    &&& forall|i: int|
                        0 <= i < events.len() ==> #[trigger] events[i] == (KeybindTriggered {
                            action: a,
                            client: Some(self.clients@[i].id),
                        })
                }
                &&& exists|states: Seq<Self>, logs: Seq<Seq<Request>>| #[trigger]
                    self.batch_via(next, events, s0, s1, states, logs)
            },
        }
    }

    /// The requests a release of button `detail` makes, from log `s0` to
    /// `s1`: none unless the primary button ends a drag; then the pointer is
    /// read, and if the first client the release concerns under the pointer
    /// exists, the pointer is released and that client focused.
    pub open spec fn release_requests(
        self,
        detail: u8,
        event: u32,
        child: u32,
        s0: Seq<Request>,
        s1: Seq<Request>,
    ) -> bool {
        if detail != PRIMARY_BUTTON || self.dragging is None {
            s1 == s0
        } else {
            ||| s1 == s0.push(Request::QueryPointer { root: self.root })
            ||| exists|px: i32, py: i32, k: int|
                #[trigger] first_focused(self.clients@, event, child, px, py, k) && s1 == s0.push(
                    Request::QueryPointer { root: self.root },
                ).push(Request::UngrabMouse).push(
                    Request::Focus { window: self.clients@[k].window },
                )
        }
    }

    /// The requests a pointer entering `event` makes: focus the window and
    /// raise the frame of the first client with that window, unless the
    /// crossing is a grab on the root.
    pub open spec fn pointer_enter_requests(self, event: u32, mode: u8) -> Seq<Request> {
        if (mode != NOTIFY_MODE_NORMAL && event == self.root) || !(exists|k: int|
            first_with_window(self.clients@, event, k)) {
            Seq::empty()
        } else {
            let k = choose|k: int| first_with_window(self.clients@, event, k);
            seq![
                Request::Focus { window: self.clients@[k].window },
                Request::Raise { frame: self.clients@[k].frame },
            ]
        }
    }

    /// The request a pointer motion to `(root_x, root_y)` makes: the dragged
    /// client's frame moves to the new position, one border width up and left.
    pub open spec fn motion_requests(self, root_x: i16, root_y: i16) -> Seq<Request> {
        match self.dragging {
            Some(d) => if self.has_client(d.client) {
                let c = self.clients@[self.index_of(d.client)];
                let corner = frame_corner(
                    (d.offset_x + root_x) as i32,
                    (d.offset_y + root_y) as i32,
                    self.config.border.width,
                );
                seq![Request::MoveFrame { frame: c.frame, x: corner.0, y: corner.1 }]
            } else {
                Seq::empty()
            },
            None => Seq::empty(),
        }
    }

    /// The drag after a button press: it starts only for the primary button,
    /// with the modifier state exactly the configured modifier, while no drag
    /// is in progress, on a client that is not fullscreen; the offsets are the
    /// negated position of the press within the window.
    pub open spec fn drag_after_press(
        self,
        detail: u8,
        state: u16,
        event: u32,
        child: u32,
        event_x: i16,
        event_y: i16,
    ) -> Option<Drag> {
        let k = choose|k: int| first_targeted(self.clients@, event, child, k);
        if detail == PRIMARY_BUTTON && state == mod_mask_of(self.config.keyboard.mod_key@)
            && self.dragging is None && (exists|k: int| first_targeted(self.clients@, event, child, k))
            && !self.clients@[k].is_fullscreen() {
            Some(
                Drag {
                    client: self.clients@[k].id,
                    frame: self.clients@[k].frame,
                    offset_x: (-event_x) as i32,
                    offset_y: (-event_y) as i32,
                },
            )
        } else {
            self.dragging
        }
    }

    /// The effect of a pointer motion to `(root_x, root_y)`: the dragged client,
    /// if any, moves to the pointer plus the drag offsets, keeping its size.
    pub open spec fn motion_effect(self, next: Self, root_x: i16, root_y: i16) -> bool {
        &&& self.same_setting(next)
        &&& next.dragging == self.dragging
        &&& match self.dragging {
            Some(d) => if self.has_client(d.client) {
                let i = self.index_of(d.client);
                let c = self.clients@[i];
                next.clients@ == self.clients@.update(
                    i,
                    Client {
                        geometry: Geometry {
                            x: (d.offset_x + root_x) as i32,
                            y: (d.offset_y + root_y) as i32,
                            width: c.geometry.width,
                            height: c.geometry.height,
                        },
                        prev_geometry: c.geometry,
                        ..c
                    },
                )
            } else {
                next.clients == self.clients
            },
            None => next.clients == self.clients,
        }
    }

    /// The index of the first client a notification about `event` and `child` concerns.
    fn find_targeted(&self, event: u32, child: u32) -> (r: Option<usize>)
        ensures
            r matches Some(k) ==> first_targeted(self.clients@, event, child, k as int),
            r is None ==> forall|j: int|
                0 <= j < self.clients@.len() ==> !(#[trigger] self.clients@[j]).targeted_by(
                    event,
                    child,
                ),
    {
        let n = self.clients.len();
        let mut i: usize = 0;
        while i < n
            invariant
                n == self.clients@.len(),
                i <= n,
                forall|j: int| 0 <= j < i ==> !(#[trigger] self.clients@[j]).targeted_by(event, child),
            decreases n - i,
        {
            if self.clients[i].is_targeted_by(event, child) {
                return Some(i);
            }
            i += 1;
        }
        None
    }

    /// A button press: may start dragging a client's frame.
    pub fn handle_button_press(
        &mut self,
        detail: u8,
        state: u16,
        event: u32,
        child: u32,
        event_x: i16,
        event_y: i16,
    )
        requires
            old(self).wf(),
        ensures
            final(self).wf(),
            final(self).same_setting(*old(self)),
            final(self).clients == old(self).clients,
            final(self).dragging == old(self).drag_after_press(
                detail,
                state,
                event,
                child,
                event_x,
                event_y,
            ),
    {
        if detail != PRIMARY_BUTTON || state != mod_mask(&self.config.keyboard) {
            return ;
        }
        if self.dragging.is_some() {
            return ;
        }
        match self.find_targeted(event, child) {
            None => {},
            Some(k) => {
                proof {
                    let kk = choose|kk: int| first_targeted(self.clients@, event, child, kk);
                    assert(first_targeted(self.clients@, event, child, kk));
                    if kk < k {
                        assert(!self.clients@[kk].targeted_by(event, child));
                    } else if k < kk {
                        assert(!self.clients@[k as int].targeted_by(event, child));
                    }
                }
                if !self.clients[k].state.fullscreen {
                    self.dragging = Some(
                        Drag {
                            client: self.clients[k].id,
                            frame: self.clients[k].frame,
                            offset_x: -(event_x as i32),
                            offset_y: -(event_y as i32),
                        },
                    );
                }
            },
        }
    }

    /// A pointer motion: moves the dragged client, and its frame so that the
    /// border stays around it.
    pub fn handle_motion_notify<P: RWMPlatform>(&mut self, p: &mut Server<P>, root_x: i16, root_y: i16)
        requires
            old(self).wf(),
        ensures
            final(self).wf(),
            old(self).motion_effect(*final(self), root_x, root_y),
            final(p).sent() == old(p).sent() + old(self).motion_requests(root_x, root_y),
            final(p).answers() == old(p).answers(),
    {
        let d = match self.dragging {
            None => return ,
            Some(d) => d,
        };
        let i = match self.find_client(d.client) {
            None => return ,
            Some(i) => i,
        };
        let x = d.offset_x + root_x as i32;
        let y = d.offset_y + root_y as i32;
        let old_geometry = self.clients[i].geometry;
        let g = Geometry::new(x, y, old_geometry.width, old_geometry.height);
        let ghost mid = *self;
        self.clients[i].set_geometry(g);
        proof {
            assert forall|a: int, b: int|
                0 <= a < b < self.clients@.len() implies #[trigger] self.clients@[a].id
                != #[trigger] self.clients@[b].id by {
                assert(self.clients@[a].id == mid.clients@[a].id);
                assert(self.clients@[b].id == mid.clients@[b].id);
            }
            assert forall|a: int| 0 <= a < self.clients@.len() implies (
            #[trigger] self.clients@[a].id).0 < self.next_id by {
                assert(self.clients@[a].id == mid.clients@[a].id);
            }
            assert(self.clients@ =~= old(self).clients@.update(
                i as int,
                Client { geometry: g, prev_geometry: old_geometry, ..old(self).clients@[i as int] },
            ));
        }
        let (fx, fy) = frame_position(x, y, self.config.border.width);
        p.move_frame(self.clients[i].frame, fx, fy);
        assert(p.sent() =~= old(p).sent() + old(self).motion_requests(root_x, root_y));
    }

    /// The index of the client a release at root position `(px, py)` focuses:
    /// the first that the release concerns whose geometry holds the point.
    pub fn focus_target(&self, event: u32, child: u32, px: i32, py: i32) -> (r: Option<usize>)
        ensures
            r matches Some(k) ==> first_focused(self.clients@, event, child, px, py, k as int),
            r is None ==> forall|j: int|
                0 <= j < self.clients@.len() ==> !focusable(#[trigger] self.clients@[j], event, child, px, py),
    {
        let n = self.clients.len();
        let mut i: usize = 0;
        while i < n
            invariant
                n == self.clients@.len(),
                i <= n,
                forall|j: int| 0 <= j < i ==> !focusable(#[trigger] self.clients@[j], event, child, px, py),
            decreases n - i,
        {
            let c = &self.clients[i];
            if c.is_targeted_by(event, child) && c.geometry.contains(px, py) {
                return Some(i);
            }
            i += 1;
        }
        None
    }

    /// A button release: releasing the primary button ends the drag; if one
    /// was in progress, the pointer position is read and the client under it
    /// that the release concerns gets the focus, and the pointer is released.
    pub fn handle_button_release<P: RWMPlatform>(&mut self, p: &mut Server<P>, detail: u8, event: u32, child: u32)
        requires
            old(self).wf(),
        ensures
            final(self).wf(),
            final(self).same_setting(*old(self)),
            final(self).clients == old(self).clients,
            final(self).dragging == if detail == PRIMARY_BUTTON {
                None
            } else {
                old(self).dragging
            },
            old(self).release_requests(detail, event, child, old(p).sent(), final(p).sent()),
    {
        if detail != PRIMARY_BUTTON {
            return ;
        }
        if self.dragging.is_none() {
            return ;
        }
        self.dragging = None;
        let (px, py) = match p.query_pointer(self.root) {
            None => return ,
            Some(pos) => pos,
        };
        match self.focus_target(event, child, px, py) {
            None => {},
            Some(k) => {
                p.ungrab_mouse();
                p.focus(self.clients[k].window);
                assert(first_focused(old(self).clients@, event, child, px, py, k as int));
            },
        }
    }

    /// The index of the client whose window the pointer entered: the first
    /// with that window, unless the crossing is a grab on the root.
    pub fn enter_target(&self, event: u32, mode: u8) -> (r: Option<usize>)
        ensures
            mode != NOTIFY_MODE_NORMAL && event == self.root ==> r is None,
            !(mode != NOTIFY_MODE_NORMAL && event == self.root) ==> {
                &&& r matches Some(k) ==> first_with_window(self.clients@, event, k as int)
                &&& r is None ==> forall|j: int|
                    0 <= j < self.clients@.len() ==> (#[trigger] self.clients@[j]).window != event
            },
    {
        if mode != NOTIFY_MODE_NORMAL && event == self.root {
            return None;
        }
        let n = self.clients.len();
        let mut i: usize = 0;
        while i < n
            invariant
                n == self.clients@.len(),
                i <= n,
                !(mode != NOTIFY_MODE_NORMAL && event == self.root),
                forall|j: int| 0 <= j < i ==> (#[trigger] self.clients@[j]).window != event,
            decreases n - i,
        {
            if self.clients[i].window == event {
                return Some(i);
            }
            i += 1;
        }
        None
    }

    /// The pointer entered a window: the client with that window gets the
    /// focus and its frame is raised. Crossings caused by grabs on the root
    /// are skipped.
    pub fn handle_enter_notify<P: RWMPlatform>(&self, p: &mut Server<P>, event: u32, mode: u8)
        ensures
            final(p).sent() == old(p).sent() + self.pointer_enter_requests(event, mode),
            final(p).answers() == old(p).answers(),
    {
        match self.enter_target(event, mode) {
            None => {
                proof {
                    if !(mode != NOTIFY_MODE_NORMAL && event == self.root) && exists|k: int|
                        first_with_window(self.clients@, event, k) {
                        let k = choose|k: int| first_with_window(self.clients@, event, k);
                        assert(self.clients@[k].window == event);
                    }
                }
                assert(p.sent() =~= old(p).sent() + Seq::<Request>::empty());
            },
            Some(k) => {
                p.focus(self.clients[k].window);
                p.raise(self.clients[k].frame);
                proof {
                    let kk = choose|kk: int| first_with_window(self.clients@, event, kk);
                    if kk < k {
                        assert(self.clients@[kk].window == event);
                    } else if k < kk {
                        assert(self.clients@[k as int].window == event);
                    }
                }
                assert(p.sent() =~= old(p).sent() + self.pointer_enter_requests(event, mode));
            },
        }
    }

    /// A window was unmapped: the first client whose own window it was is
    /// unmanaged, unless the notification came from its frame during a
    /// fullscreen transition.
    pub fn handle_unmap_notify<P: RWMPlatform>(&mut self, p: &mut Server<P>, event: u32, window: u32)
        requires
            old(self).wf(),
        ensures
            final(self).wf(),
            old(self).unmap_effect(*final(self), event, window),
            final(p).sent() == old(p).sent() + old(self).unmap_requests(event, window),
            final(p).answers() == old(p).answers(),
    {
        let n = self.clients.len();
        let mut i: usize = 0;
        while i < n
            invariant
                self.wf(),
                *self == *old(self),
                p.sent() == old(p).sent(),
                p.answers() == old(p).answers(),
                n == self.clients@.len(),
                i <= n,
                forall|j: int| 0 <= j < i ==> !unmapped_by(#[trigger] self.clients@[j], event, window),
            decreases n - i,
        {
            let c = &self.clients[i];
            let skip = c.transitioning && (c.frame == event || c.frame == window);
            if c.window == window && !skip {
                let id = c.id;
                proof {
                    assert forall|k: int| #[trigger]
                        first_unmapped(self.clients@, event, window, k) implies k == i by {
                        if k < i {
                        } else if k > i {
                            assert(!unmapped_by(self.clients@[i as int], event, window));
                        }
                    }
                }
                self.unmanage(p, id);
                proof {
                    let k = old(self).index_of(id);
                    assert(old(self).clients@[i as int].id == id);
                    if k != i {
                        if k < i {
                            assert(old(self).clients@[k].id != old(self).clients@[i as int].id);
                        } else {
                            assert(old(self).clients@[i as int].id != old(self).clients@[k].id);
                        }
                    }
                    let kk = choose|kk: int| first_unmapped(old(self).clients@, event, window, kk);
                    assert(first_unmapped(old(self).clients@, event, window, i as int));
                    if kk < i {
                    } else if kk > i {
                        assert(!unmapped_by(old(self).clients@[i as int], event, window));
                    }
                    assert(p.sent() =~= old(p).sent() + old(self).unmap_requests(event, window));
                }
                return ;
            }
            i += 1;
        }
    }

    /// A window was mapped: a client whose frame it was has finished its
    /// fullscreen transition.
    pub fn handle_map_notify(&mut self, event: u32)
        requires
            old(self).wf(),
        ensures
            final(self).wf(),
            old(self).map_notify_effect(*final(self), event),
    {
        let n = self.clients.len();
        let mut i: usize = 0;
        while i < n
            invariant
                self.wf(),
                self.same_setting(*old(self)),
                self.dragging == old(self).dragging,
                n == self.clients@.len(),
                n == old(self).clients@.len(),
                i <= n,
                forall|j: int|
                    0 <= j < n ==> #[trigger] self.clients@[j] == if j < i && old(
                        self,
                    ).clients@[j].frame == event {
                        Client { transitioning: false, ..old(self).clients@[j] }
                    } else {
                        old(self).clients@[j]
                    },
            decreases n - i,
        {
            if self.clients[i].frame == event {
                let ghost mid = *self;
                self.clients[i].transitioning = false;
                proof {
                    assert forall|a: int, b: int|
                        0 <= a < b < self.clients@.len() implies #[trigger] self.clients@[a].id
                        != #[trigger] self.clients@[b].id by {
                        assert(self.clients@[a].id == mid.clients@[a].id);
                        assert(self.clients@[b].id == mid.clients@[b].id);
                    }
                    assert forall|a: int| 0 <= a < self.clients@.len() implies (
                    #[trigger] self.clients@[a].id).0 < self.next_id by {
                        assert(self.clients@[a].id == mid.clients@[a].id);
                    }
                }
            }
            i += 1;
        }
    }

    /// A key press: when a binding fires, one event per client carries its
    /// action (a single unaddressed one when there is no client), and
    /// fullscreen toggles are applied. Returns the events raised.
    pub fn handle_key_press<P: RWMPlatform>(
        &mut self,
        p: &mut Server<P>,
        detail: u8,
        keysym: Option<u32>,
        state: u16,
    ) -> (r: Vec<KeybindTriggered>)
        requires
            old(self).wf(),
        ensures
            final(self).wf(),
            old(self).key_effect(*final(self), r@, keysym, detail, state, old(p).sent(), final(p).sent()),
    {
        let action = match find_keybind_action_for(&self.config, keysym, detail, state) {
            None => return Vec::new(),
            Some(a) => a,
        };
        let mut events: Vec<KeybindTriggered> = Vec::new();
        let n = self.clients.len();
        if n == 0 {
            events.push(KeybindTriggered::new(action, None));
            assert(events@ =~= seq![KeybindTriggered { action, client: None }]);
        } else {
            let mut i: usize = 0;
            while i < n
                invariant
                    n == self.clients@.len(),
                    i <= n,
                    events@.len() == i,
                    forall|j: int|
                        0 <= j < i ==> #[trigger] events@[j] == (KeybindTriggered {
                            action,
                            client: Some(self.clients@[j].id),
                        }),
                decreases n - i,
            {
                events.push(KeybindTriggered::new(action.duplicate(), Some(self.clients[i].id)));
                i += 1;
            }
        }
        self.handle_fullscreen(p, &events);
        events
    }

    /// `mid` is this state after the notification numbered `sequence` was
    /// checked against the ignored sequence numbers.
    pub open spec fn swept(self, mid: Self, sequence: Option<u16>) -> bool {
        &&& mid.config == self.config
        &&& mid.root == self.root
        &&& mid.monitors == self.monitors
        &&& mid.clients == self.clients
        &&& mid.next_id == self.next_id
        &&& mid.dragging == self.dragging
        &&& match sequence {
            Some(s) => mid.ignored@ == sweep(self.ignored@, s),
            None => mid.ignored == self.ignored,
        }
    }

    /// The effect of handing `event` to its handler, with outcome `r`.
    pub open spec fn handled(
        self,
        next: Self,
        event: X11Event,
        r: Outcome,
        s0: Seq<Request>,
        s1: Seq<Request>,
        a0: Seq<Answer>,
        a1: Seq<Answer>,
    ) -> bool {
        &&& (!(event is MapRequest) && !(event is ButtonRelease) && !(event is KeyPress) ==> a1
            == a0)
        &&& match event {
            X11Event::MapRequest { window, geometry } => match r {
                Outcome::Managed(res) => {
                    &&& self.manage_errors(geometry, res)
                    &&& res matches Ok(id) ==> self.manage_effect(next, id, window, geometry)
                    &&& res is Err ==> next == self
                    &&& manage_answered(res, a0, a1, self.ignored@, next)
                    &&& res is Ok ==> s1 == s0 + self.manage_requests(window, geometry)
                    &&& res matches Err(ManageError::Platform(_)) ==> s1 == s0.push(
                        Request::WindowName { window },
                    ) || s1 == s0 + self.manage_requests(window, geometry)
                    &&& res is Err && !(res matches Err(ManageError::Platform(_))) ==> s1 == s0
                },
                _ => false,
            },
            X11Event::UnmapNotify { event, window } => self.unmap_effect(next, event, window) && s1
                == s0 + self.unmap_requests(event, window),
            X11Event::EnterNotify { event, mode } => next == self && s1 == s0
                + self.pointer_enter_requests(event, mode),
            X11Event::MotionNotify { root_x, root_y } => self.motion_effect(next, root_x, root_y)
                && s1 == s0 + self.motion_requests(root_x, root_y),
            X11Event::ButtonPress { detail, state, event, child, event_x, event_y } => {
                &&& next.same_setting(self)
                &&& next.clients == self.clients
                &&& next.dragging == self.drag_after_press(
                    detail,
                    state,
                    event,
                    child,
                    event_x,
                    event_y,
                )
                &&& s1 == s0
            },
            X11Event::ButtonRelease { detail, event, child } => {
                &&& self.release_requests(detail, event, child, s0, s1)
                &&& next.same_setting(self)
                &&& next.clients == self.clients
                &&& next.dragging == if detail == PRIMARY_BUTTON {
                    None
                } else {
                    self.dragging
                }
            },
            X11Event::KeyPress { detail, keysym, state } => match r {
                Outcome::Keybind(events) => self.key_effect(
                    next,
                    events@,
                    keysym,
                    detail,
                    state,
                    s0,
                    s1,
                ),
                _ => false,
            },
            X11Event::MapNotify { event, window: _ } => self.map_notify_effect(next, event) && s1
                == s0,
            _ => next == self && s1 == s0,
        }
    }

    /// Handles one notification carrying sequence number `sequence`: one that
    /// echoes the window manager's own request is dropped; every other one
    /// goes to its handler, which acts on the state left by that check.
    pub fn handle_event<P: RWMPlatform>(
        &mut self,
        p: &mut Server<P>,
        sequence: Option<u16>,
        event: X11Event,
    ) -> (r: Outcome)
        requires
            old(self).wf(),
        ensures
            final(self).wf(),
            r is Ignored <==> (sequence matches Some(s) && old(self).ignored@.contains(s)),
            r is Ignored ==> old(self).swept(*final(self), sequence),
            r is Ignored ==> final(p).sent() == old(p).sent() && final(p).answers() == old(
                p,
            ).answers(),
            r is Managed <==> !(r is Ignored) && event is MapRequest,
            r is Keybind <==> !(r is Ignored) && event is KeyPress,
            r is Handled <==> !(r is Ignored) && !(event is MapRequest) && !(event is KeyPress),
            !(r is Ignored) ==> exists|mid: WindowManager| #[trigger]
                old(self).swept(mid, sequence) && mid.wf() && mid.handled(
                    *final(self),
                    event,
                    r,
                    old(p).sent(),
                    final(p).sent(),
                    old(p).answers(),
                    final(p).answers(),
                ),
    {
        if let Some(s) = sequence {
            if self.ignored.should_ignore(s) {
                return Outcome::Ignored;
            }
        }
        let ghost mid = *self;
        assert(old(self).swept(mid, sequence));
        let r = match event {
            X11Event::MapRequest { window, geometry } => Outcome::Managed(
                self.manage(p, window, geometry),
            ),
            X11Event::UnmapNotify { event, window } => {
                self.handle_unmap_notify(p, event, window);
                Outcome::Handled
            },
            X11Event::EnterNotify { event, mode } => {
                self.handle_enter_notify(p, event, mode);
                Outcome::Handled
            },
            X11Event::MotionNotify { root_x, root_y } => {
                self.handle_motion_notify(p, root_x, root_y);
                Outcome::Handled
            },
            X11Event::ButtonPress { detail, state, event, child, event_x, event_y } => {
                self.handle_button_press(detail, state, event, child, event_x, event_y);
                Outcome::Handled
            },
            X11Event::ButtonRelease { detail, event, child } => {
                self.handle_button_release(p, detail, event, child);
                Outcome::Handled
            },
            X11Event::KeyPress { detail, keysym, state } => Outcome::Keybind(
                self.handle_key_press(p, detail, keysym, state),
            ),
            X11Event::MapNotify { event, window: _ } => {
                self.handle_map_notify(event);
                Outcome::Handled
            },
            X11Event::Error => Outcome::Handled,
            X11Event::Other => Outcome::Handled,
        };
        assert(mid.handled(*self, event, r, old(p).sent(), p.sent(), old(p).answers(), p.answers()));
        r
    }
}

/// The action a key press fires under `config`.
pub open spec fn find_action(
    config: crate::config::MainConfig,
    keysym: Option<u32>,
    keycode: u8,
    state: u16,
) -> Option<KeybindAction> {
    match keysym {
        None => None,
        Some(sym) => match key_name(sym, keycode) {
            None => None,
            Some(name) => first_firing(config.bindings@, config.keyboard.mod_key, name, state),
        },
    }
}

/// Only one client can be the first a notification concerns.
proof fn lemma_first_targeted_unique(cs: Seq<Client>, event: u32, child: u32, a: int, b: int)
    requires
        first_targeted(cs, event, child, a),
        first_targeted(cs, event, child, b),
    ensures
        a == b,
{
    if a < b {
        assert(!cs[a].targeted_by(event, child));
    } else if b < a {
        assert(!cs[b].targeted_by(event, child));
    }
}

/// From idle, a press with a modifier state other than the configured one,
/// or one on a fullscreen client, leaves the drag idle.
pub proof fn lemma_press_rejections(
    w: WindowManager,
    detail: u8,
    state: u16,
    event: u32,
    child: u32,
    event_x: i16,
    event_y: i16,
    k: int,
)
    requires
        w.dragging is None,
    ensures
        state != mod_mask_of(w.config.keyboard.mod_key@) ==> w.drag_after_press(
            detail,
            state,
            event,
            child,
            event_x,
            event_y,
        ) is None,
        first_targeted(w.clients@, event, child, k) && w.clients@[k].is_fullscreen()
            ==> w.drag_after_press(detail, state, event, child, event_x, event_y) is None,
{
    if first_targeted(w.clients@, event, child, k) {
        let kk = choose|kk: int| first_targeted(w.clients@, event, child, kk);
        lemma_first_targeted_unique(w.clients@, event, child, k, kk);
    }
}

/// A drag from idle: pressing the primary button with the configured
/// modifier on a client that is not fullscreen, moving the pointer to
/// `(root_x, root_y)` and releasing places the client at the pointer plus the
/// negated press position, keeps its size, and ends idle.
pub proof fn lemma_drag_press_move_release(
    w0: WindowManager,
    w1: WindowManager,
    w2: WindowManager,
    w3: WindowManager,
    state: u16,
    event: u32,
    child: u32,
    event_x: i16,
    event_y: i16,
    root_x: i16,
    root_y: i16,
    k: int,
)
    requires
        w0.wf(),
        w0.dragging is None,
        first_targeted(w0.clients@, event, child, k),
        !w0.clients@[k].is_fullscreen(),
        state == mod_mask_of(w0.config.keyboard.mod_key@),
        w1.wf(),
        w1.same_setting(w0),
        w1.clients == w0.clients,
        w1.dragging == w0.drag_after_press(PRIMARY_BUTTON, state, event, child, event_x, event_y),
        w2.wf(),
        w1.motion_effect(w2, root_x, root_y),
        w3.same_setting(w2),
        w3.clients == w2.clients,
        w3.dragging is None,
    ensures
        w1.dragging is Some,
        w3.clients@[k].geometry == (Geometry {
            x: (root_x - event_x) as i32,
            y: (root_y - event_y) as i32,
            width: w0.clients@[k].geometry.width,
            height: w0.clients@[k].geometry.height,
        }),
{
    let kk = choose|kk: int| first_targeted(w0.clients@, event, child, kk);
    lemma_first_targeted_unique(w0.clients@, event, child, k, kk);
    let id = w0.clients@[k].id;
    assert(w1.clients@[k].id == id);
    assert(w1.has_client(id));
    let j = w1.index_of(id);
    if j != k {
        if j < k {
            assert(w1.clients@[j].id != w1.clients@[k].id);
        } else {
            assert(w1.clients@[k].id != w1.clients@[j].id);
        }
    }
}

} // verus!
