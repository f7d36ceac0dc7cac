use vstd::prelude::*;

use crate::client::{find_monitor, is_first_max, Client, ClientId, ClientState};
use crate::config::{ConfigError, MainConfig, TagsConfig};
use crate::geometry::{lemma_overlap_disjoint, Geometry};
use crate::keybind::KeybindTriggered;
use crate::monitor::{Bar, Monitor};
use crate::platform::{
    frame_geometry, framed, reparent_offset, Answer, ManagedFrame, PlatformError, RWMPlatform, Request, Server,
};
use crate::sequence::IgnoredSequences;
use crate::tag::{
    lemma_remove_absent, lemma_remove_all_members, lemma_remove_keeps_others, remove_all, Layout,
    LayoutKind, Tag,
};
use crate::tagset::Tagset;

verus! {

/// An ongoing drag of a client's frame by the pointer.
#[derive(Debug, Clone, Copy, PartialEq, Eq, Structural)]
pub struct Drag {
    /// The client being dragged.
    pub client: ClientId,
    /// Its frame.
    pub frame: u32,
    /// Added to the pointer's root position to get the client's x position.
    pub offset_x: i32,
    /// Added to the pointer's root position to get the client's y position.
    pub offset_y: i32,
}

/// Why a window could not be managed.
#[derive(Debug, Clone, PartialEq, Eq)]
pub enum ManageError {
    /// There is no monitor to place the window on.
    NoMonitor,
    /// The chosen monitor has no tag.
    NoTag,
    /// Every client handle has been used.
    OutOfHandles,
    /// The frame colour does not parse.
    InvalidColor(ConfigError),
    /// The display server refused a request.
    Platform(PlatformError),
}

/// The total width of the screens before screen `i`.
pub open spec fn widths_before(screens: Seq<(u16, u16)>, i: int) -> int
    decreases i,
{
    if i <= 0 {
        0
    } else {
        widths_before(screens, i - 1) + screens[i - 1].0
    }
}

/// Where monitor `i` lies: the size of screen `i`, placed at the top, right
/// of all the screens before it.
pub open spec fn screen_geometry(screens: Seq<(u16, u16)>, i: int) -> Geometry {
    Geometry {
        x: widths_before(screens, i) as i32,
        y: 0,
        width: screens[i].0 as u32,
        height: screens[i].1 as u32,
    }
}

proof fn lemma_widths_bounded(screens: Seq<(u16, u16)>, i: int)
    requires
        0 <= i <= screens.len(),
    ensures
        0 <= widths_before(screens, i) <= i * 0xFFFF,
    decreases i,
{
    if i > 0 {
        lemma_widths_bounded(screens, i - 1);
    }
}

proof fn lemma_widths_monotone(screens: Seq<(u16, u16)>, a: int, b: int)
    requires
        0 <= a <= b <= screens.len(),
    ensures
        widths_before(screens, a) <= widths_before(screens, b),
    decreases b - a,
{
    if a < b {
        lemma_widths_monotone(screens, a, b - 1);
    }
}

/// Monitors built from distinct screens share no area.
pub proof fn lemma_screens_disjoint(screens: Seq<(u16, u16)>, i: int, j: int)
    requires
        screens.len() <= 256,
        0 <= i < screens.len(),
        0 <= j < screens.len(),
        i != j,
    ensures
        screen_geometry(screens, i).overlap_spec(screen_geometry(screens, j)) == 0,
{
    let (a, b) = if i < j {
        (i, j)
    } else {
        (j, i)
    };
    lemma_widths_bounded(screens, a);
    lemma_widths_bounded(screens, b);
    lemma_widths_bounded(screens, a + 1);
    assert(a * 0xFFFF <= 256 * 0xFFFF) by (nonlinear_arith)
        requires
            a <= 256,
    ;
    assert(b * 0xFFFF <= 256 * 0xFFFF) by (nonlinear_arith)
        requires
            b <= 256,
    ;
    lemma_widths_monotone(screens, a + 1, b);
    let ga = screen_geometry(screens, a);
    let gb = screen_geometry(screens, b);
    assert(ga.right_spec() <= gb.x);
    lemma_overlap_disjoint(ga, gb);
    lemma_overlap_disjoint(gb, ga);
}

/// What managing a window did with the server's answers, from `a0` to `a1`:
/// on success the title and the frame answered are the new record's, and the
/// reparent request's sequence number joins `ignored0`; a refusal by the
/// server gives `Err` with its error; the library's own errors ask nothing.
pub open spec fn manage_answered(
    r: Result<ClientId, ManageError>,
    a0: Seq<Answer>,
    a1: Seq<Answer>,
    ignored0: Seq<u16>,
    next: WindowManager,
) -> bool {
    let k = a0.len() as int;
    match r {
        Ok(_) => {
            &&& a1.len() == k + 2
            &&& a1 == a0 + seq![a1[k], a1[k + 1]]
            &&& a1[k] matches Answer::Name(Ok(name)) && next.clients@.last().name == name
            &&& a1[k + 1] matches Answer::Framed(Ok(m)) && next.clients@.last().frame == m.frame
                && next.ignored@ == ignored0.push(m.sequence)
        },
        Err(ManageError::Platform(e)) => {
            ||| a1 == a0.push(Answer::Name(Err(e)))
            ||| {
                &&& a1.len() == k + 2
                &&& a1 == a0 + seq![a1[k], Answer::Framed(Err(e))]
                &&& a1[k] matches Answer::Name(Ok(_))
            }
        },
        Err(_) => a1 == a0,
    }
}

/// The whole state of the window manager: configuration, monitors with their
/// tags, the client records, the drag in progress and the sequence numbers
/// of its own requests.
#[derive(Debug)]
pub struct WindowManager {
    /// The validated configuration.
    pub config: MainConfig,
    /// The root window.
    pub root: u32,
    /// The monitors.
    pub monitors: Vec<Monitor>,
    /// The client records, each with its own handle.
    pub clients: Vec<Client>,
    /// The handle the next managed client gets.
    pub next_id: u64,
    /// The drag in progress, if any.
    pub dragging: Option<Drag>,
    /// Sequence numbers of requests whose notifications are ignored.
    pub ignored: IgnoredSequences,
}

impl WindowManager {
    /// The clients of tag `t` of monitor `m`.
    pub open spec fn members_at(self, m: int, t: int) -> Seq<ClientId> {
        self.monitors@[m].tags@[t].members()
    }

    /// The monitors' dimensions, in order.
    pub open spec fn dims(self) -> Seq<Geometry> {
        self.monitors@.map_values(|m: Monitor| m.dimensions)
    }

    /// Whether a record with handle `id` exists.
    pub open spec fn has_client(self, id: ClientId) -> bool {
        exists|i: int| 0 <= i < self.clients@.len() && #[trigger] self.clients@[i].id == id
    }

    /// The index of the record with handle `id`, when there is one.
    pub open spec fn index_of(self, id: ClientId) -> int {
        choose|i: int| 0 <= i < self.clients@.len() && #[trigger] self.clients@[i].id == id
    }

    /// Whether some tag lists `id`.
    pub open spec fn listed(self, id: ClientId) -> bool {
        exists|m: int, t: int|
            0 <= m < self.monitors@.len() && 0 <= t < self.monitors@[m].tags@.len()
                && #[trigger] self.members_at(m, t).contains(id)
    }

    /// Monitors, their tags and the tag indices agree between the two states.
    pub open spec fn same_shape(self, other: Self) -> bool {
        &&& self.monitors@.len() == other.monitors@.len()
        &&& forall|m: int|
            0 <= m < self.monitors@.len() ==> {
                &&& #[trigger] self.monitors@[m].tags@.len() == other.monitors@[m].tags@.len()
                &&& self.monitors@[m].dimensions == other.monitors@[m].dimensions
                &&& self.monitors@[m].id == other.monitors@[m].id
                &&& forall|t: int|
                    0 <= t < self.monitors@[m].tags@.len() ==> (#[trigger] self.monitors@[m].tags@[t].index()
                        == other.monitors@[m].tags@[t].index())
            }
    }

    /// The invariant of the window manager.
    pub open spec fn wf(self) -> bool {
        &&& self.config.error() is None
        &&& self.monitors@.len() <= 256
        &&& forall|i: int, j: int|
            0 <= i < j < self.clients@.len() ==> #[trigger] self.clients@[i].id
                != #[trigger] self.clients@[j].id
        &&& forall|i: int| 0 <= i < self.clients@.len() ==> (#[trigger] self.clients@[i].id).0 < self.next_id
        &&& forall|m: int, t: int|
            0 <= m < self.monitors@.len() && 0 <= t < self.monitors@[m].tags@.len()
                ==> (#[trigger] self.monitors@[m].tags@[t]).wf()
        &&& forall|m: int, t: int, k: int|
            0 <= m < self.monitors@.len() && 0 <= t < self.monitors@[m].tags@.len() && 0 <= k
                < self.monitors@[m].tags@[t].members().len() ==> (
            #[trigger] self.monitors@[m].tags@[t].members()[k]).0 < self.next_id
        &&& self.dragging matches Some(d) ==> -0x8000 <= d.offset_x <= 0x8000 && -0x8000
            <= d.offset_y <= 0x8000
    }

    /// Everything but the client records and the drag agrees.
    pub open spec fn same_setting(self, other: Self) -> bool {
        &&& self.config == other.config
        &&& self.root == other.root
        &&& self.monitors == other.monitors
        &&& self.next_id == other.next_id
        &&& self.ignored == other.ignored
    }

    /// The effect of managing `window` at `geometry` as client `id`: a new
    /// record at the end, the handle appended to the first tag of the monitor
    /// that overlaps the window most, and one more ignored sequence number.
    pub open spec fn manage_effect(
        self,
        next: Self,
        id: ClientId,
        window: u32,
        geometry: Geometry,
    ) -> bool {
        &&& id == ClientId(self.next_id)
        &&& next.next_id == self.next_id + 1
        &&& next.config == self.config
        &&& next.root == self.root
        &&& next.dragging == self.dragging
        &&& self.same_shape(next)
        &&& is_first_max(self.dims(), geometry, self.home(geometry))
        &&& forall|m: int, t: int|
            0 <= m < self.monitors@.len() && 0 <= t < self.monitors@[m].tags@.len()
                ==> #[trigger] next.members_at(m, t) == if m == self.home(geometry) && t == 0 {
                self.members_at(m, t).push(id)
            } else {
                self.members_at(m, t)
            }
        &&& next.clients@.len() == self.clients@.len() + 1
        &&& next.clients@.drop_last() == self.clients@
        &&& next.clients@.last().id == id
        &&& next.clients@.last().window == window
        &&& next.clients@.last().geometry == geometry
        &&& next.clients@.last().prev_geometry == geometry
        &&& next.clients@.last().original_geometry == geometry
        &&& next.clients@.last().state == ClientState::none()
        &&& !next.clients@.last().transitioning
        &&& exists|seq: u16| next.ignored@ == self.ignored@.push(seq)
    }

    /// The requests that managing `window` at `geometry` makes: read its
    /// title, then frame it with the configured border and colour.
    pub open spec fn manage_requests(self, window: u32, geometry: Geometry) -> Seq<Request> {
        let border = self.config.border.width;
        seq![
            Request::WindowName { window },
            Request::Manage {
                window,
                frame: framed(geometry, border),
                offset: (border + border / 2) as i16,
                background: self.config.border.selected_color.value()->Some_0,
                root: self.root,
            },
        ]
    }

    /// The request that releasing a client record makes: the window goes
    /// back to the root at its own position, with its frame destroyed unless
    /// it is fullscreen.
    pub open spec fn unmanage_request(self, c: Client) -> Request {
        Request::Unmanage {
            window: c.window,
            geometry: c.geometry,
            frame: if c.is_fullscreen() {
                None
            } else {
                Some(c.frame)
            },
            root: self.root,
        }
    }

    /// The effect of dropping client `id`: its record goes, every tag forgets
    /// it, nothing else changes.
    pub open spec fn drop_effect(self, next: Self, id: ClientId) -> bool {
        &&& next.config == self.config
        &&& next.root == self.root
        &&& next.next_id == self.next_id
        &&& next.ignored == self.ignored
        &&& self.same_shape(next)
        &&& forall|m: int, t: int|
            0 <= m < self.monitors@.len() && 0 <= t < self.monitors@[m].tags@.len()
                ==> #[trigger] next.members_at(m, t) == remove_all(self.members_at(m, t), id)
        &&& self.has_client(id) ==> next.clients@ == self.clients@.remove(self.index_of(id))
        &&& !self.has_client(id) ==> next.clients@ == self.clients@
    }

    /// The monitor a window at `g` belongs to: the first with the largest overlap.
    pub open spec fn home(self, g: Geometry) -> int {
        choose|m: int| is_first_max(self.dims(), g, m)
    }

    /// The effect of putting client `id` in fullscreen: its geometry becomes
    /// the whole of the monitor it overlaps most, the old geometry is kept as
    /// the one to return to, and the client is fullscreen and transitioning.
    pub open spec fn enter_effect(self, next: Self, id: ClientId) -> bool {
        let i = self.index_of(id);
        let c = self.clients@[i];
        let target = self.monitors@[self.home(c.geometry)].dimensions;
        &&& self.same_setting(next)
        &&& next.dragging == self.dragging
        &&& next.clients@ == self.clients@.update(
            i,
            Client {
                geometry: target,
                prev_geometry: c.geometry,
                original_geometry: c.geometry,
                state: ClientState { fullscreen: true, ..c.state },
                prev_state: c.state,
                transitioning: true,
                ..c
            },
        )
    }

    /// The requests that putting client `id` in fullscreen makes: the frame
    /// goes, the window takes the monitor's dimensions and the focus.
    pub open spec fn fullscreen_requests(self, id: ClientId) -> Seq<Request> {
        let c = self.clients@[self.index_of(id)];
        let target = self.monitors@[self.home(c.geometry)].dimensions;
        seq![
            Request::DeleteFrame { geometry: target, window: c.window, frame: c.frame, root: self.root },
            Request::UpdateClientGeometry { geometry: target, window: c.window },
            Request::Focus { window: c.window },
        ]
    }

    /// The request that pushing the geometry of client `c` makes.
    pub open spec fn bordered_request(self, c: Client) -> Request {
        let border = self.config.border.width;
        Request::UpdateBordered {
            frame_geometry: framed(c.geometry, border),
            offset: (border + border / 2) as i16,
            window: c.window,
            frame: c.frame,
        }
    }

    /// Whether client `id` exists and is fullscreen.
    pub open spec fn is_fullscreen_client(self, id: ClientId) -> bool {
        self.has_client(id) && self.clients@[self.index_of(id)].is_fullscreen()
    }

    /// Which of its own errors managing a window at `g` gives: each exactly
    /// when its condition holds.
    pub open spec fn manage_errors(self, g: Geometry, r: Result<ClientId, ManageError>) -> bool {
        &&& (r matches Err(ManageError::NoMonitor)) <==> self.monitors@.len() == 0
        &&& (r matches Err(ManageError::NoTag)) <==> self.monitors@.len() > 0
            && self.monitors@[self.home(g)].tags@.len() == 0
        &&& (r matches Err(ManageError::OutOfHandles)) <==> self.monitors@.len() > 0
            && self.monitors@[self.home(g)].tags@.len() > 0 && self.next_id == u64::MAX
        &&& (r matches Err(ManageError::InvalidColor(_))) <==> self.monitors@.len() > 0
            && self.monitors@[self.home(g)].tags@.len() > 0 && self.next_id < u64::MAX
            && self.config.border.selected_color.value() is None
    }

    /// The record of `window` that managing it again produced in `after`,
    /// marked transitioning in `next`; nothing else differs.
    pub open spec fn remanaged(
        self,
        after: Self,
        next: Self,
        new: ClientId,
        window: u32,
        geometry: Geometry,
    ) -> bool {
        &&& self.manage_effect(after, new, window, geometry)
        &&& next.same_setting(after)
        &&& next.dragging == after.dragging
        &&& next.clients@ == after.clients@.update(
            after.clients@.len() - 1,
            Client { transitioning: true, ..after.clients@.last() },
        )
    }

    /// Leaving fullscreen for client `id` through the intermediate state
    /// `mid`, where the drag has ended and the record is dropped.
    pub open spec fn exit_via(
        self,
        next: Self,
        id: ClientId,
        r: Result<ClientId, ManageError>,
        mid: Self,
    ) -> bool {
        let c = self.clients@[self.index_of(id)];
        &&& self.drop_effect(mid, id)
        &&& mid.dragging is None
        &&& mid.wf()
        &&& self.manage_errors(c.original_geometry, r)
        &&& r is Err ==> next == mid
        &&& r matches Ok(new) ==> exists|after: Self|
            #[trigger] mid.remanaged(after, next, new, c.window, c.original_geometry)
    }

    /// The effect of taking fullscreen client `id` out of fullscreen with
    /// result `r`: the drag ends and the record is dropped; then the window is
    /// managed afresh at the geometry kept on entry, and on success the new
    /// record is marked transitioning. On failure nothing else changes.
    pub open spec fn exit_effect(
        self,
        next: Self,
        id: ClientId,
        r: Result<ClientId, ManageError>,
    ) -> bool {
        exists|mid: Self| #[trigger] self.exit_via(next, id, r, mid)
    }

    /// One fullscreen toggle of client `c`, with the request log going from
    /// `s0` to `s1`: leaving for a fullscreen client, entering for another
    /// existing client when there is a monitor, and nothing otherwise.
    pub open spec fn toggle_step(self, next: Self, c: ClientId, s0: Seq<Request>, s1: Seq<Request>) -> bool {
        if self.is_fullscreen_client(c) {
            exists|r: Result<ClientId, ManageError>|
                {
                    &&& #[trigger] self.exit_effect(next, c, r)
                    &&& s0.len() <= s1.len()
                    &&& s1.subrange(0, s0.len() as int) == s0
                    &&& self.exit_requests_fit(
                        self.clients@[self.index_of(c)],
                        r,
                        next.clients@.last().frame,
                        s1.subrange(s0.len() as int, s1.len() as int),
                    )
                }
        } else if self.has_client(c) && self.monitors@.len() > 0 {
            self.enter_effect(next, c) && s1 == s0 + self.fullscreen_requests(c)
        } else {
            next == self && s1 == s0
        }
    }

    /// The effect of one key binding event, with the request log going from
    /// `s0` to `s1`: a fullscreen toggle addressed to a client toggles it; any
    /// other event changes nothing and asks nothing.
    pub open spec fn event_step(
        self,
        next: Self,
        ev: KeybindTriggered,
        s0: Seq<Request>,
        s1: Seq<Request>,
    ) -> bool {
        if ev.action is ToggleFullscreen && ev.client is Some {
            self.toggle_step(next, ev.client->Some_0, s0, s1)
        } else {
            next == self && s1 == s0
        }
    }

    /// The effect of a batch of key binding events, applied one after the
    /// other through the states `states` and request logs `logs`, from
    /// request log `s0` to `s1`.
    pub open spec fn batch_via(
        self,
        next: Self,
        events: Seq<KeybindTriggered>,
        s0: Seq<Request>,
        s1: Seq<Request>,
        states: Seq<Self>,
        logs: Seq<Seq<Request>>,
    ) -> bool {
        &&& states.len() == events.len() + 1
        &&& logs.len() == events.len() + 1
        &&& states[0] == self
        &&& states.last() == next
        &&& logs[0] == s0
        &&& logs.last() == s1
        &&& forall|i: int|
            0 <= i < events.len() ==> #[trigger] states[i].event_step(
                states[i + 1],
                events[i],
                logs[i],
                logs[i + 1],
            )
    }

    /// The requests that leaving fullscreen makes for a client `c`, when
    /// managing it again gives `r`.
    pub open spec fn exit_requests_fit(
        self,
        c: Client,
        r: Result<ClientId, ManageError>,
        frame: u32,
        sent: Seq<Request>,
    ) -> bool {
        let border = self.config.border.width;
        let ungrab = seq![Request::UngrabMouse];
        let focus = Request::Focus { window: c.window };
        let again = self.manage_requests(c.window, c.original_geometry);
        match r {
            Ok(_) => sent == ungrab + again + seq![
                Request::UpdateBordered {
                    frame_geometry: framed(c.original_geometry, border),
                    offset: (border + border / 2) as i16,
                    window: c.window,
                    frame,
                },
                focus,
            ],
            Err(ManageError::Platform(_)) => sent == ungrab + seq![again[0], focus] || sent
                == ungrab + again + seq![focus],
            Err(_) => sent == ungrab + seq![focus],
        }
    }

    /// Builds the state for a validated configuration and the sizes of the screens.
    pub fn new(config: MainConfig, root: u32, screens: &Vec<(u16, u16)>) -> (r: Result<
        WindowManager,
        ConfigError,
    >)
        requires
            screens@.len() <= 256,
        ensures
            r is Err <==> config.error() is Some,
            r matches Err(e) ==> config.error() == Some(e),
            r matches Ok(w) ==> {
                &&& w.wf()
                &&& w.config == config
                &&& w.root == root
                &&& w.clients@.len() == 0
                &&& w.dragging is None
                &&& w.ignored@.len() == 0
                &&& w.monitors@.len() == screens@.len()
                &&& forall|i: int, j: int|
                    0 <= i < screens@.len() && 0 <= j < screens@.len() && i != j
                        ==> #[trigger] w.monitors@[i].dimensions.overlap_spec(
                        #[trigger] w.monitors@[j].dimensions,
                    ) == 0
                &&& forall|i: int|
                    0 <= i < screens@.len() ==> {
                        &&& (#[trigger] w.monitors@[i]).dimensions == screen_geometry(screens@, i)
                        &&& w.monitors@[i].id == i
                        &&& w.monitors@[i].tags@.len() == config.tags.enabled_tags@.len()
                        &&& forall|t: int|
                            0 <= t < w.monitors@[i].tags@.len() ==> {
                                &&& (#[trigger] w.monitors@[i].tags@[t]).index()
                                    == config.tags.enabled_tags@[t]
                                &&& w.monitors@[i].tags@[t].label_view() == configured_label(
                                    config.tags,
                                    config.tags.enabled_tags@[t],
                                )
                                &&& w.monitors@[i].tags@[t].members().len() == 0
                            }
                    }
            },
    {
        match config.validate() {
            Err(e) => return Err(e),
            Ok(()) => {},
        }
        let mut monitors: Vec<Monitor> = Vec::new();
        let n = screens.len();
        let mut i: usize = 0;
        let mut x: u32 = 0;
        while i < n
            invariant
                n == screens@.len(),
                n <= 256,
                i <= n,
                x == widths_before(screens@, i as int),
                monitors@.len() == i,
                forall|j: int|
                    0 <= j < i ==> {
                        &&& (#[trigger] monitors@[j]).dimensions == screen_geometry(screens@, j)
                        &&& monitors@[j].id == j
                        &&& monitors@[j].tags@.len() == config.tags.enabled_tags@.len()
                        &&& forall|t: int|
                            0 <= t < monitors@[j].tags@.len() ==> {
                                &&& (#[trigger] monitors@[j].tags@[t]).index()
                                    == config.tags.enabled_tags@[t]
                                &&& monitors@[j].tags@[t].label_view() == configured_label(
                                    config.tags,
                                    config.tags.enabled_tags@[t],
                                )
                                &&& monitors@[j].tags@[t].members().len() == 0
                                &&& monitors@[j].tags@[t].wf()
                            }
                    },
            decreases n - i,
        {
            proof {
                lemma_widths_bounded(screens@, i as int);
                lemma_widths_bounded(screens@, i + 1);
                assert((i + 1) * 0xFFFF <= 256 * 0xFFFF) by (nonlinear_arith)
                    requires
                        i + 1 <= 256,
                ;
            }
            let dimensions = Geometry::new(x as i32, 0, screens[i].0 as u32, screens[i].1 as u32);
            let tags = build_tags(&config);
            monitors.push(
                Monitor {
                    id: i as u8,
                    dimensions,
                    selected_tagset: Tagset::default(),
                    tagset: Tagset::default(),
                    tags,
                    selection: None,
                    last_selection: None,
                    bar: Bar::new(false, true),
                },
            );
            x = x + screens[i].0 as u32;
            i += 1;
        }
        let w = WindowManager {
            config,
            root,
            monitors,
            clients: Vec::new(),
            next_id: 0,
            dragging: None,
            ignored: IgnoredSequences::new(),
        };
        assert forall|m: int, t: int|
            0 <= m < w.monitors@.len() && 0 <= t < w.monitors@[m].tags@.len() implies (
            #[trigger] w.monitors@[m].tags@[t]).wf() by {
            assert(w.monitors@[m].tags@[t].wf());
        }
        assert forall|a: int, b: int|
            0 <= a < screens@.len() && 0 <= b < screens@.len() && a != b implies #[trigger] w.monitors@[a].dimensions.overlap_spec(
            #[trigger] w.monitors@[b].dimensions,
        ) == 0 by {
            lemma_screens_disjoint(screens@, a, b);
        }
        Ok(w)
    }
}

impl WindowManager {
    /// The dimensions of every monitor, in order.
    pub fn monitor_dims(&self) -> (r: Vec<Geometry>)
        ensures
            r@ == self.dims(),
    {
        let mut r: Vec<Geometry> = Vec::new();
        let n = self.monitors.len();
        let mut i: usize = 0;
        while i < n
            invariant
                n == self.monitors@.len(),
                i <= n,
                r@ == self.dims().take(i as int),
            decreases n - i,
        {
            r.push(self.monitors[i].dimensions);
            assert(self.dims().take(i + 1) =~= self.dims().take(i as int).push(
                self.monitors@[i as int].dimensions,
            ));
            i += 1;
        }
        assert(self.dims().take(n as int) =~= self.dims());
        r
    }

    /// The index of the monitor a window at `g` belongs to, given the
    /// monitors' dimensions.
    fn home_monitor(&self, g: Geometry, dims: Vec<Geometry>) -> (r: usize)
        requires
            self.wf(),
            dims@ == self.dims(),
            dims@.len() > 0,
        ensures
            r == self.home(g),
            r < self.monitors@.len(),
            is_first_max(self.dims(), g, r as int),
    {
        let m = find_monitor(g, dims);
        proof {
            let k = choose|k: int| is_first_max(self.dims(), g, k) && m == k % 256;
            lemma_first_max_unique(self.dims(), g, k, self.home(g));
        }
        m as usize
    }

    /// The index of the record with handle `id`.
    pub fn find_client(&self, id: ClientId) -> (r: Option<usize>)
        requires
            self.wf(),
        ensures
            r is None <==> !self.has_client(id),
            r matches Some(i) ==> i == self.index_of(id) && i < self.clients@.len()
                && self.clients@[i as int].id == id,
    {
        let n = self.clients.len();
        let mut i: usize = 0;
        while i < n
            invariant
                self.wf(),
                n == self.clients@.len(),
                i <= n,
                forall|j: int| 0 <= j < i ==> (#[trigger] self.clients@[j]).id != id,
            decreases n - i,
        {
            if self.clients[i].id == id {
                proof {
                    let k = self.index_of(id);
                    assert(self.clients@[i as int].id == id);
                    assert(self.has_client(id));
                    if k != i {
                        if k < i {
                            assert(self.clients@[k].id != self.clients@[i as int].id);
                        } else {
                            assert(self.clients@[i as int].id != self.clients@[k].id);
                        }
                    }
                }
                return Some(i);
            }
            i += 1;
        }
        None
    }

    /// Removes `id` from every tag of every monitor.
    fn remove_from_tags(&mut self, id: ClientId)
        requires
            old(self).wf(),
        ensures
            final(self).wf(),
            old(self).same_shape(*final(self)),
            forall|m: int, t: int|
                0 <= m < old(self).monitors@.len() && 0 <= t < old(self).monitors@[m].tags@.len()
                    ==> #[trigger] final(self).members_at(m, t) == remove_all(
                    old(self).members_at(m, t),
                    id,
                ),
            final(self).config == old(self).config,
            final(self).root == old(self).root,
            final(self).clients == old(self).clients,
            final(self).next_id == old(self).next_id,
            final(self).dragging == old(self).dragging,
            final(self).ignored == old(self).ignored,
    {
        let ghost pre = self.monitors@;
        let nm = self.monitors.len();
        let mut m: usize = 0;
        while m < nm
            invariant
                self.config == old(self).config,
                self.root == old(self).root,
                self.clients == old(self).clients,
                self.next_id == old(self).next_id,
                self.dragging == old(self).dragging,
                self.ignored == old(self).ignored,
                pre == old(self).monitors@,
                nm == self.monitors@.len(),
                nm == pre.len(),
                m <= nm,
                forall|mm: int|
                    0 <= mm < nm ==> {
                        &&& (#[trigger] self.monitors@[mm]).tags@.len() == pre[mm].tags@.len()
                        &&& self.monitors@[mm].dimensions == pre[mm].dimensions
                        &&& self.monitors@[mm].id == pre[mm].id
                        &&& forall|t: int|
                            0 <= t < pre[mm].tags@.len() ==> {
                                &&& (#[trigger] self.monitors@[mm].tags@[t]).index()
                                    == pre[mm].tags@[t].index()
                                &&& self.monitors@[mm].tags@[t].members() == if mm < m {
                                    remove_all(pre[mm].tags@[t].members(), id)
                                } else {
                                    pre[mm].tags@[t].members()
                                }
                                &&& (pre[mm].tags@[t].wf() ==> self.monitors@[mm].tags@[t].wf())
                            }
                    },
            decreases nm - m,
        {
            let nt = self.monitors[m].tags.len();
            let mut t: usize = 0;
            let ghost mid = self.monitors@;
            while t < nt
                invariant
                    self.config == old(self).config,
                    self.root == old(self).root,
                    self.clients == old(self).clients,
                    self.next_id == old(self).next_id,
                    self.dragging == old(self).dragging,
                    self.ignored == old(self).ignored,
                    nm == self.monitors@.len(),
                    m < nm,
                    nt == mid[m as int].tags@.len(),
                    t <= nt,
                    forall|mm: int| 0 <= mm < nm && mm != m ==> #[trigger] self.monitors@[mm] == mid[mm],
                    self.monitors@[m as int].tags@.len() == nt,
                    self.monitors@[m as int].dimensions == mid[m as int].dimensions,
                    self.monitors@[m as int].id == mid[m as int].id,
                    forall|tt: int|
                        0 <= tt < nt ==> {
                            &&& (#[trigger] self.monitors@[m as int].tags@[tt]).index()
                                == mid[m as int].tags@[tt].index()
                            &&& self.monitors@[m as int].tags@[tt].members() == if tt < t {
                                remove_all(mid[m as int].tags@[tt].members(), id)
                            } else {
                                mid[m as int].tags@[tt].members()
                            }
                            &&& (tt < t ==> self.monitors@[m as int].tags@[tt].wf())
                            &&& (tt >= t ==> self.monitors@[m as int].tags@[tt]
                                == mid[m as int].tags@[tt])
                        },
                decreases nt - t,
            {
                self.monitors[m].tags[t].remove_client(id);
                t += 1;
            }
            m += 1;
        }
        proof {
            assert forall|mm: int, t: int|
                0 <= mm < self.monitors@.len() && 0 <= t < self.monitors@[mm].tags@.len() implies (
            #[trigger] self.monitors@[mm].tags@[t]).wf() by {
                assert(old(self).monitors@[mm].tags@[t].wf());
            }
            assert forall|mm: int, t: int, k: int|
                0 <= mm < self.monitors@.len() && 0 <= t < self.monitors@[mm].tags@.len() && 0
                    <= k < self.monitors@[mm].tags@[t].members().len() implies (
            #[trigger] self.monitors@[mm].tags@[t].members()[k]).0 < self.next_id by {
                lemma_remove_all_members(pre[mm].tags@[t].members(), id);
                let x = self.monitors@[mm].tags@[t].members()[k];
                assert(self.members_at(mm, t).contains(x));
                let s = pre[mm].tags@[t].members();
                assert(s.contains(x));
                let j = choose|j: int| 0 <= j < s.len() && s[j] == x;
                assert(old(self).monitors@[mm].tags@[t].members()[j] == x);
            }
        }
    }

    /// Places `window`, whose geometry the server reports as `geometry`, under
    /// management: picks the monitor it overlaps most, frames it through the
    /// platform, records the client on that monitor's first tag and remembers
    /// the reparent request so its notifications are ignored. On any failure
    /// nothing changes.
    pub fn manage<P: RWMPlatform>(&mut self, p: &mut Server<P>, window: u32, geometry: Geometry) -> (r:
        Result<ClientId, ManageError>)
        requires
            old(self).wf(),
        ensures
            final(self).wf(),
            r matches Ok(id) ==> old(self).manage_effect(*final(self), id, window, geometry),
            r is Err ==> *final(self) == *old(self),
            r matches Err(ManageError::NoMonitor) <==> old(self).monitors@.len() == 0,
            r matches Err(ManageError::NoTag) <==> old(self).monitors@.len() > 0
                && old(self).monitors@[old(self).home(geometry)].tags@.len() == 0,
            r matches Err(ManageError::OutOfHandles) <==> old(self).monitors@.len() > 0
                && old(self).monitors@[old(self).home(geometry)].tags@.len() > 0
                && old(self).next_id == u64::MAX,
            r matches Err(ManageError::InvalidColor(_)) <==> old(self).monitors@.len() > 0
                && old(self).monitors@[old(self).home(geometry)].tags@.len() > 0
                && old(self).next_id < u64::MAX && old(self).config.border.selected_color.value() is None,
            r is Ok ==> final(p).sent() == old(p).sent() + old(self).manage_requests(window, geometry),
            r matches Err(ManageError::Platform(_)) ==> final(p).sent() == old(p).sent().push(
                Request::WindowName { window },
            ) || final(p).sent() == old(p).sent() + old(self).manage_requests(window, geometry),
            r is Err && !(r matches Err(ManageError::Platform(_))) ==> final(p).sent() == old(
                p,
            ).sent(),
            manage_answered(r, old(p).answers(), final(p).answers(), old(self).ignored@, *final(self)),
    {
        let dims = self.monitor_dims();
        if dims.len() == 0 {
            return Err(ManageError::NoMonitor);
        }
        let m = self.home_monitor(geometry, dims);
        if self.monitors[m].tags.len() == 0 {
            return Err(ManageError::NoTag);
        }
        if self.next_id == u64::MAX {
            return Err(ManageError::OutOfHandles);
        }
        let background = match self.config.border.selected_color.hex_value() {
            Ok(v) => v,
            Err(e) => return Err(ManageError::InvalidColor(e)),
        };
        let name = match p.window_name(window) {
            Ok(n) => n,
            Err(e) => {
                assert(p.answers() == old(p).answers().push(Answer::Name(Err(e))));
                return Err(ManageError::Platform(e));
            },
        };
        let border = self.config.border.width;
        let managed = p.manage(
            window,
            frame_geometry(geometry, border),
            reparent_offset(border),
            background,
            self.root,
        );
        assert(p.sent() =~= old(p).sent() + old(self).manage_requests(window, geometry));
        let ghost k = old(p).answers().len() as int;
        let managed: ManagedFrame = match managed {
            Ok(f) => f,
            Err(e) => {
                assert(p.answers() =~= old(p).answers() + seq![
                    p.answers()[k],
                    Answer::Framed(Err(e)),
                ]);
                return Err(ManageError::Platform(e));
            },
        };
        let ghost pre = self.monitors@;
        let ghost pre_clients = self.clients@;
        let id = ClientId(self.next_id);
        self.clients.push(Client::new(id, name, window, managed.frame, geometry));
        self.monitors[m].tags[0].push_client(id);
        self.ignored.record(managed.sequence);
        self.next_id = self.next_id + 1;
        proof {
            assert(self.clients@.drop_last() =~= pre_clients);
            assert forall|mm: int, t: int|
                0 <= mm < self.monitors@.len() && 0 <= t < self.monitors@[mm].tags@.len() implies (
            #[trigger] self.monitors@[mm].tags@[t]).wf() by {
                if mm != m || t != 0 {
                    assert(self.monitors@[mm].tags@[t] == pre[mm].tags@[t]);
                }
            }
            assert forall|mm: int, t: int, k: int|
                0 <= mm < self.monitors@.len() && 0 <= t < self.monitors@[mm].tags@.len() && 0
                    <= k < self.members_at(mm, t).len() implies (#[trigger] self.members_at(
                mm,
                t,
            )[k]).0 < self.next_id by {
                if mm == m && t == 0 {
                    if k < pre[mm].tags@[t].members().len() {
                        assert(self.members_at(mm, t)[k] == old(self).members_at(mm, t)[k]);
                    }
                } else {
                    assert(self.monitors@[mm].tags@[t] == pre[mm].tags@[t]);
                    assert(self.members_at(mm, t)[k] == old(self).members_at(mm, t)[k]);
                }
            }
            assert forall|i: int, j: int|
                0 <= i < j < self.clients@.len() implies #[trigger] self.clients@[i].id
                != #[trigger] self.clients@[j].id by {
                if j == self.clients@.len() - 1 {
                    assert(pre_clients[i].id.0 < id.0);
                }
            }
            assert(p.answers() =~= old(p).answers() + seq![p.answers()[k], p.answers()[k + 1]]);
        }
        Ok(id)
    }

    /// Forgets client `id`: every tag drops it and its record goes; the record
    /// is handed back when there was one.
    fn drop_client(&mut self, id: ClientId) -> (r: Option<Client>)
        requires
            old(self).wf(),
        ensures
            final(self).wf(),
            old(self).drop_effect(*final(self), id),
            final(self).dragging == old(self).dragging,
            r is Some <==> old(self).has_client(id),
            r matches Some(c) ==> c == old(self).clients@[old(self).index_of(id)],
    {
        self.remove_from_tags(id);
        assert(self.has_client(id) == old(self).has_client(id));
        assert(self.index_of(id) == old(self).index_of(id));
        match self.find_client(id) {
            None => None,
            Some(i) => {
                let ghost pre_clients = self.clients@;
                let ghost mid = *self;
                let c = self.clients.remove(i);
                proof {
                    lemma_remove_keeps_unique(pre_clients, i as int, self.next_id);
                    assert(self.clients@ == old(self).clients@.remove(old(self).index_of(id)));
                    assert forall|m: int, t: int|
                        0 <= m < self.monitors@.len() && 0 <= t < self.monitors@[m].tags@.len()
                            implies #[trigger] self.members_at(m, t) == mid.members_at(m, t) by {}
                }
                Some(c)
            },
        }
    }

    /// Releases client `id`: every tag forgets it, and when its record exists
    /// the record goes and the platform hands the window back to the root,
    /// destroying its frame unless the client is fullscreen. Unmanaging an
    /// unknown handle changes nothing.
    pub fn unmanage<P: RWMPlatform>(&mut self, p: &mut Server<P>, id: ClientId)
        requires
            old(self).wf(),
        ensures
            final(self).wf(),
            old(self).drop_effect(*final(self), id),
            final(self).dragging == old(self).dragging,
            old(self).has_client(id) ==> final(p).sent() == old(p).sent().push(
                old(self).unmanage_request(old(self).clients@[old(self).index_of(id)]),
            ),
            !old(self).has_client(id) ==> final(p).sent() == old(p).sent(),
            final(p).answers() == old(p).answers(),
    {
        match self.drop_client(id) {
            None => {},
            Some(c) => {
                let frame = if c.state.fullscreen {
                    None
                } else {
                    Some(c.frame)
                };
                p.unmanage(c.window, c.geometry, frame, self.root);
            },
        }
    }

    /// Puts client `id` in fullscreen on the monitor it overlaps most: the
    /// frame is deleted, the window takes the monitor's dimensions and the
    /// focus. Nothing happens for an unknown or already fullscreen client, or
    /// without monitors.
    pub fn enter_fullscreen<P: RWMPlatform>(&mut self, p: &mut Server<P>, id: ClientId)
        requires
            old(self).wf(),
        ensures
            final(self).wf(),
            old(self).has_client(id) && !old(self).is_fullscreen_client(id)
                && old(self).monitors@.len() > 0 ==> old(self).enter_effect(*final(self), id),
            !(old(self).has_client(id) && !old(self).is_fullscreen_client(id)
                && old(self).monitors@.len() > 0) ==> *final(self) == *old(self),
            old(self).has_client(id) && !old(self).is_fullscreen_client(id)
                && old(self).monitors@.len() > 0 ==> final(p).sent() == old(p).sent()
                + old(self).fullscreen_requests(id),
            !(old(self).has_client(id) && !old(self).is_fullscreen_client(id)
                && old(self).monitors@.len() > 0) ==> final(p).sent() == old(p).sent(),
    {
        let i = match self.find_client(id) {
            None => return ,
            Some(i) => i,
        };
        if self.clients[i].state.fullscreen {
            return ;
        }
        let dims = self.monitor_dims();
        if dims.len() == 0 {
            return ;
        }
        let g = self.clients[i].geometry;
        let m = self.home_monitor(g, dims);
        let target = self.monitors[m].dimensions;
        let window = self.clients[i].window;
        let frame = self.clients[i].frame;
        let ghost mid = *self;
        let c = &mut self.clients[i];
        c.original_geometry = g;
        c.set_geometry(target);
        let mut state = c.state;
        state.fullscreen = true;
        c.set_state(state);
        c.transitioning = true;
        proof {
            assert(self.clients@ =~= old(self).clients@.update(
                i as int,
                Client {
                    geometry: target,
                    prev_geometry: g,
                    original_geometry: g,
                    state: ClientState { fullscreen: true, ..old(self).clients@[i as int].state },
                    prev_state: old(self).clients@[i as int].state,
                    transitioning: true,
                    ..old(self).clients@[i as int]
                },
            ));
            assert forall|a: int, b: int|
                0 <= a < b < self.clients@.len() implies #[trigger] self.clients@[a].id
                != #[trigger] self.clients@[b].id by {
                assert(self.clients@[a].id == mid.clients@[a].id);
                assert(self.clients@[b].id == mid.clients@[b].id);
            }
            assert forall|a: int| 0 <= a < self.clients@.len() implies (
            #[trigger] self.clients@[a].id).0 < self.next_id by {
                assert(self.clients@[a].id == mid.clients@[a].id);
            }
        }
        p.delete_frame(target, window, frame, self.root);
        p.update_client_geometry(target, window);
        p.focus(window);
        assert(p.sent() =~= old(p).sent() + old(self).fullscreen_requests(id));
    }

    /// Takes client `id` out of fullscreen: the drag ends, the pointer is
    /// released, the record is dropped and the window is managed afresh at the
    /// geometry it had before entering, with a new frame, and focused.
    /// Returns `None` when `id` is not a fullscreen client, and otherwise what
    /// managing the window again gave.
    pub fn exit_fullscreen<P: RWMPlatform>(&mut self, p: &mut Server<P>, id: ClientId) -> (r: Option<
        Result<ClientId, ManageError>,
    >)
        requires
            old(self).wf(),
        ensures
            final(self).wf(),
            old(self).is_fullscreen_client(id) ==> r is Some,
            r matches Some(res) ==> old(self).exit_effect(*final(self), id, res),
            r is Some ==> old(p).sent().len() <= final(p).sent().len() && final(p).sent().subrange(
                0,
                old(p).sent().len() as int,
            ) == old(p).sent(),
            r matches Some(res) ==> old(self).exit_requests_fit(
                old(self).clients@[old(self).index_of(id)],
                res,
                final(self).clients@.last().frame,
                final(p).sent().subrange(old(p).sent().len() as int, final(p).sent().len() as int),
            ),
            r matches Some(res) ==> manage_answered(
                res,
                old(p).answers(),
                final(p).answers(),
                old(self).ignored@,
                *final(self),
            ),
            !old(self).is_fullscreen_client(id) ==> *final(self) == *old(self) && r is None
                && final(p).sent() == old(p).sent() && final(p).answers() == old(p).answers(),
    {
        let i = match self.find_client(id) {
            None => return None,
            Some(i) => i,
        };
        if !self.clients[i].state.fullscreen {
            return None;
        }
        let ghost c = self.clients@[i as int];
        let ghost sent0 = p.sent();
        let window = self.clients[i].window;
        let restored = self.clients[i].original_geometry;
        self.dragging = None;
        p.ungrab_mouse();
        let ghost undragged = *self;
        let _ = self.drop_client(id);
        proof {
            assert(old(self).drop_effect(*self, id));
            assert(undragged.index_of(id) == old(self).index_of(id));
        }
        let ghost mid = *self;
        let ghost sent1 = p.sent();
        let result = self.manage(p, window, restored);
        proof {
            assert forall|k: int| 0 <= k < mid.monitors@.len() implies mid.dims()[k]
                == old(self).dims()[k] by {
                assert(mid.monitors@[k].tags@.len() == old(self).monitors@[k].tags@.len());
            }
            assert(mid.dims() =~= old(self).dims());
            assert(mid.manage_errors(restored, result));
            if old(self).monitors@.len() > 0 {
                lemma_first_max_exists(old(self).dims(), restored);
                let h = old(self).home(restored);
                assert(mid.home(restored) == h);
                assert(mid.monitors@[h].tags@.len() == old(self).monitors@[h].tags@.len());
            }
            assert(old(self).manage_errors(restored, result));
        }
        let ghost after = *self;
        let ghost sent2 = p.sent();
        let mut frame_sent: u32 = 0;
        match result {
            Ok(new) => {
                let k = self.clients.len() - 1;
                self.clients[k].transitioning = true;
                proof {
                    assert forall|a: int, b: int|
                        0 <= a < b < self.clients@.len() implies #[trigger] self.clients@[a].id
                        != #[trigger] self.clients@[b].id by {
                        assert(self.clients@[a].id == after.clients@[a].id);
                        assert(self.clients@[b].id == after.clients@[b].id);
                    }
                    assert forall|a: int| 0 <= a < self.clients@.len() implies (
                    #[trigger] self.clients@[a].id).0 < self.next_id by {
                        assert(self.clients@[a].id == after.clients@[a].id);
                    }
                    assert(self.clients@ =~= after.clients@.update(
                        after.clients@.len() - 1,
                        Client { transitioning: true, ..after.clients@.last() },
                    ));
                    assert(mid.remanaged(after, *self, new, c.window, c.original_geometry));
                }
                let border = self.config.border.width;
                frame_sent = self.clients[k].frame;
                p.update_bordered_client_geometry(
                    frame_geometry(restored, border),
                    reparent_offset(border),
                    window,
                    frame_sent,
                );
            },
            Err(_) => {},
        }
        p.focus(window);
        proof {
            assert(old(self).drop_effect(mid, id));
            assert(old(self).exit_via(*self, id, result, mid));
            let tail = p.sent().subrange(sent0.len() as int, p.sent().len() as int);
            assert(p.sent().subrange(0, sent0.len() as int) =~= sent0);
            let again = old(self).manage_requests(c.window, c.original_geometry);
            assert(mid.manage_requests(c.window, c.original_geometry) == again);
            match result {
                Ok(_) => {
                    assert(tail =~= seq![Request::UngrabMouse] + again + seq![
                        Request::UpdateBordered {
                            frame_geometry: framed(c.original_geometry, self.config.border.width),
                            offset: (self.config.border.width + self.config.border.width / 2) as i16,
                            window: c.window,
                            frame: frame_sent,
                        },
                        Request::Focus { window: c.window },
                    ]);
                    assert(old(self).exit_requests_fit(c, result, frame_sent, tail));
                },
                Err(ManageError::Platform(_)) => {
                    if sent2 == sent1.push(Request::WindowName { window }) {
                        assert(tail =~= seq![Request::UngrabMouse] + seq![
                            again[0],
                            Request::Focus { window: c.window },
                        ]);
                    } else {
                        assert(tail =~= seq![Request::UngrabMouse] + again + seq![
                            Request::Focus { window: c.window },
                        ]);
                    }
                    assert(old(self).exit_requests_fit(c, result, frame_sent, tail));
                },
                Err(_) => {
                    assert(tail =~= seq![Request::UngrabMouse] + seq![
                        Request::Focus { window: c.window },
                    ]);
                    assert(old(self).exit_requests_fit(c, result, frame_sent, tail));
                },
            }
        }
        Some(result)
    }

    /// Pushes the geometry of client `id` to the server, with its frame around
    /// it; fullscreen and unknown clients are left alone.
    pub fn update_client_geometry<P: RWMPlatform>(&self, p: &mut Server<P>, id: ClientId)
        requires
            self.wf(),
        ensures
            self.has_client(id) && !self.is_fullscreen_client(id) ==> final(p).sent() == old(
                p,
            ).sent().push(self.bordered_request(self.clients@[self.index_of(id)])),
            !(self.has_client(id) && !self.is_fullscreen_client(id)) ==> final(p).sent() == old(
                p,
            ).sent(),
    {
        match self.find_client(id) {
            None => {},
            Some(i) => {
                let c = &self.clients[i];
                if !c.state.fullscreen {
                    let border = self.config.border.width;
                    p.update_bordered_client_geometry(
                        frame_geometry(c.geometry, border),
                        reparent_offset(border),
                        c.window,
                        c.frame,
                    );
                }
            },
        }
    }

    /// Enters fullscreen for a client that is not, leaves it for one that is.
    pub fn toggle_fullscreen<P: RWMPlatform>(&mut self, p: &mut Server<P>, id: ClientId)
        requires
            old(self).wf(),
        ensures
            final(self).wf(),
            old(self).toggle_step(*final(self), id, old(p).sent(), final(p).sent()),
    {
        match self.find_client(id) {
            None => {},
            Some(i) => {
                if self.clients[i].state.fullscreen {
                    let r = self.exit_fullscreen(p, id);
                    assert(old(self).exit_effect(*self, id, r->Some_0));
                } else {
                    self.enter_fullscreen(p, id);
                }
            },
        }
    }

    /// Toggles fullscreen for every client that a fullscreen key binding
    /// addressed, one event after the other.
    pub fn handle_fullscreen<P: RWMPlatform>(&mut self, p: &mut Server<P>, events: &Vec<KeybindTriggered>)
        requires
            old(self).wf(),
        ensures
            final(self).wf(),
            exists|states: Seq<WindowManager>, logs: Seq<Seq<Request>>| #[trigger]
                old(self).batch_via(*final(self), events@, old(p).sent(), final(p).sent(), states, logs),
    {
        let n = events.len();
        let mut i: usize = 0;
        let ghost mut states: Seq<WindowManager> = seq![*self];
        let ghost mut logs: Seq<Seq<Request>> = seq![p.sent()];
        while i < n
            invariant
                n == events@.len(),
                i <= n,
                self.wf(),
                states.len() == i + 1,
                logs.len() == i + 1,
                states[0] == *old(self),
                states.last() == *self,
                logs[0] == old(p).sent(),
                logs.last() == p.sent(),
                forall|j: int|
                    0 <= j < i ==> #[trigger] states[j].event_step(
                        states[j + 1],
                        events@[j],
                        logs[j],
                        logs[j + 1],
                    ),
            decreases n - i,
        {
            let ghost before = *self;
            let ghost sent_before = p.sent();
            let ev = &events[i];
            if ev.action.is_toggle_fullscreen() {
                if let Some(c) = ev.client {
                    self.toggle_fullscreen(p, c);
                }
            }
            proof {
                assert(before.event_step(*self, events@[i as int], sent_before, p.sent()));
                let prev = states;
                let prev_logs = logs;
                states = states.push(*self);
                logs = logs.push(p.sent());
                assert forall|j: int| 0 <= j < i + 1 implies #[trigger] states[j].event_step(
                    states[j + 1],
                    events@[j],
                    logs[j],
                    logs[j + 1],
                ) by {
                    if j < i {
                        assert(states[j] == prev[j]);
                        assert(states[j + 1] == prev[j + 1]);
                        assert(logs[j] == prev_logs[j]);
                        assert(logs[j + 1] == prev_logs[j + 1]);
                    }
                }
            }
            i += 1;
        }
        assert(old(self).batch_via(*self, events@, old(p).sent(), p.sent(), states, logs));
    }
}

/// A non-empty list of monitors has a first one with the largest overlap.
proof fn lemma_first_max_exists(ms: Seq<Geometry>, c: Geometry)
    requires
        ms.len() > 0,
    ensures
        is_first_max(ms, c, choose|m: int| is_first_max(ms, c, m)),
    decreases ms.len(),
{
    if ms.len() == 1 {
        assert(is_first_max(ms, c, 0));
    } else {
        let init = ms.drop_last();
        lemma_first_max_exists(init, c);
        let k = choose|m: int| is_first_max(init, c, m);
        let last = ms.len() - 1;
        assert(forall|j: int| 0 <= j < init.len() ==> ms[j] == init[j]);
        if ms[last].overlap_spec(c) > ms[k].overlap_spec(c) {
            assert(is_first_max(ms, c, last));
        } else {
            assert(is_first_max(ms, c, k));
        }
    }
}

/// Only one index can be the first with the largest overlap.
proof fn lemma_first_max_unique(ms: Seq<Geometry>, c: Geometry, a: int, b: int)
    requires
        is_first_max(ms, c, a),
        b == choose|m: int| is_first_max(ms, c, m),
    ensures
        is_first_max(ms, c, b),
        a == b,
{
    assert(is_first_max(ms, c, b));
    if a < b {
        assert(ms[a].overlap_spec(c) < ms[b].overlap_spec(c));
    } else if b < a {
        assert(ms[b].overlap_spec(c) < ms[a].overlap_spec(c));
    }
}

/// Removing one record keeps the handles distinct and below the bound.
proof fn lemma_remove_keeps_unique(cs: Seq<Client>, i: int, bound: u64)
    requires
        0 <= i < cs.len(),
        forall|a: int, b: int| 0 <= a < b < cs.len() ==> #[trigger] cs[a].id != #[trigger] cs[b].id,
        forall|a: int| 0 <= a < cs.len() ==> (#[trigger] cs[a].id).0 < bound,
    ensures
        forall|a: int, b: int|
            0 <= a < b < cs.remove(i).len() ==> #[trigger] cs.remove(i)[a].id
                != #[trigger] cs.remove(i)[b].id,
        forall|a: int| 0 <= a < cs.remove(i).len() ==> (#[trigger] cs.remove(i)[a].id).0 < bound,
{
    let r = cs.remove(i);
    assert forall|a: int| 0 <= a < r.len() implies r[a] == (if a < i {
        cs[a]
    } else {
        cs[a + 1]
    }) by {}
    assert forall|a: int, b: int| 0 <= a < b < r.len() implies #[trigger] r[a].id
        != #[trigger] r[b].id by {
        let a2 = if a < i {
            a
        } else {
            a + 1
        };
        let b2 = if b < i {
            b
        } else {
            b + 1
        };
        assert(r[a] == cs[a2]);
        assert(r[b] == cs[b2]);
    }
    assert forall|a: int| 0 <= a < r.len() implies (#[trigger] r[a].id).0 < bound by {
        let a2 = if a < i {
            a
        } else {
            a + 1
        };
        assert(r[a] == cs[a2]);
    }
}

/// Whether a window found at start-up is taken under management: one that
/// is mapped and does not bypass the window manager.
pub fn manages_existing(override_redirect: bool, unmapped: bool) -> (r: bool)
    ensures
        r == (!override_redirect && !unmapped),
{
    !override_redirect && !unmapped
}

/// The label a tag of index `idx` gets from the tags configuration.
pub open spec fn configured_label(tags: TagsConfig, idx: u8) -> Seq<char> {
    match tags.label_field(idx) {
        Some(l) => l@,
        None => Seq::empty(),
    }
}

/// One tag for each enabled tag of the configuration, labelled from it.
fn build_tags(config: &MainConfig) -> (r: Vec<Tag>)
    ensures
        r@.len() == config.tags.enabled_tags@.len(),
        forall|t: int|
            0 <= t < r@.len() ==> {
                &&& (#[trigger] r@[t]).index() == config.tags.enabled_tags@[t]
                &&& r@[t].label_view() == configured_label(config.tags, config.tags.enabled_tags@[t])
                &&& r@[t].members().len() == 0
                &&& r@[t].wf()
            },
{
    let mut tags: Vec<Tag> = Vec::new();
    let n = config.tags.enabled_tags.len();
    let mut k: usize = 0;
    while k < n
        invariant
            n == config.tags.enabled_tags@.len(),
            k <= n,
            tags@.len() == k,
            forall|t: int|
                0 <= t < k ==> {
                    &&& (#[trigger] tags@[t]).index() == config.tags.enabled_tags@[t]
                    &&& tags@[t].label_view() == configured_label(
                        config.tags,
                        config.tags.enabled_tags@[t],
                    )
                    &&& tags@[t].members().len() == 0
                    &&& tags@[t].wf()
                },
        decreases n - k,
    {
        let idx = config.tags.enabled_tags[k];
        let label = match config.tags.label(idx) {
            Some(l) => l,
            None => String::new(),
        };
        tags.push(Tag::new(idx, label, Layout::new("[]", "test", LayoutKind::Test)));
        k += 1;
    }
    tags
}

} // verus!

verus! {

/// Managing a window and then unmanaging the client it became leaves every
/// tag's client list, and the set of client records, as they were before.
pub proof fn lemma_manage_then_unmanage(
    w0: WindowManager,
    w1: WindowManager,
    w2: WindowManager,
    id: ClientId,
    window: u32,
    geometry: Geometry,
)
    requires
        w0.wf(),
        w0.manage_effect(w1, id, window, geometry),
        w1.wf(),
        w1.drop_effect(w2, id),
    ensures
        w0.same_shape(w2),
        forall|m: int, t: int|
            0 <= m < w0.monitors@.len() && 0 <= t < w0.monitors@[m].tags@.len()
                ==> #[trigger] w2.members_at(m, t) == w0.members_at(m, t),
        w2.clients@ == w0.clients@,
{
    let n = w0.clients@.len();
    assert(w1.clients@[n as int].id == id);
    assert(w1.has_client(id));
    let k = w1.index_of(id);
    if k != n {
        assert(w1.clients@[k].id != w1.clients@[n as int].id);
    }
    assert(w1.clients@.remove(n as int) =~= w1.clients@.drop_last());
    assert forall|m: int, t: int|
        0 <= m < w0.monitors@.len() && 0 <= t < w0.monitors@[m].tags@.len() implies #[trigger] w2.members_at(
        m,
        t,
    ) == w0.members_at(m, t) by {
        let s = w0.members_at(m, t);
        assert(!s.contains(id)) by {
            if s.contains(id) {
                let j = choose|j: int| 0 <= j < s.len() && s[j] == id;
                assert(w0.members_at(m, t)[j].0 < w0.next_id);
            }
        }
        lemma_remove_absent(s, id);
        if m == w0.home(geometry) && t == 0 {
            assert(s.push(id).drop_last() =~= s);
            assert(remove_all(s.push(id), id) == remove_all(s, id));
        }
    }
}

/// Unmanaging a handle a second time changes nothing, and unmanaging never
/// drops another client's record or tag entry.
pub proof fn lemma_unmanage_idempotent(
    w0: WindowManager,
    w1: WindowManager,
    w2: WindowManager,
    id: ClientId,
)
    requires
        w0.wf(),
        w0.drop_effect(w1, id),
        w1.wf(),
        w1.drop_effect(w2, id),
    ensures
        w1.same_shape(w2),
        w2.clients@ == w1.clients@,
        forall|m: int, t: int|
            0 <= m < w1.monitors@.len() && 0 <= t < w1.monitors@[m].tags@.len()
                ==> #[trigger] w2.members_at(m, t) == w1.members_at(m, t),
        !w1.has_client(id),
        forall|other: ClientId| other != id && #[trigger] w0.has_client(other) ==> w1.has_client(other),
        forall|other: ClientId, m: int, t: int|
            other != id && 0 <= m < w0.monitors@.len() && 0 <= t < w0.monitors@[m].tags@.len()
                && #[trigger] w0.members_at(m, t).contains(other) ==> w1.members_at(m, t).contains(
                other,
            ),
{
    assert(!w1.has_client(id)) by {
        if w0.has_client(id) {
            let i = w0.index_of(id);
            if w1.has_client(id) {
                let j = w1.index_of(id);
                let j2 = if j < i {
                    j
                } else {
                    j + 1
                };
                assert(w1.clients@[j] == w0.clients@[j2]);
                assert(w0.clients@[j2].id != w0.clients@[i].id);
            }
        }
    }
    assert forall|m: int, t: int|
        0 <= m < w1.monitors@.len() && 0 <= t < w1.monitors@[m].tags@.len() implies #[trigger] w2.members_at(
        m,
        t,
    ) == w1.members_at(m, t) by {
        lemma_remove_all_members(w0.members_at(m, t), id);
        lemma_remove_absent(w1.members_at(m, t), id);
    }
    assert forall|other: ClientId| other != id && #[trigger] w0.has_client(other) implies w1.has_client(
        other,
    ) by {
        let j = w0.index_of(other);
        if w0.has_client(id) {
            let i = w0.index_of(id);
            let j1 = if j < i {
                j
            } else {
                j - 1
            };
            assert(w1.clients@[j1] == w0.clients@[j]);
        } else {
            assert(w1.clients@[j] == w0.clients@[j]);
        }
    }
    assert forall|other: ClientId, m: int, t: int|
        other != id && 0 <= m < w0.monitors@.len() && 0 <= t < w0.monitors@[m].tags@.len()
            && #[trigger] w0.members_at(m, t).contains(other) implies w1.members_at(m, t).contains(
        other,
    ) by {
        lemma_remove_keeps_others(w0.members_at(m, t), id, other);
    }
}

/// Entering fullscreen and then leaving it gives the window back the exact
/// geometry it had before entering; while fullscreen it covers its monitor.
pub proof fn lemma_fullscreen_round_trip(
    w0: WindowManager,
    w1: WindowManager,
    w2: WindowManager,
    id: ClientId,
    new: ClientId,
)
    requires
        w0.wf(),
        w0.has_client(id),
        !w0.is_fullscreen_client(id),
        w0.monitors@.len() > 0,
        w0.enter_effect(w1, id),
        w1.wf(),
        w1.exit_effect(w2, id, Ok(new)),
    ensures
        w1.is_fullscreen_client(id),
        w1.clients@[w1.index_of(id)].geometry == w0.monitors@[w0.home(
            w0.clients@[w0.index_of(id)].geometry,
        )].dimensions,
        w2.clients@.last().id == new,
        w2.clients@.last().geometry == w0.clients@[w0.index_of(id)].geometry,
{
    let i = w0.index_of(id);
    assert(w1.clients@[i].id == id);
    assert(w1.has_client(id));
    let k = w1.index_of(id);
    if k != i {
        if k < i {
            assert(w1.clients@[k].id != w1.clients@[i].id);
        } else {
            assert(w1.clients@[i].id != w1.clients@[k].id);
        }
    }
    let c = w1.clients@[k];
    let mid = choose|mid: WindowManager| #[trigger] w1.exit_via(w2, id, Ok(new), mid);
    let after = choose|after: WindowManager| #[trigger]
        mid.remanaged(after, w2, new, c.window, c.original_geometry);
    assert(w2.clients@[w2.clients@.len() - 1] == Client {
        transitioning: true,
        ..after.clients@.last()
    });
}

} // verus!
