use vstd::prelude::*;

use crate::geometry::Geometry;

verus! {

/// A protocol request that the display server refused or could not answer.
#[derive(Debug, Clone, PartialEq, Eq)]
pub struct PlatformError {
    /// What the server or the connection reported.
    pub message: String,
}

/// The rectangle of a decoration frame, which may reach past the screen edges.
#[derive(Debug, Clone, Copy, PartialEq, Eq, Structural)]
pub struct FrameGeometry {
    pub x: i64,
    pub y: i64,
    pub width: u64,
    pub height: u64,
}

/// The frame grown around `g` by a border of `border` on each side.
pub open spec fn framed(g: Geometry, border: u8) -> FrameGeometry {
    FrameGeometry {
        x: (g.x - border) as i64,
        y: (g.y - border) as i64,
        width: (g.width + 2 * border) as u64,
        height: (g.height + 2 * border) as u64,
    }
}

/// Where a frame goes for a client at `(x, y)`: one border width up and left.
pub open spec fn frame_corner(x: i32, y: i32, border: u8) -> (i64, i64) {
    ((x - border) as i64, (y - border) as i64)
}

/// Where a frame goes for a client at `(x, y)`: one border width up and left.
pub fn frame_position(x: i32, y: i32, border: u8) -> (r: (i64, i64))
    ensures
        r == frame_corner(x, y, border),
{
    (x as i64 - border as i64, y as i64 - border as i64)
}

/// The frame that surrounds a client of geometry `g` with a border of `border`.
pub fn frame_geometry(g: Geometry, border: u8) -> (r: FrameGeometry)
    ensures
        r == framed(g, border),
{
    FrameGeometry {
        x: g.x as i64 - border as i64,
        y: g.y as i64 - border as i64,
        width: g.width as u64 + 2 * border as u64,
        height: g.height as u64 + 2 * border as u64,
    }
}

/// Where a client window sits inside its frame: one and a half border widths
/// from the frame's corner, rounded down.
pub fn reparent_offset(border: u8) -> (r: i16)
    ensures
        r == border + border / 2,
{
    border as i16 + (border / 2) as i16
}

/// What the display server gave back for a newly framed window.
#[derive(Debug, Clone, Copy, PartialEq, Eq, Structural)]
pub struct ManagedFrame {
    /// The frame window created around the client.
    pub frame: u32,
    /// The sequence number of the request that reparented the client into the
    /// frame, whose notifications are to be ignored.
    pub sequence: u16,
}

/// A request to the display server, as the core asks for it.
#[derive(Debug, Clone, Copy, PartialEq, Eq)]
pub enum Request {
    /// Read the title of `window`.
    WindowName { window: u32 },
    /// Frame `window`: see [`RWMPlatform::manage`].
    Manage { window: u32, frame: FrameGeometry, offset: i16, background: u32, root: u32 },
    /// Hand `window` back to `root`: see [`RWMPlatform::unmanage`].
    Unmanage { window: u32, geometry: Geometry, frame: Option<u32>, root: u32 },
    /// Move `window` inside `frame`: see [`RWMPlatform::update_bordered_client_geometry`].
    UpdateBordered { frame_geometry: FrameGeometry, offset: i16, window: u32, frame: u32 },
    /// Take `window` out of `frame` and destroy the frame.
    DeleteFrame { geometry: Geometry, window: u32, frame: u32, root: u32 },
    /// Move and resize `window`.
    UpdateClientGeometry { geometry: Geometry, window: u32 },
    /// Move `frame`.
    MoveFrame { frame: u32, x: i64, y: i64 },
    /// Raise `frame`.
    Raise { frame: u32 },
    /// Focus `window`.
    Focus { window: u32 },
    /// Release the pointer grab.
    UngrabMouse,
    /// Read the pointer position relative to `root`.
    QueryPointer { root: u32 },
}

/// A display protocol that the window manager can run on. The core decides;
/// an implementation performs the protocol requests and reports what the
/// server answered.
pub trait RWMPlatform {
    /// Reads the title of `window`.
    fn window_name(&mut self, window: u32) -> Result<String, PlatformError>;

    /// Creates a frame at `frame` on `root` with the given background colour,
    /// reparents `window` into it at `(offset, offset)` and maps both.
    fn manage(
        &mut self,
        window: u32,
        frame: FrameGeometry,
        offset: i16,
        background: u32,
        root: u32,
    ) -> Result<ManagedFrame, PlatformError>;

    /// Hands `window` back to `root` at the position of `geometry`, and
    /// destroys `frame` when one is given.
    fn unmanage(&mut self, window: u32, geometry: Geometry, frame: Option<u32>, root: u32);

    /// Moves and resizes `window` to `frame_geometry` and reparents it into
    /// `frame` at `(offset, offset)`.
    fn update_bordered_client_geometry(
        &mut self,
        frame_geometry: FrameGeometry,
        offset: i16,
        window: u32,
        frame: u32,
    );

    /// Reparents `window` to `root` at the position of `geometry` and destroys `frame`.
    fn delete_frame(&mut self, geometry: Geometry, window: u32, frame: u32, root: u32);

    /// Moves and resizes `window` to `geometry`.
    fn update_client_geometry(&mut self, geometry: Geometry, window: u32);

    /// Moves `frame` so that its corner is at `(x, y)`.
    fn move_frame(&mut self, frame: u32, x: i64, y: i64);

    /// Raises `frame` to the top of the stacking order.
    fn raise(&mut self, frame: u32);

    /// Gives the input focus to `window`.
    fn focus(&mut self, window: u32);

    /// Releases the pointer grab.
    fn ungrab_mouse(&mut self);

    /// The pointer position relative to `root`, if the server answered.
    fn query_pointer(&mut self, root: u32) -> Option<(i32, i32)>;
}

/// What the server answered to a request that has an answer.
#[derive(Debug)]
pub enum Answer {
    /// The answer to [`Request::WindowName`].
    Name(Result<String, PlatformError>),
    /// The answer to [`Request::Manage`].
    Framed(Result<ManagedFrame, PlatformError>),
    /// The answer to [`Request::QueryPointer`].
    Pointer(Option<(i32, i32)>),
}

/// The display server as the core sees it: a platform, the sequence of
/// requests the core has made through it, and the answers it got back.
pub struct Server<P: RWMPlatform> {
    /// The platform that performs the requests.
    pub platform: P,
    sent: Ghost<Seq<Request>>,
    answers: Ghost<Seq<Answer>>,
}

impl<P: RWMPlatform> Server<P> {
    /// The requests made so far, in order.
    pub closed spec fn sent(&self) -> Seq<Request> {
        self.sent@
    }

    /// The answers received so far, in order.
    pub closed spec fn answers(&self) -> Seq<Answer> {
        self.answers@
    }

    /// A server that has been asked nothing yet.
    pub fn new(platform: P) -> (r: Server<P>)
        ensures
            r.sent() == Seq::<Request>::empty(),
            r.answers() == Seq::<Answer>::empty(),
    {
        Server { platform, sent: Ghost(Seq::empty()), answers: Ghost(Seq::empty()) }
    }

    /// Reads the title of `window`.
    pub fn window_name(&mut self, window: u32) -> (r: Result<String, PlatformError>)
        ensures
            final(self).sent() == old(self).sent().push(Request::WindowName { window }),
            final(self).answers() == old(self).answers().push(Answer::Name(r)),
    {
        let r = self.platform.window_name(window);
        self.sent = Ghost(self.sent@.push(Request::WindowName { window }));
        self.answers = Ghost(self.answers@.push(Answer::Name(r)));
        r
    }

    /// Frames `window`.
    pub fn manage(
        &mut self,
        window: u32,
        frame: FrameGeometry,
        offset: i16,
        background: u32,
        root: u32,
    ) -> (r: Result<ManagedFrame, PlatformError>)
        ensures
            final(self).sent() == old(self).sent().push(
                Request::Manage { window, frame, offset, background, root },
            ),
            final(self).answers() == old(self).answers().push(Answer::Framed(r)),
    {
        let r = self.platform.manage(window, frame, offset, background, root);
        self.sent = Ghost(
            self.sent@.push(Request::Manage { window, frame, offset, background, root }),
        );
        self.answers = Ghost(self.answers@.push(Answer::Framed(r)));
        r
    }

    /// Hands `window` back to `root`.
    pub fn unmanage(&mut self, window: u32, geometry: Geometry, frame: Option<u32>, root: u32)
        ensures
            final(self).sent() == old(self).sent().push(
                Request::Unmanage { window, geometry, frame, root },
            ),
            final(self).answers() == old(self).answers(),
    {
        self.platform.unmanage(window, geometry, frame, root);
        self.sent = Ghost(self.sent@.push(Request::Unmanage { window, geometry, frame, root }));
    }

    /// Moves `window` inside `frame`.
    pub fn update_bordered_client_geometry(
        &mut self,
        frame_geometry: FrameGeometry,
        offset: i16,
        window: u32,
        frame: u32,
    )
        ensures
            final(self).sent() == old(self).sent().push(
                Request::UpdateBordered { frame_geometry, offset, window, frame },
            ),
            final(self).answers() == old(self).answers(),
    {
        self.platform.update_bordered_client_geometry(frame_geometry, offset, window, frame);
        self.sent = Ghost(
            self.sent@.push(Request::UpdateBordered { frame_geometry, offset, window, frame }),
        );
    }

    /// Takes `window` out of `frame` and destroys the frame.
    pub fn delete_frame(&mut self, geometry: Geometry, window: u32, frame: u32, root: u32)
        ensures
            final(self).sent() == old(self).sent().push(
                Request::DeleteFrame { geometry, window, frame, root },
            ),
            final(self).answers() == old(self).answers(),
    {
        self.platform.delete_frame(geometry, window, frame, root);
        self.sent = Ghost(self.sent@.push(Request::DeleteFrame { geometry, window, frame, root }));
    }

    /// Moves and resizes `window`.
    pub fn update_client_geometry(&mut self, geometry: Geometry, window: u32)
        ensures
            final(self).sent() == old(self).sent().push(
                Request::UpdateClientGeometry { geometry, window },
            ),
            final(self).answers() == old(self).answers(),
    {
        self.platform.update_client_geometry(geometry, window);
        self.sent = Ghost(self.sent@.push(Request::UpdateClientGeometry { geometry, window }));
    }

    /// Moves `frame`.
    pub fn move_frame(&mut self, frame: u32, x: i64, y: i64)
        ensures
            final(self).sent() == old(self).sent().push(Request::MoveFrame { frame, x, y }),
            final(self).answers() == old(self).answers(),
    {
        self.platform.move_frame(frame, x, y);
        self.sent = Ghost(self.sent@.push(Request::MoveFrame { frame, x, y }));
    }

    /// Raises `frame`.
    pub fn raise(&mut self, frame: u32)
        ensures
            final(self).sent() == old(self).sent().push(Request::Raise { frame }),
            final(self).answers() == old(self).answers(),
    {
        self.platform.raise(frame);
        self.sent = Ghost(self.sent@.push(Request::Raise { frame }));
    }

    /// Focuses `window`.
    pub fn focus(&mut self, window: u32)
        ensures
            final(self).sent() == old(self).sent().push(Request::Focus { window }),
            final(self).answers() == old(self).answers(),
    {
        self.platform.focus(window);
        self.sent = Ghost(self.sent@.push(Request::Focus { window }));
    }

    /// Releases the pointer grab.
    pub fn ungrab_mouse(&mut self)
        ensures
            final(self).sent() == old(self).sent().push(Request::UngrabMouse),
            final(self).answers() == old(self).answers(),
    {
        self.platform.ungrab_mouse();
        self.sent = Ghost(self.sent@.push(Request::UngrabMouse));
    }

    /// Reads the pointer position relative to `root`.
    pub fn query_pointer(&mut self, root: u32) -> (r: Option<(i32, i32)>)
        ensures
            final(self).sent() == old(self).sent().push(Request::QueryPointer { root }),
            final(self).answers() == old(self).answers().push(Answer::Pointer(r)),
    {
        let r = self.platform.query_pointer(root);
        self.sent = Ghost(self.sent@.push(Request::QueryPointer { root }));
        self.answers = Ghost(self.answers@.push(Answer::Pointer(r)));
        r
    }
}

} // verus!
