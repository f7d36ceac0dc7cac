use vstd::prelude::*;

verus! {

/// Extended window manager hints atoms.
#[derive(Debug, Clone, Copy, PartialEq, Eq, Structural)]
pub enum NetAtom {
    Supported,
    WMName,
    WMState,
    WMCheck,
    WMFullscreen,
    ActiveWindow,
    WMWindowType,
    WMWindowTypeDialog,
    WMWindowTypeDock,
    ClientList,
    ClientInfo,
    WMWindowOpacity,
}

/// Inter-client communication atoms.
#[derive(Debug, Clone, Copy, PartialEq, Eq, Structural)]
pub enum Atom {
    WMProtocols,
    WMDelete,
    WMState,
    WMTakeFocus,
}

impl Atom {
    /// Whether this atom has a name to intern.
    pub open spec fn named(self) -> bool {
        self is WMProtocols || self is WMDelete
    }

    /// The name under which this atom is interned.
    pub fn id(&self) -> (r: &'static str)
        requires
            self.named(),
        ensures
            *self is WMProtocols ==> r@ == "WM_PROTOCOLS"@,
            *self is WMDelete ==> r@ == "WM_DELETE_WINDOW"@,
    {
        match self {
            Atom::WMProtocols => "WM_PROTOCOLS",
            _ => "WM_DELETE_WINDOW",
        }
    }
}

} // verus!
