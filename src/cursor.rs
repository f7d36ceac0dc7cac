use vstd::prelude::*;

verus! {

/// A variant of a cursor.
#[derive(Debug, Clone, Copy, PartialEq, Eq, Structural)]
pub enum Cursor {
    /// The normal cursor.
    Normal,
    /// The resizing cursor when resizing a window by dragging.
    Resize,
    /// The move cursor when moving a window by dragging.
    Move,
    /// The pencil cursor for when in drawing mode.
    Pencil,
}

/// A type of colour scheme.
#[derive(Debug, Clone, Copy, PartialEq, Eq, Structural)]
pub enum ColorScheme {
    /// The normal colour scheme.
    Normal,
    /// The colour scheme for when something is selected.
    Selected,
    /// An alternative colour scheme.
    Alt,
}

} // verus!
