use vstd::prelude::*;

verus! {

/// The keys that a play session tells apart.
#[derive(Clone, Copy, Debug, PartialEq, Eq, Structural)]
pub enum Key {
    Up,
    Down,
    Left,
    Right,
    Esc,
    Other,
}

/// One keyboard event: which key, and whether it was pressed (rather than
/// released or repeated).
#[derive(Clone, Copy, Debug, PartialEq, Eq, Structural)]
pub struct KeyEvent {
    pub code: Key,
    pub is_press: bool,
}

} // verus!
