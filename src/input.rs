use vstd::prelude::*;

verus! {

/// The abstract inputs that drive the table's state machine.
#[derive(Clone, Copy, Debug, PartialEq, Eq, Structural)]
pub enum Input {
    Left,
    Right,
    /// A board slot, numbered from one (the active slot) to six.
    Slot(usize),
    Hand,
    Discard,
    Stadium,
    LostZone,
    Prizes,
    Deck,
    Top,
    Bottom,
    Select,
    Cancel,
    Flip,
    Increment,
    Decrement,
    SwitchSides,
    Move,
    Swap,
    Append,
    Prepend,
    Observe,
    Shuffle,
    Roll,
}

} // verus!
