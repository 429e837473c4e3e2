//! The engine's entire external vocabulary: a periodic tick carrying a
//! monotonic counter, and edge events for the five buttons.
use vstd::prelude::*;

verus! {

/// An input event fed into the state machine, one at a time.
#[derive(Clone, Copy, Debug, PartialEq, Eq, Structural)]
pub enum Event {
    Button(Buttons),
    Tick(u128),
}

/// The five buttons, each carrying its edge state.
#[derive(Clone, Copy, Debug, PartialEq, Eq, Structural)]
pub enum Buttons {
    Up(States),
    Down(States),
    Left(States),
    Right(States),
    Reset(States),
}

/// The edge a button event reports.
#[derive(Clone, Copy, Debug, PartialEq, Eq, Structural)]
pub enum States {
    Pressed,
    Released,
}

} // verus!
