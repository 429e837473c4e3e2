//! The action/reaction vocabulary exchanged between items and the resolver,
//! and the deduplicated redraw requests a resolution pass collects.
use vstd::prelude::*;
use crate::{MAX_X, MAX_Y};

verus! {

/// A slot address into the grid: column, row and depth layer.
#[derive(Clone, Copy, Debug, PartialEq, Eq, Hash, Structural)]
pub struct Target {
    pub x: usize,
    pub y: usize,
    pub z: usize,
}

impl Target {
    pub fn new(x: usize, y: usize, z: usize) -> (t: Target)
        ensures
            t == (Target { x, y, z }),
    {
        Target { x, y, z }
    }
}

/// The four directions a move request or a spell cast can take.
#[derive(Clone, Copy, Debug, PartialEq, Eq, Structural)]
pub enum MoveDestination {
    Up,
    Down,
    Left,
    Right,
}

/// The kind of actor a confirmed move reports; only the player actor moves.
#[derive(Clone, Copy, Debug, PartialEq, Eq, Structural)]
pub enum Who {
    Wizard,
}

/// A requested effect tied to a target slot.
#[derive(Clone, Copy, Debug, PartialEq, Eq, Structural)]
pub enum Actions {
    Move { dest: MoveDestination, who: Who },
    RedrawAnim(i8, i8, Target),
    Redraw,
    Block(bool),
    InitSpell(MoveDestination),
    Win,
}

/// An action request or a confirmed reaction: an effect at a target slot.
#[derive(Clone, Copy, Debug, PartialEq, Eq, Structural)]
pub struct Action {
    pub target: Target,
    pub action: Actions,
}

impl Action {
    pub fn new(target: Target, action: Actions) -> (a: Action)
        ensures
            a == (Action { target, action }),
    {
        Action { target, action }
    }
}

/// A sub-tile pixel offset carried by an animated redraw.
#[derive(Clone, Copy, Debug, PartialEq, Eq, Hash, Structural)]
pub struct Pos {
    pub x: isize,
    pub y: isize,
}

impl Pos {
    pub fn new(x: isize, y: isize) -> (p: Pos)
        ensures
            p == (Pos { x, y }),
    {
        Pos { x, y }
    }
}

impl Default for Pos {
    /// The zero offset: a redraw aligned to its tile.
    fn default() -> (p: Pos)
        ensures
            p == (Pos { x: 0isize, y: 0isize }),
    {
        Pos { x: 0, y: 0 }
    }
}

/// One entry of a resolution pass's redraw batch. The batch is a set:
/// no two entries share a target.
#[derive(Clone, Copy, Debug, PartialEq, Eq, Hash, Structural)]
pub struct RedrawRequest {
    pub target: Target,
    pub shift: Pos,
}

impl RedrawRequest {
    /// A plain repaint of `target`, with no pixel shift.
    pub fn new(target: Target) -> (r: RedrawRequest)
        ensures
            r == (RedrawRequest { target, shift: Pos { x: 0isize, y: 0isize } }),
    {
        RedrawRequest { target, shift: Pos { x: 0, y: 0 } }
    }

    /// A repaint of `target` shifted by `shift` pixels, for a mid-move frame.
    pub fn new_anim(target: Target, shift: Pos) -> (r: RedrawRequest)
        ensures
            r == (RedrawRequest { target, shift }),
    {
        RedrawRequest { target, shift }
    }
}

/// The coordinates one step from `(x, y)` in direction `dest`, without any
/// bounds restriction: up decrements the row, down increments it, left
/// decrements the column, right increments it.
pub open spec fn spec_step(x: int, y: int, dest: MoveDestination) -> (int, int) {
    match dest {
        MoveDestination::Up => (x, y - 1),
        MoveDestination::Down => (x, y + 1),
        MoveDestination::Left => (x - 1, y),
        MoveDestination::Right => (x + 1, y),
    }
}

/// Whether `(x, y)` addresses a cell of the board.
pub open spec fn spec_in_bounds(x: int, y: int) -> bool {
    0 <= x < MAX_X && 0 <= y < MAX_Y
}

/// Steps from `(x, y)` in direction `dest`, or `None` when the step would
/// leave the board.
pub fn step_in_bounds(x: usize, y: usize, dest: MoveDestination) -> (r: Option<(usize, usize)>)
    requires
        spec_in_bounds(x as int, y as int),
    ensures
        match r {
            Some((nx, ny)) => spec_step(x as int, y as int, dest) == (nx as int, ny as int)
                && spec_in_bounds(nx as int, ny as int),
            None => !spec_in_bounds(
                spec_step(x as int, y as int, dest).0,
                spec_step(x as int, y as int, dest).1,
            ),
        },
{
    match dest {
        MoveDestination::Up => {
            if y >= 1 { Some((x, y - 1)) } else { None }
        }
        MoveDestination::Down => {
            if y + 1 < MAX_Y { Some((x, y + 1)) } else { None }
        }
        MoveDestination::Left => {
            if x >= 1 { Some((x - 1, y)) } else { None }
        }
        MoveDestination::Right => {
            if x + 1 < MAX_X { Some((x + 1, y)) } else { None }
        }
    }
}

} // verus!
