//! Sprite identifiers. A sprite id names one 32x32 tile bitmap; the bitmaps
//! themselves live in a compressed asset table that the embedding program
//! decodes and caches, keyed by these ids. An id is `page * 32 + index` into
//! that table.
use vstd::prelude::*;

verus! {

/// Width of one tile in pixels.
pub const TILE_SIZE_X: usize = 32;

/// Height of one tile in pixels.
pub const TILE_SIZE_Y: usize = 32;

/// Ids at or below this bound name background sprites (depth layer 0);
/// greater ids name foreground sprites (depth layer 1).
pub const BACKGROUND_ID_MAX: usize = 32;

/// The actor's ten animation frames, one id each.
pub const WIZARD_IDLE1_ID: usize = 64;

pub const WIZARD_IDLE2_ID: usize = 65;

pub const WIZARD_DOWN1_ID: usize = 66;

pub const WIZARD_DOWN2_ID: usize = 67;

pub const WIZARD_UP1_ID: usize = 68;

pub const WIZARD_UP2_ID: usize = 69;

pub const WIZARD_LEFT1_ID: usize = 70;

pub const WIZARD_LEFT2_ID: usize = 71;

pub const WIZARD_RIGHT1_ID: usize = 72;

pub const WIZARD_RIGHT2_ID: usize = 73;

/// The goal's two frames.
pub const EXIT_OPEN_ID: usize = 74;

pub const EXIT_CLOSED_ID: usize = 75;

/// Namespace for the sprite ids the levels and items use.
pub struct Tile {}

impl Tile {
    pub fn empty_id() -> (r: usize)
        ensures r == 0,
    { 0 }

    pub fn ground1_id() -> (r: usize)
        ensures r == 2,
    { 2 }

    pub fn ground2_id() -> (r: usize)
        ensures r == 3,
    { 3 }

    pub fn door_open_id() -> (r: usize)
        ensures r == 4,
    { 4 }

    pub fn debris1_id() -> (r: usize)
        ensures r == 6,
    { 6 }

    pub fn debris2_id() -> (r: usize)
        ensures r == 7,
    { 7 }

    pub fn brick_wall1_id() -> (r: usize)
        ensures r == 36,
    { 36 }

    pub fn brick_wall2_id() -> (r: usize)
        ensures r == 37,
    { 37 }

    pub fn brick_wall3_id() -> (r: usize)
        ensures r == 38,
    { 38 }

    pub fn stone1_id() -> (r: usize)
        ensures r == 41,
    { 41 }

    pub fn stone2_id() -> (r: usize)
        ensures r == 42,
    { 42 }

    pub fn stone3_id() -> (r: usize)
        ensures r == 43,
    { 43 }

    pub fn tree_id() -> (r: usize)
        ensures r == 50,
    { 50 }

    pub fn trees_id() -> (r: usize)
        ensures r == 51,
    { 51 }

    pub fn web_id() -> (r: usize)
        ensures r == 54,
    { 54 }

    pub fn wizard_idle1_id() -> (r: usize)
        ensures r == WIZARD_IDLE1_ID,
    { WIZARD_IDLE1_ID }

    pub fn wizard_idle2_id() -> (r: usize)
        ensures r == WIZARD_IDLE2_ID,
    { WIZARD_IDLE2_ID }

    pub fn wizard_down1_id() -> (r: usize)
        ensures r == WIZARD_DOWN1_ID,
    { WIZARD_DOWN1_ID }

    pub fn wizard_down2_id() -> (r: usize)
        ensures r == WIZARD_DOWN2_ID,
    { WIZARD_DOWN2_ID }

    pub fn wizard_up1_id() -> (r: usize)
        ensures r == WIZARD_UP1_ID,
    { WIZARD_UP1_ID }

    pub fn wizard_up2_id() -> (r: usize)
        ensures r == WIZARD_UP2_ID,
    { WIZARD_UP2_ID }

    pub fn wizard_left1_id() -> (r: usize)
        ensures r == WIZARD_LEFT1_ID,
    { WIZARD_LEFT1_ID }

    pub fn wizard_left2_id() -> (r: usize)
        ensures r == WIZARD_LEFT2_ID,
    { WIZARD_LEFT2_ID }

    pub fn wizard_right1_id() -> (r: usize)
        ensures r == WIZARD_RIGHT1_ID,
    { WIZARD_RIGHT1_ID }

    pub fn wizard_right2_id() -> (r: usize)
        ensures r == WIZARD_RIGHT2_ID,
    { WIZARD_RIGHT2_ID }

    pub fn exit_open_id() -> (r: usize)
        ensures r == EXIT_OPEN_ID,
    { EXIT_OPEN_ID }

    pub fn exit_closed_id() -> (r: usize)
        ensures r == EXIT_CLOSED_ID,
    { EXIT_CLOSED_ID }
}

} // verus!
