//! The player actor. A state machine over ten animation states: two idle
//! frames toggled every five ticks, and two frames per move direction
//! toggled every two ticks while a move animation is in flight.
//!
//! The actor never moves itself on a button press: it only requests a
//! `Move`. Receiving the confirmed `Move` reaction is the one place its
//! position changes; it then restarts its animation clock.
use vstd::prelude::*;
use crate::actions::{Action, Actions, MoveDestination, Target, Who};
use crate::events::{Buttons, Event, States};
use crate::items::{iv_target, iv_wf, Item, ItemV, Kinds};
use crate::tiles::{
    Tile, WIZARD_DOWN1_ID, WIZARD_DOWN2_ID, WIZARD_IDLE1_ID, WIZARD_IDLE2_ID, WIZARD_LEFT1_ID,
    WIZARD_LEFT2_ID, WIZARD_RIGHT1_ID, WIZARD_RIGHT2_ID, WIZARD_UP1_ID, WIZARD_UP2_ID,
};
use crate::{MAX_X, MAX_Y};

verus! {

pub const IDLE1: u8 = 0;

pub const IDLE2: u8 = 1;

pub const MOVE_UP1: u8 = 2;

pub const MOVE_UP2: u8 = 3;

pub const MOVE_DOWN1: u8 = 4;

pub const MOVE_DOWN2: u8 = 5;

pub const MOVE_LEFT1: u8 = 6;

pub const MOVE_LEFT2: u8 = 7;

pub const MOVE_RIGHT1: u8 = 8;

pub const MOVE_RIGHT2: u8 = 9;

/// Ticks a move animation lasts; one past this count ends it.
pub const MOVE_ANIM_TIME: u128 = 10;

/// Marker for the player actor; its behavior lives in these associated
/// functions and operates on an [`Item`] of kind `Wizard`.
pub struct Wizard;

/// The pixel magnitude of a mid-move frame's shift: a linear interpolation
/// from tile size down to zero over the animation duration, truncated to
/// whole pixels.
pub open spec fn wiz_shift(deltat: int) -> int {
    (320 - 32 * deltat) / 10
}

/// Bookkeeping the actor maintains: the tick clock never lags the animation
/// start, and a mid-move state keeps the vacated cell on the board.
pub open spec fn wizard_wf(iv: ItemV) -> bool {
    &&& iv.start_animation <= iv.time
    &&& ((iv.state == MOVE_LEFT1 || iv.state == MOVE_LEFT2) ==> iv.x + 1 < MAX_X)
    &&& ((iv.state == MOVE_RIGHT1 || iv.state == MOVE_RIGHT2) ==> iv.x >= 1)
    &&& ((iv.state == MOVE_UP1 || iv.state == MOVE_UP2) ==> iv.y + 1 < MAX_Y)
    &&& ((iv.state == MOVE_DOWN1 || iv.state == MOVE_DOWN2) ==> iv.y >= 1)
}

/// A confirmed move must keep the actor on the board.
pub open spec fn wizard_reaction_ok(iv: ItemV, reaction: Action) -> bool {
    match reaction.action {
        Actions::Move { dest, who } => match dest {
            MoveDestination::Up => iv.y >= 1,
            MoveDestination::Down => iv.y + 1 < MAX_Y,
            MoveDestination::Left => iv.x >= 1,
            MoveDestination::Right => iv.x + 1 < MAX_X,
        },
        _ => true,
    }
}

/// One mid-move tick of the animation in the `s1`/`s2` frame pair:
/// past the animation duration the actor returns to `Idle1` and asks to
/// repaint the vacated and the current cell and to release input; on an
/// even tick it swaps frames and asks for one shifted repaint; on an odd
/// tick it emits nothing. `old_t` is the vacated cell, `(sx, sy)` the signs
/// of the shift on each axis, `img1`/`img2` the frame sprites.
pub open spec fn wizard_move_tick_v(
    iv: ItemV,
    t: u128,
    s1: u8,
    s2: u8,
    old_t: Target,
    sx: int,
    sy: int,
    img1: usize,
    img2: usize,
) -> (ItemV, Seq<Action>) {
    let dt = t - iv.start_animation;
    if dt > MOVE_ANIM_TIME {
        let iv2 = ItemV { time: t, state: IDLE1, ..iv };
        (iv2, seq![
            Action { target: old_t, action: Actions::Redraw },
            Action { target: iv_target(iv), action: Actions::Redraw },
            Action { target: old_t, action: Actions::Block(false) },
        ])
    } else if t % 2 == 0 {
        let ns = if iv.state == s1 { s2 } else { s1 };
        let img = if ns == s2 { img1 } else { img2 };
        let iv2 = ItemV { time: t, state: ns, img_id: img, ..iv };
        let shift = wiz_shift(dt);
        (iv2, seq![
            Action {
                target: iv_target(iv),
                action: Actions::RedrawAnim((sx * shift) as i8, (sy * shift) as i8, old_t),
            },
        ])
    } else {
        (ItemV { time: t, ..iv }, Seq::empty())
    }
}

/// The actor's full response to one event: idle breathing on ticks, the
/// mid-move animation of [`wizard_move_tick_v`], a `Move` request on a
/// directional press, and nothing otherwise.
pub open spec fn wizard_on_event_v(iv: ItemV, event: Event) -> (ItemV, Seq<Action>) {
    match event {
        Event::Tick(t) => {
            if iv.state == IDLE1 || iv.state == IDLE2 {
                if t % 5 == 0 {
                    let ns = if iv.state == IDLE1 { IDLE2 } else { IDLE1 };
                    let img = if ns == IDLE1 { WIZARD_IDLE2_ID } else { WIZARD_IDLE1_ID };
                    let iv2 = ItemV { time: t, state: ns, img_id: img, ..iv };
                    (iv2, seq![Action { target: iv_target(iv), action: Actions::Redraw }])
                } else {
                    (ItemV { time: t, ..iv }, Seq::empty())
                }
            } else if iv.state == MOVE_LEFT1 || iv.state == MOVE_LEFT2 {
                let old_t = Target { x: (iv.x + 1) as usize, y: iv.y, z: iv.z_order };
                wizard_move_tick_v(iv, t, MOVE_LEFT1, MOVE_LEFT2, old_t, 1, 0,
                    WIZARD_LEFT1_ID, WIZARD_LEFT2_ID)
            } else if iv.state == MOVE_RIGHT1 || iv.state == MOVE_RIGHT2 {
                let old_t = Target { x: (iv.x - 1) as usize, y: iv.y, z: iv.z_order };
                wizard_move_tick_v(iv, t, MOVE_RIGHT1, MOVE_RIGHT2, old_t, -1, 0,
                    WIZARD_RIGHT1_ID, WIZARD_RIGHT2_ID)
            } else if iv.state == MOVE_UP1 || iv.state == MOVE_UP2 {
                let old_t = Target { x: iv.x, y: (iv.y + 1) as usize, z: iv.z_order };
                wizard_move_tick_v(iv, t, MOVE_UP1, MOVE_UP2, old_t, 0, 1,
                    WIZARD_UP1_ID, WIZARD_UP2_ID)
            } else if iv.state == MOVE_DOWN1 || iv.state == MOVE_DOWN2 {
                let old_t = Target { x: iv.x, y: (iv.y - 1) as usize, z: iv.z_order };
                wizard_move_tick_v(iv, t, MOVE_DOWN1, MOVE_DOWN2, old_t, 0, -1,
                    WIZARD_DOWN1_ID, WIZARD_DOWN2_ID)
            } else {
                (ItemV { time: t, ..iv }, Seq::empty())
            }
        }
        Event::Button(b) => {
            match b {
                Buttons::Up(States::Pressed) => (iv, seq![Action {
                    target: iv_target(iv),
                    action: Actions::Move { dest: MoveDestination::Up, who: Who::Wizard },
                }]),
                Buttons::Down(States::Pressed) => (iv, seq![Action {
                    target: iv_target(iv),
                    action: Actions::Move { dest: MoveDestination::Down, who: Who::Wizard },
                }]),
                Buttons::Left(States::Pressed) => (iv, seq![Action {
                    target: iv_target(iv),
                    action: Actions::Move { dest: MoveDestination::Left, who: Who::Wizard },
                }]),
                Buttons::Right(States::Pressed) => (iv, seq![Action {
                    target: iv_target(iv),
                    action: Actions::Move { dest: MoveDestination::Right, who: Who::Wizard },
                }]),
                _ => (iv, Seq::empty()),
            }
        }
    }
}

/// The actor's response to a confirmed action: a confirmed `Move` enters
/// the matching move-start state, restarts the animation clock at the
/// current tick, and performs the position change; everything else is
/// ignored.
pub open spec fn wizard_on_reaction_v(iv: ItemV, reaction: Action) -> ItemV {
    match reaction.action {
        Actions::Move { dest, who } => match dest {
            MoveDestination::Up => ItemV {
                state: MOVE_UP1,
                start_animation: iv.time,
                y: (iv.y - 1) as usize,
                ..iv
            },
            MoveDestination::Down => ItemV {
                state: MOVE_DOWN1,
                start_animation: iv.time,
                y: (iv.y + 1) as usize,
                ..iv
            },
            MoveDestination::Left => ItemV {
                state: MOVE_LEFT1,
                start_animation: iv.time,
                x: (iv.x - 1) as usize,
                ..iv
            },
            MoveDestination::Right => ItemV {
                state: MOVE_RIGHT1,
                start_animation: iv.time,
                x: (iv.x + 1) as usize,
                ..iv
            },
        },
        _ => iv,
    }
}

/// The truncated interpolation magnitude as pixels, for one mid-move frame.
fn shift_mag(deltat: u128) -> (r: i8)
    requires
        deltat <= MOVE_ANIM_TIME,
    ensures
        r as int == wiz_shift(deltat as int),
        0 <= r <= 32,
{
    let m: u128 = (320 - 32 * deltat) / 10;
    assert(m <= 32);
    m as i8
}

impl Wizard {
    /// One mid-move tick, shared by the four directions; mirrors
    /// [`wizard_move_tick_v`].
    fn move_tick(
        it: &mut Item,
        t: u128,
        s1: u8,
        s2: u8,
        old_target: Target,
        neg: bool,
        vertical: bool,
        img1: usize,
        img2: usize,
    ) -> (r: Vec<Action>)
        requires
            old(it).state == s1 || old(it).state == s2,
            old(it).start_animation <= t,
            s1 != s2,
        ensures
            ({
                let sx: int = if vertical { 0 } else if neg { -1 } else { 1 };
                let sy: int = if !vertical { 0 } else if neg { -1 } else { 1 };
                (final(it)@, r@) == wizard_move_tick_v(
                    old(it)@, t, s1, s2, old_target, sx, sy, img1, img2,
                )
            }),
            final(it).x == old(it).x && final(it).y == old(it).y
                && final(it).z_order == old(it).z_order,
            final(it).start_animation == old(it).start_animation,
            final(it).time == t,
            final(it).state == s1 || final(it).state == s2 || final(it).state == IDLE1,
            r@.len() <= 3,
    {
        it.time = t;
        let deltat = t - it.start_animation;
        if deltat > MOVE_ANIM_TIME {
            it.state = IDLE1;
            let mut r: Vec<Action> = Vec::new();
            r.push(Action::new(old_target, Actions::Redraw));
            r.push(Action::new(it.target(), Actions::Redraw));
            r.push(Action::new(old_target, Actions::Block(false)));
            r
        } else if t % 2 == 0 {
            it.state = if it.state == s1 { s2 } else { s1 };
            if it.state == s2 {
                it.img_id = img1;
            } else {
                it.img_id = img2;
            }
            let mag = shift_mag(deltat);
            let shift: i8 = if neg { -mag } else { mag };
            let kind = if vertical {
                Actions::RedrawAnim(0, shift, old_target)
            } else {
                Actions::RedrawAnim(shift, 0, old_target)
            };
            let mut r: Vec<Action> = Vec::new();
            r.push(Action::new(it.target(), kind));
            r
        } else {
            Vec::new()
        }
    }

    /// Delivers one event to the actor; mirrors [`wizard_on_event_v`].
    pub fn on_event(it: &mut Item, event: &Event) -> (r: Vec<Action>)
        requires
            iv_wf(old(it)@),
            old(it)@.kind == Kinds::Wizard,
            match *event {
                Event::Tick(t) => t >= old(it)@.start_animation,
                Event::Button(_) => true,
            },
        ensures
            (final(it)@, r@) == wizard_on_event_v(old(it)@, *event),
            iv_wf(final(it)@),
            r@.len() <= 3,
    {
        match event {
            Event::Tick(time) => {
                let t = *time;
                if it.state == IDLE1 || it.state == IDLE2 {
                    it.time = t;
                    if t % 5 == 0 {
                        it.state = if it.state == IDLE1 { IDLE2 } else { IDLE1 };
                        if it.state == IDLE1 {
                            it.img_id = Tile::wizard_idle2_id();
                        } else {
                            it.img_id = Tile::wizard_idle1_id();
                        }
                        let mut r: Vec<Action> = Vec::new();
                        r.push(Action::new(it.target(), Actions::Redraw));
                        r
                    } else {
                        Vec::new()
                    }
                } else if it.state == MOVE_LEFT1 || it.state == MOVE_LEFT2 {
                    let old_target = Target::new(it.x + 1, it.y, it.z_order);
                    Wizard::move_tick(it, t, MOVE_LEFT1, MOVE_LEFT2, old_target, false, false,
                        Tile::wizard_left1_id(), Tile::wizard_left2_id())
                } else if it.state == MOVE_RIGHT1 || it.state == MOVE_RIGHT2 {
                    let old_target = Target::new(it.x - 1, it.y, it.z_order);
                    Wizard::move_tick(it, t, MOVE_RIGHT1, MOVE_RIGHT2, old_target, true, false,
                        Tile::wizard_right1_id(), Tile::wizard_right2_id())
                } else if it.state == MOVE_UP1 || it.state == MOVE_UP2 {
                    let old_target = Target::new(it.x, it.y + 1, it.z_order);
                    Wizard::move_tick(it, t, MOVE_UP1, MOVE_UP2, old_target, false, true,
                        Tile::wizard_up1_id(), Tile::wizard_up2_id())
                } else if it.state == MOVE_DOWN1 || it.state == MOVE_DOWN2 {
                    let old_target = Target::new(it.x, it.y - 1, it.z_order);
                    Wizard::move_tick(it, t, MOVE_DOWN1, MOVE_DOWN2, old_target, true, true,
                        Tile::wizard_down1_id(), Tile::wizard_down2_id())
                } else {
                    it.time = t;
                    Vec::new()
                }
            }
            Event::Button(Buttons::Up(States::Pressed)) => {
                let mut r: Vec<Action> = Vec::new();
                r.push(Action::new(it.target(), Actions::Move {
                    dest: MoveDestination::Up,
                    who: Who::Wizard,
                }));
                r
            }
            Event::Button(Buttons::Down(States::Pressed)) => {
                let mut r: Vec<Action> = Vec::new();
                r.push(Action::new(it.target(), Actions::Move {
                    dest: MoveDestination::Down,
                    who: Who::Wizard,
                }));
                r
            }
            Event::Button(Buttons::Left(States::Pressed)) => {
                let mut r: Vec<Action> = Vec::new();
                r.push(Action::new(it.target(), Actions::Move {
                    dest: MoveDestination::Left,
                    who: Who::Wizard,
                }));
                r
            }
            Event::Button(Buttons::Right(States::Pressed)) => {
                let mut r: Vec<Action> = Vec::new();
                r.push(Action::new(it.target(), Actions::Move {
                    dest: MoveDestination::Right,
                    who: Who::Wizard,
                }));
                r
            }
            Event::Button(_) => Vec::new(),
        }
    }

    /// Delivers a confirmed action to the actor; mirrors
    /// [`wizard_on_reaction_v`].
    pub fn on_reaction(it: &mut Item, reaction: &Action)
        requires
            iv_wf(old(it)@),
            old(it)@.kind == Kinds::Wizard,
            wizard_reaction_ok(old(it)@, *reaction),
        ensures
            final(it)@ == wizard_on_reaction_v(old(it)@, *reaction),
            iv_wf(final(it)@),
    {
        match reaction.action {
            Actions::Move { dest: MoveDestination::Up, who: _ } => {
                it.state = MOVE_UP1;
                it.start_animation = it.time;
                it.y = it.y - 1;
            }
            Actions::Move { dest: MoveDestination::Down, who: _ } => {
                it.state = MOVE_DOWN1;
                it.start_animation = it.time;
                it.y = it.y + 1;
            }
            Actions::Move { dest: MoveDestination::Left, who: _ } => {
                it.state = MOVE_LEFT1;
                it.start_animation = it.time;
                it.x = it.x - 1;
            }
            Actions::Move { dest: MoveDestination::Right, who: _ } => {
                it.state = MOVE_RIGHT1;
                it.start_animation = it.time;
                it.x = it.x + 1;
            }
            _ => (),
        }
    }
}

} // verus!
