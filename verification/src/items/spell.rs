//! The scripted projectile. Freshly staged it holds a queue of directional
//! commands; on its first event it reads the head of the queue and requests
//! the cast in that direction, and stays inert from then on.
use vstd::prelude::*;
use crate::actions::{Action, Actions, MoveDestination};
use crate::items::{iv_target, iv_wf, Item, ItemV, Kinds, SpellCommands};

verus! {

/// Marker for the projectile; its behavior lives in these associated
/// functions and operates on an [`Item`] of kind `Spell`.
pub struct Spell;

/// The direction a spell command maps to; depth commands have no direction
/// on the board.
pub open spec fn spell_dir_v(c: SpellCommands) -> Option<MoveDestination> {
    match c {
        SpellCommands::Up => Some(MoveDestination::Up),
        SpellCommands::Down => Some(MoveDestination::Down),
        SpellCommands::Left => Some(MoveDestination::Left),
        SpellCommands::Right => Some(MoveDestination::Right),
        SpellCommands::In => None,
        SpellCommands::Out => None,
    }
}

/// A freshly staged spell consumes its first event: it marks itself
/// initialized and requests a cast in its first command's direction, or
/// requests nothing when that command has no direction. Once initialized
/// it is inert.
pub open spec fn spell_on_event_v(iv: ItemV) -> (ItemV, Seq<Action>) {
    if iv.state == 0 {
        let iv2 = ItemV { state: 1u8, ..iv };
        match spell_dir_v(iv.commands[0]) {
            Some(dir) => (iv2, seq![Action {
                target: iv_target(iv),
                action: Actions::InitSpell(dir),
            }]),
            None => (iv2, Seq::empty()),
        }
    } else {
        (iv, Seq::empty())
    }
}

impl Spell {
    /// A staged spell at `(x, y)` on layer `z_order`, showing sprite
    /// `img_id`, with its command queue yet to be consumed.
    pub fn new(
        x: usize,
        y: usize,
        z_order: usize,
        img_id: usize,
        commands: Vec<SpellCommands>,
    ) -> (it: Item)
        ensures
            it@ == (ItemV {
                kind: Kinds::Spell,
                x,
                y,
                z_order,
                img_id,
                state: 0u8,
                start_animation: 0u128,
                time: 0u128,
                is_win: false,
                commands: commands@,
            }),
    {
        Item {
            kind: Kinds::Spell,
            x,
            y,
            z_order,
            img_id,
            state: 0,
            start_animation: 0,
            time: 0,
            is_win: false,
            commands,
        }
    }

    /// Consumes the spell's single shot; mirrors [`spell_on_event_v`].
    pub fn on_event(it: &mut Item) -> (r: Vec<Action>)
        requires
            iv_wf(old(it)@),
            old(it)@.kind == Kinds::Spell,
        ensures
            (final(it)@, r@) == spell_on_event_v(old(it)@),
            iv_wf(final(it)@),
            r@.len() <= 1,
    {
        if it.state == 0 {
            it.state = 1;
            let dir: Option<MoveDestination> = match it.commands[0] {
                SpellCommands::Up => Some(MoveDestination::Up),
                SpellCommands::Down => Some(MoveDestination::Down),
                SpellCommands::Left => Some(MoveDestination::Left),
                SpellCommands::Right => Some(MoveDestination::Right),
                SpellCommands::In => None,
                SpellCommands::Out => None,
            };
            match dir {
                Some(dir) => {
                    let mut r: Vec<Action> = Vec::new();
                    r.push(Action::new(it.target(), Actions::InitSpell(dir)));
                    r
                }
                None => Vec::new(),
            }
        } else {
            Vec::new()
        }
    }
}

} // verus!
