//! The goal. It is inert until a confirmed `Move` whose actor is the player
//! lands on it; it then records the arrival and announces the win on its
//! next event.
use vstd::prelude::*;
use crate::actions::{Action, Actions, Who};
use crate::items::{iv_target, iv_wf, Item, ItemV, Kinds};

verus! {

/// Marker for the goal; its behavior lives in these associated functions
/// and operates on an [`Item`] of kind `Exit`.
pub struct Exit;

/// An exit emits exactly one `Win` action on an event once it has been
/// reached, and nothing before.
pub open spec fn exit_on_event_v(iv: ItemV) -> (ItemV, Seq<Action>) {
    if iv.is_win {
        (iv, seq![Action { target: iv_target(iv), action: Actions::Win }])
    } else {
        (iv, Seq::empty())
    }
}

/// A confirmed `Move` by the player actor delivered to an exit marks it
/// reached; every other reaction leaves it untouched.
pub open spec fn exit_on_reaction_v(iv: ItemV, reaction: Action) -> ItemV {
    match reaction.action {
        Actions::Move { dest: _, who: Who::Wizard } => ItemV { is_win: true, ..iv },
        _ => iv,
    }
}

impl Exit {
    /// Announces the win once the exit has been reached; mirrors
    /// [`exit_on_event_v`].
    pub fn on_event(it: &mut Item) -> (r: Vec<Action>)
        requires
            iv_wf(old(it)@),
            old(it)@.kind == Kinds::Exit,
        ensures
            (final(it)@, r@) == exit_on_event_v(old(it)@),
            iv_wf(final(it)@),
            r@.len() <= 1,
    {
        if it.is_win {
            let mut r: Vec<Action> = Vec::new();
            r.push(Action::new(it.target(), Actions::Win));
            r
        } else {
            Vec::new()
        }
    }

    /// Records the player's arrival; mirrors [`exit_on_reaction_v`].
    pub fn on_reaction(it: &mut Item, reaction: &Action)
        requires
            iv_wf(old(it)@),
            old(it)@.kind == Kinds::Exit,
        ensures
            final(it)@ == exit_on_reaction_v(old(it)@, *reaction),
            iv_wf(final(it)@),
    {
        match reaction.action {
            Actions::Move { dest: _, who: Who::Wizard } => {
                it.is_win = true;
            }
            _ => (),
        }
    }
}

} // verus!
