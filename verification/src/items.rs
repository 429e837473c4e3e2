//! The polymorphic occupants of the board. An item reports its position,
//! depth layer and sprite id, reacts to incoming events by emitting action
//! requests, and reacts to confirmed actions by mutating its own state.
//!
//! Variants: a static decoration, the player actor ("Wizard"), the goal
//! ("Exit"), and the scripted projectile ("Spell").
use vstd::prelude::*;
use crate::actions::{Action, Target};
use crate::events::Event;
use crate::{LAYERS, MAX_X, MAX_Y};
use crate::items::exit::{exit_on_event_v, exit_on_reaction_v, Exit};
use crate::items::spell::{spell_on_event_v, Spell};
use crate::items::wizard::{
    wizard_on_event_v, wizard_on_reaction_v, wizard_reaction_ok, wizard_wf, Wizard,
};

pub mod exit;
pub mod spell;
pub mod sprite;
pub mod wizard;

verus! {

/// The largest number of actions one item emits for one event.
pub const MAX_ACTIONS_PER_EVENT: usize = 3;

/// Capacity of a spell's command queue.
pub const MAX_COMMANDS: usize = 32;

/// The variant an item belongs to.
#[derive(Clone, Copy, Debug, PartialEq, Eq, Structural)]
pub enum Kinds {
    Sprite,
    Wizard,
    Exit,
    Spell,
}

/// One directional command of a spell's script.
#[derive(Clone, Copy, Debug, PartialEq, Eq, Structural)]
pub enum SpellCommands {
    Left,
    Right,
    Up,
    Down,
    In,
    Out,
}

/// The mathematical value of an [`Item`]: every field, with the command
/// queue abstracted to a sequence.
pub ghost struct ItemV {
    pub kind: Kinds,
    pub x: usize,
    pub y: usize,
    pub z_order: usize,
    pub img_id: usize,
    pub state: u8,
    pub start_animation: u128,
    pub time: u128,
    pub is_win: bool,
    pub commands: Seq<SpellCommands>,
}

/// An occupant of one grid slot. Common fields serve every variant; the
/// command queue is meaningful only for spells and the reached flag only
/// for exits.
pub struct Item {
    pub kind: Kinds,
    pub x: usize,
    pub y: usize,
    pub z_order: usize,
    pub img_id: usize,
    pub state: u8,
    pub start_animation: u128,
    pub time: u128,
    pub is_win: bool,
    pub commands: Vec<SpellCommands>,
}

impl View for Item {
    type V = ItemV;

    open spec fn view(&self) -> ItemV {
        ItemV {
            kind: self.kind,
            x: self.x,
            y: self.y,
            z_order: self.z_order,
            img_id: self.img_id,
            state: self.state,
            start_animation: self.start_animation,
            time: self.time,
            is_win: self.is_win,
            commands: self.commands@,
        }
    }
}

/// The slot an item claims: its coordinates at its own depth layer.
pub open spec fn iv_target(iv: ItemV) -> Target {
    Target { x: iv.x, y: iv.y, z: iv.z_order }
}

/// Internal well-formedness of one item: coordinates on the board, layer in
/// range, the actor's animation bookkeeping consistent, and an unconsumed
/// spell script non-empty.
pub open spec fn iv_wf(iv: ItemV) -> bool {
    &&& iv.x < MAX_X
    &&& iv.y < MAX_Y
    &&& iv.z_order < LAYERS
    &&& (iv.kind == Kinds::Wizard ==> wizard_wf(iv))
    &&& (iv.kind == Kinds::Spell && iv.state == 0 ==> iv.commands.len() >= 1)
}

/// What an incoming event demands of an item before dispatch: the tick
/// counter is monotonic, so a tick never precedes the actor's recorded
/// animation start.
pub open spec fn iv_event_ok(iv: ItemV, event: Event) -> bool {
    match event {
        Event::Tick(t) => iv.kind == Kinds::Wizard ==> t >= iv.start_animation,
        Event::Button(_) => true,
    }
}

/// The item and emitted actions that result from delivering `event` to `iv`.
pub open spec fn item_on_event_v(iv: ItemV, event: Event) -> (ItemV, Seq<Action>) {
    match iv.kind {
        Kinds::Sprite => (iv, Seq::empty()),
        Kinds::Wizard => wizard_on_event_v(iv, event),
        Kinds::Exit => exit_on_event_v(iv),
        Kinds::Spell => spell_on_event_v(iv),
    }
}

/// What a confirmed action demands of an item: a confirmed move keeps the
/// actor on the board.
pub open spec fn iv_reaction_ok(iv: ItemV, reaction: Action) -> bool {
    iv.kind == Kinds::Wizard ==> wizard_reaction_ok(iv, reaction)
}

/// The item that results from delivering the confirmed `reaction` to `iv`.
pub open spec fn item_on_reaction_v(iv: ItemV, reaction: Action) -> ItemV {
    match iv.kind {
        Kinds::Sprite => iv,
        Kinds::Wizard => wizard_on_reaction_v(iv, reaction),
        Kinds::Exit => exit_on_reaction_v(iv, reaction),
        Kinds::Spell => iv,
    }
}

impl Item {
    /// A fresh item of `kind` at `(x, y)` on layer `z_order`, showing sprite
    /// `img_id`, with zeroed animation state and an empty command queue.
    pub fn new(kind: Kinds, x: usize, y: usize, z_order: usize, img_id: usize) -> (it: Item)
        ensures
            it@ == (ItemV {
                kind,
                x,
                y,
                z_order,
                img_id,
                state: 0u8,
                start_animation: 0u128,
                time: 0u128,
                is_win: false,
                commands: Seq::<SpellCommands>::empty(),
            }),
    {
        let commands: Vec<SpellCommands> = Vec::new();
        Item {
            kind,
            x,
            y,
            z_order,
            img_id,
            state: 0,
            start_animation: 0,
            time: 0,
            is_win: false,
            commands,
        }
    }

    /// The variant this item belongs to.
    pub fn kind(&self) -> (k: Kinds)
        ensures
            k == self@.kind,
    {
        self.kind
    }

    /// The slot this item claims.
    pub fn target(&self) -> (t: Target)
        ensures
            t == iv_target(self@),
    {
        Target { x: self.x, y: self.y, z: self.z_order }
    }

    /// The depth layer this item occupies within a cell.
    pub fn z_level(&self) -> (z: usize)
        ensures
            z == self@.z_order,
    {
        self.z_order
    }

    /// The sprite id to draw for this item.
    pub fn tile_id(&self) -> (id: usize)
        ensures
            id == self@.img_id,
    {
        self.img_id
    }

    pub fn set_x(&mut self, x: usize)
        ensures
            final(self)@ == (ItemV { x, ..old(self)@ }),
    {
        self.x = x;
    }

    pub fn set_y(&mut self, y: usize)
        ensures
            final(self)@ == (ItemV { y, ..old(self)@ }),
    {
        self.y = y;
    }

    pub fn set_z(&mut self, z_order: usize)
        ensures
            final(self)@ == (ItemV { z_order, ..old(self)@ }),
    {
        self.z_order = z_order;
    }

    /// Delivers an incoming event and collects the actions this item
    /// requests in response.
    pub fn on_event(&mut self, event: &Event) -> (r: Vec<Action>)
        requires
            iv_wf(old(self)@),
            iv_event_ok(old(self)@, *event),
        ensures
            (final(self)@, r@) == item_on_event_v(old(self)@, *event),
            iv_wf(final(self)@),
            r@.len() <= MAX_ACTIONS_PER_EVENT,
    {
        match self.kind {
            Kinds::Sprite => Vec::new(),
            Kinds::Wizard => Wizard::on_event(self, event),
            Kinds::Exit => Exit::on_event(self),
            Kinds::Spell => Spell::on_event(self),
        }
    }

    /// Delivers a confirmed action; only the actor and the goal mutate
    /// their state in response.
    pub fn on_reaction(&mut self, reaction: &Action)
        requires
            iv_wf(old(self)@),
            iv_reaction_ok(old(self)@, *reaction),
        ensures
            final(self)@ == item_on_reaction_v(old(self)@, *reaction),
            iv_wf(final(self)@),
    {
        match self.kind {
            Kinds::Sprite => (),
            Kinds::Wizard => Wizard::on_reaction(self, reaction),
            Kinds::Exit => Exit::on_reaction(self, reaction),
            Kinds::Spell => (),
        }
    }
}

} // verus!
