//! The spell-cast preview: a state holding the live board's occupants,
//! transplanted out so the player can compose a cast without mutating the
//! board, and the script of directional commands being composed. Leaving
//! the preview transplants the occupants back and stages the composed
//! spell.
use vstd::prelude::*;
use crate::events::{Buttons, Event, States};
use crate::grid::{gv_slot, gv_wf, Grid};
use crate::items::SpellCommands;
use crate::level::{Level, Levels};
use crate::{LAYERS, MAX_X, MAX_Y};

verus! {

/// The spell-cast preview state: the transplanted board, the level kind
/// to resume, and the commands composed so far.
pub struct Spell {
    pub grid: Grid,
    pub level: Levels,
    pub commands: Vec<SpellCommands>,
}

/// Copies a command script.
fn clone_commands(commands: &Vec<SpellCommands>) -> (r: Vec<SpellCommands>)
    ensures
        r@ == commands@,
{
    let mut r: Vec<SpellCommands> = Vec::new();
    let mut i: usize = 0;
    while i < commands.len()
        invariant
            i <= commands@.len(),
            r@ == commands@.take(i as int),
        decreases commands@.len() - i,
    {
        r.push(commands[i]);
        proof {
            assert(r@ =~= commands@.take(i as int + 1));
        }
        i = i + 1;
    }
    proof {
        assert(commands@.take(commands@.len() as int) =~= commands@);
    }
    r
}

impl Spell {
    /// A preview taking over the occupants of `grid`, with an empty
    /// script.
    pub fn from_grid(grid: &mut Grid, level: Levels) -> (sp: Spell)
        requires
            gv_wf(old(grid)@),
        ensures
            gv_wf(sp.grid@),
            sp.level == level,
            sp.commands@ == Seq::<SpellCommands>::empty(),
            forall|x: int, y: int, z: int| crate::actions::spec_in_bounds(x, y) && 0 <= z
                < LAYERS ==> #[trigger] gv_slot(sp.grid@, x, y, z) == gv_slot(old(grid)@, x, y,
                z),
            gv_wf(final(grid)@),
            forall|x: int, y: int, z: int| crate::actions::spec_in_bounds(x, y) && 0 <= z
                < LAYERS ==> #[trigger] gv_slot(final(grid)@, x, y, z) is None,
    {
        let g = Grid::new_from(grid);
        let commands: Vec<SpellCommands> = Vec::new();
        Spell { grid: g, level, commands }
    }

    /// Handles one event in the preview. The stored script never changes:
    /// each event composes a throwaway copy with one rightward step
    /// appended, and only a pressed reset button uses it — resuming play
    /// with that one-step script staged as the spell. Everything else
    /// stays in the preview and discards the copy.
    pub fn on_event(&mut self, event: &Event) -> (r: Option<Level>)
        requires
            gv_wf(old(self).grid@),
        ensures
            gv_wf(final(self).grid@),
            final(self).level == old(self).level,
            final(self).commands == old(self).commands,
            match r {
                Some(lv) => {
                    &&& *event == Event::Button(Buttons::Reset(States::Pressed))
                    &&& crate::level::level_wf(lv)
                    &&& lv.level == old(self).level
                    &&& lv.block == false
                    &&& lv.tiles@ == Seq::<usize>::empty()
                    &&& ({
                        let sp = gv_slot(lv.grid@, 0, 0, 0);
                        sp is Some && sp.unwrap().kind == crate::items::Kinds::Spell
                            && sp.unwrap().state == 0 && sp.unwrap().commands
                            == old(self).commands@.push(SpellCommands::Right)
                    })
                    &&& forall|x: int, y: int, z: int|
                        crate::actions::spec_in_bounds(x, y) && 0 <= z < LAYERS
                            && !(x == 0 && y == 0 && z == 0)
                            ==> #[trigger] gv_slot(lv.grid@, x, y, z)
                                == gv_slot(old(self).grid@, x, y, z)
                },
                None => *event != Event::Button(Buttons::Reset(States::Pressed))
                    && final(self).grid == old(self).grid,
            },
    {
        let mut commands = clone_commands(&self.commands);
        commands.push(SpellCommands::Right);
        match event {
            Event::Button(Buttons::Reset(States::Pressed)) => {
                Some(Level::from_spell(&mut self.grid, self.level, commands))
            }
            _ => None,
        }
    }
}

} // verus!
