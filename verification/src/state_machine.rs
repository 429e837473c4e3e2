//! The top-level finite state machine: exactly one active state — the
//! boot state, the start menu, a running level, or the spell-cast
//! preview — fed one event at a time. A state may hand back a
//! replacement, which is swapped in and initialized; the effects of each
//! step (clears, menu paints, sprite loads, tile draws) go back to the
//! embedding program to perform against its display.
use vstd::prelude::*;
use crate::events::Event;
use crate::grid::{gv_coherent, gv_event_ok, gv_slot, gv_wf};
use crate::items::Kinds;
use crate::level::{
    cache_ids, level_start, level_step, level_wf, redraw_all_v, req_draws, sprites_cached,
    Level, LevelError, Levels, TileDraw,
};
use crate::spell_state::Spell;
use crate::start_menu::{menu_step, StartMenu};
use crate::items::SpellCommands;
use crate::{LAYERS, MAX_X, MAX_Y};

verus! {

/// The boot state: the first event moves the machine to the start menu.
pub struct Initial {}

impl Initial {
    pub fn new() -> (s: Initial) {
        Initial {  }
    }
}

/// One display instruction handed back to the embedding program.
pub enum Effect {
    /// Clear the whole screen.
    ClearScreen,
    /// Paint the start menu with entry `selected` highlighted.
    DrawMenu { selected: u16 },
    /// Paint the spell-cast preview screen.
    DrawSpellScreen,
    /// Decode and cache the bitmaps of these sprite ids.
    LoadTiles(Vec<usize>),
    /// Issue these tile draw calls.
    Draw(Vec<TileDraw>),
}

/// The machine's one active state.
pub enum GameState {
    Initial(Initial),
    StartMenu(StartMenu),
    Level(Level),
    Spell(Spell),
}

/// Whatever state is active keeps its board's occupancy invariant.
pub open spec fn machine_wf(m: StateMachine) -> bool {
    match m.state {
        GameState::Initial(_) => true,
        GameState::StartMenu(_) => true,
        GameState::Level(lv) => level_wf(lv),
        GameState::Spell(sp) => gv_wf(sp.grid@),
    }
}

/// What an event demands of the active state: the tick counter never
/// lags any recorded animation start on the active board.
pub open spec fn machine_event_ok(m: StateMachine, event: Event) -> bool {
    match m.state {
        GameState::Level(lv) => gv_event_ok(lv.grid@, event),
        _ => true,
    }
}

/// A just-started, just-initialized level of kind `kind`: the whole fresh
/// board pinned slot by slot — its static layout, the actor idle at the
/// start cell with its clocks zeroed, the goal unreached at the exit cell
/// — with the sprite cache loaded and covering every occupant, and input
/// unblocked.
pub open spec fn fresh_level(lv: Level, kind: Levels) -> bool {
    &&& level_wf(lv)
    &&& gv_coherent(lv.grid@)
    &&& lv.block == false
    &&& lv.level == kind
    &&& lv.tiles@ == cache_ids()
    &&& level_start(lv.grid@, kind)
    &&& sprites_cached(lv.grid@, cache_ids())
}

/// The effects of entering a freshly initialized level: load its sprite
/// cache, then repaint the whole board.
pub open spec fn level_entry_effects(effs: Seq<Effect>, lv: Level) -> bool {
    &&& effs.len() == 2
    &&& (effs[0] matches Effect::LoadTiles(ids) && ids@ == cache_ids())
    &&& (effs[1] matches Effect::Draw(ds) && redraw_all_v(lv.grid@, cache_ids(), 0) == Ok::<
        _,
        LevelError,
    >(ds@))
}

/// The whole game: the one active state.
pub struct StateMachine {
    pub state: GameState,
}

impl StateMachine {
    /// A machine in the boot state.
    pub fn new() -> (m: StateMachine)
        ensures
            m.state is Initial,
            machine_wf(m),
    {
        StateMachine { state: GameState::Initial(Initial::new()) }
    }

    /// Builds a fresh, initialized level and the effects of entering it.
    /// A fresh board is provably drawable against the loaded cache, so
    /// this never fails.
    fn enter_level(kind: Levels) -> (r: (Level, Vec<Effect>))
        ensures
            fresh_level(r.0, kind) && level_entry_effects(r.1@, r.0),
    {
        let mut lv = Level::new(kind);
        let draws = match lv.on_init() {
            Ok(ds) => ds,
            Err(e) => {
                proof {
                    assert(false);
                }
                Vec::new()
            }
        };
        let mut effs: Vec<Effect> = Vec::new();
        let mut ids: Vec<usize> = Vec::new();
        let mut i: usize = 0;
        while i < lv.tiles.len()
            invariant
                i <= lv.tiles@.len(),
                ids@ == lv.tiles@.take(i as int),
            decreases lv.tiles@.len() - i,
        {
            ids.push(lv.tiles[i]);
            proof {
                assert(ids@ =~= lv.tiles@.take(i as int + 1));
            }
            i = i + 1;
        }
        proof {
            assert(lv.tiles@.take(lv.tiles@.len() as int) =~= lv.tiles@);
        }
        effs.push(Effect::LoadTiles(ids));
        effs.push(Effect::Draw(draws));
        (lv, effs)
    }

    /// Feeds one event to the active state; a state that hands back a
    /// replacement is swapped in and initialized. The returned effects
    /// are performed by the embedding program in order; an error is a
    /// fatal construction defect and aborts the game.
    pub fn on_event(&mut self, event: &Event) -> (r: Result<Vec<Effect>, LevelError>)
        requires
            machine_wf(*old(self)),
            machine_event_ok(*old(self), *event),
        ensures
            machine_wf(*final(self)),
            match old(self).state {
                GameState::Initial(_) => final(self).state matches GameState::StartMenu(m)
                    && m.command == 0 && (r matches Ok(effs) && effs@.len() == 2
                    && effs@[0] is ClearScreen
                    && (effs@[1] matches Effect::DrawMenu { selected } && selected == 0)),
                GameState::StartMenu(m0) => {
                    let (cmd, redraw, start) = menu_step(m0.command, *event);
                    match start {
                        Some(kind) => r matches Ok(effs)
                            && (final(self).state matches GameState::Level(lv)
                            && fresh_level(lv, kind) && level_entry_effects(effs@, lv)),
                        None => final(self).state matches GameState::StartMenu(m1)
                            && m1.command == cmd && (r matches Ok(effs) && (if redraw {
                            effs@.len() == 1 && (effs@[0] matches Effect::DrawMenu { selected }
                                && selected == cmd)
                        } else {
                            effs@.len() == 0
                        })),
                    }
                },
                GameState::Level(lv0) => {
                    let reset = *event == Event::Button(
                        crate::events::Buttons::Reset(crate::events::States::Pressed),
                    );
                    let swallowed = !reset && lv0.block && *event is Button;
                    if reset {
                        final(self).state matches GameState::Spell(sp) && sp.level == lv0.level
                            && sp.commands@ == Seq::<SpellCommands>::empty()
                            && (forall|x: int, y: int, z: int|
                                crate::actions::spec_in_bounds(x, y) && 0 <= z < LAYERS
                                    ==> #[trigger] gv_slot(sp.grid@, x, y, z) == gv_slot(
                                    lv0.grid@, x, y, z))
                            && (r matches Ok(effs) && effs@.len() == 2
                            && effs@[0] is ClearScreen && effs@[1] is DrawSpellScreen)
                    } else if swallowed {
                        final(self).state matches GameState::Level(lv1) && lv1 == lv0
                            && (r matches Ok(effs) && effs@.len() == 1
                            && (effs@[0] matches Effect::Draw(ds)
                            && ds@ == Seq::<TileDraw>::empty()))
                    } else {
                        let st = level_step(lv0.grid@, lv0.block, *event);
                        if st.delivered && req_draws(st.grid, lv0.tiles@, st.redraw,
                            0) is Ok {
                            // The pass succeeded, so the machine must too: a
                            // win owes the freshly rebuilt level outright.
                            r matches Ok(effs) && (if st.win {
                                final(self).state matches GameState::Level(lv1)
                                    && fresh_level(lv1, lv0.level)
                                    && level_entry_effects(effs@, lv1)
                            } else {
                                final(self).state matches GameState::Level(lv1)
                                    && lv1.grid@ == st.grid && lv1.block == st.block
                                    && lv1.tiles == lv0.tiles && lv1.level == lv0.level
                                    && effs@.len() == 1
                                    && (effs@[0] matches Effect::Draw(ds) && req_draws(
                                    st.grid, lv0.tiles@, st.redraw, 0) == Ok::<
                                    _,
                                    LevelError,
                                >(ds@))
                            })
                        } else {
                            r is Err && (final(self).state matches GameState::Level(lv1)
                                && level_wf(lv1))
                        }
                    }
                },
                GameState::Spell(sp0) => {
                    let reset = *event == Event::Button(
                        crate::events::Buttons::Reset(crate::events::States::Pressed),
                    );
                    if reset {
                        match r {
                            Ok(effs) => final(self).state matches GameState::Level(lv)
                                && lv.level == sp0.level && lv.tiles@ == cache_ids()
                                && lv.block == false && ({
                                let st = gv_slot(lv.grid@, 0, 0, 0);
                                st is Some && st.unwrap().kind == Kinds::Spell
                                    && st.unwrap().state == 0 && st.unwrap().commands
                                    == sp0.commands@.push(SpellCommands::Right)
                            }) && effs@.len() == 2 && (effs@[0] matches Effect::LoadTiles(ids)
                                && ids@ == cache_ids()) && (effs@[1] matches Effect::Draw(ds)
                                && redraw_all_v(lv.grid@, cache_ids(), 0) == Ok::<
                                _,
                                LevelError,
                            >(ds@)),
                            Err(_) => true,
                        }
                    } else {
                        final(self).state matches GameState::Spell(sp1) && sp1.grid == sp0.grid
                            && sp1.level == sp0.level && sp1.commands == sp0.commands
                            && (r matches Ok(effs) && effs@.len() == 0)
                    }
                },
            },
    {
        let mut st = GameState::Initial(Initial {  });
        core::mem::swap(&mut st, &mut self.state);
        match st {
            GameState::Initial(_) => {
                let menu = StartMenu::new();
                self.state = GameState::StartMenu(menu);
                let mut effs: Vec<Effect> = Vec::new();
                effs.push(Effect::ClearScreen);
                effs.push(Effect::DrawMenu { selected: 0 });
                Ok(effs)
            }
            GameState::StartMenu(mut menu) => {
                let out = menu.on_event(event);
                match out.start {
                    Some(kind) => {
                        let (lv, effs) = Self::enter_level(kind);
                        self.state = GameState::Level(lv);
                        Ok(effs)
                    }
                    None => {
                        let mut effs: Vec<Effect> = Vec::new();
                        if out.redraw {
                            let selected = menu.command;
                            effs.push(Effect::DrawMenu { selected });
                        }
                        self.state = GameState::StartMenu(menu);
                        Ok(effs)
                    }
                }
            }
            GameState::Level(mut lv) => {
                let out = match lv.on_event(event) {
                    Ok(out) => out,
                    Err(e) => {
                        self.state = GameState::Level(lv);
                        return Err(e);
                    }
                };
                if out.is_win {
                    let kind = lv.level;
                    let (nlv, effs) = Self::enter_level(kind);
                    self.state = GameState::Level(nlv);
                    Ok(effs)
                } else if out.is_spell {
                    let kind = lv.level;
                    let sp = Spell::from_grid(&mut lv.grid, kind);
                    self.state = GameState::Spell(sp);
                    let mut effs: Vec<Effect> = Vec::new();
                    effs.push(Effect::ClearScreen);
                    effs.push(Effect::DrawSpellScreen);
                    Ok(effs)
                } else {
                    self.state = GameState::Level(lv);
                    let mut effs: Vec<Effect> = Vec::new();
                    effs.push(Effect::Draw(out.draws));
                    Ok(effs)
                }
            }
            GameState::Spell(mut sp) => {
                match sp.on_event(event) {
                    Some(mut lv) => {
                        let draws = match lv.on_init() {
                            Ok(ds) => ds,
                            Err(e) => {
                                self.state = GameState::Level(lv);
                                return Err(e);
                            }
                        };
                        let mut ids: Vec<usize> = Vec::new();
                        let mut i: usize = 0;
                        while i < lv.tiles.len()
                            invariant
                                i <= lv.tiles@.len(),
                                ids@ == lv.tiles@.take(i as int),
                            decreases lv.tiles@.len() - i,
                        {
                            ids.push(lv.tiles[i]);
                            proof {
                                assert(ids@ =~= lv.tiles@.take(i as int + 1));
                            }
                            i = i + 1;
                        }
                        proof {
                            assert(lv.tiles@.take(lv.tiles@.len() as int) =~= lv.tiles@);
                        }
                        let mut effs: Vec<Effect> = Vec::new();
                        effs.push(Effect::LoadTiles(ids));
                        effs.push(Effect::Draw(draws));
                        self.state = GameState::Level(lv);
                        Ok(effs)
                    }
                    None => {
                        self.state = GameState::Spell(sp);
                        let effs: Vec<Effect> = Vec::new();
                        Ok(effs)
                    }
                }
            }
        }
    }
}

} // verus!
