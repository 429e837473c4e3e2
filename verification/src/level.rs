//! One playable level: a board plus the set of sprite ids its drawing
//! needs, driven one event at a time through the board's four-stage
//! resolution and materializing the redraw batch into draw commands for
//! the embedding program's display.
use vstd::prelude::*;
use crate::actions::{spec_in_bounds, RedrawRequest};
use crate::events::{Buttons, Event, States};
use crate::grid::{
    cell_tile, deliver_try, gidx, gv_acts, gv_after_event, gv_coherent, gv_event_ok, gv_slot,
    gv_wf, init_resolve, lemma_gv_acts_z_ok, lemma_resolve_shifts_ok, redraw_shifts_ok,
    resolve_all, Grid, GRID_CELLS,
};
use crate::items::{Item, ItemV, Kinds, SpellCommands};
use crate::items::spell::Spell;
use crate::tiles::{Tile, TILE_SIZE_X, TILE_SIZE_Y};
use crate::{LAYERS, MAX_X, MAX_Y};

verus! {

/// The levels the game knows; the identifier picks the initial board
/// layout and sprite set.
#[derive(Clone, Copy, Debug, PartialEq, Eq, Structural)]
pub enum Levels {
    Level1,
}

/// The first level: its board layout.
pub struct Level1;

/// The sprite id of cell `(x, y)` in the first level's static layout: the
/// walls, stones, trees, debris and door that shape play, with plain
/// ground everywhere else.
pub open spec fn level1_tile(x: int, y: int) -> usize {
    if y == 0 {
        if x == 4 { 36 } else if x == 9 { 38 } else { 0 }
    } else if y == 1 {
        if x == 4 { 37 } else if x == 9 { 36 } else { 0 }
    } else if y == 2 {
        if x == 4 { 38 } else if x == 9 { 36 } else { 0 }
    } else if y == 3 {
        if x == 0 { 42 } else if x == 4 { 36 } else if x == 9 { 37 } else { 0 }
    } else if y == 4 {
        if x == 4 { 37 } else if x == 9 { 38 } else { 0 }
    } else if y == 5 {
        if x == 1 { 43 } else if x == 4 { 38 } else if x == 5 { 37 } else if x == 6 { 4 }
        else if x == 7 { 36 } else if x == 8 { 37 } else if x == 9 { 36 } else { 0 }
    } else if y == 6 {
        if x == 1 { 42 } else if x == 6 { 3 } else if x == 13 { 7 } else if x == 14 { 6 }
        else { 0 }
    } else if y == 7 {
        if x == 1 { 3 } else if x == 2 { 41 } else if x == 4 { 3 } else if x == 5 { 3 }
        else if x == 6 { 2 } else if x == 11 { 7 } else if x == 12 { 6 } else if x == 13 { 51 }
        else if x == 14 { 50 } else { 0 }
    } else if y == 8 {
        if x == 0 { 2 } else if x == 1 { 3 } else if x == 2 { 2 } else if x == 3 { 3 }
        else if x == 4 { 2 } else if x == 5 { 3 } else if x == 11 { 6 } else if x == 12 { 51 }
        else if x == 13 { 50 } else if x == 14 { 51 } else { 0 }
    } else {
        if x == 0 { 42 } else if x == 1 { 43 } else if x == 3 { 2 } else if x == 12 { 50 }
        else if x == 13 { 51 } else if x == 14 { 50 } else { 0 }
    }
}

impl Level1 {
    /// The initial board layout: one sprite id per cell, exactly
    /// [`level1_tile`]. Ids at most [`crate::tiles::BACKGROUND_ID_MAX`]
    /// lie on the background layer; greater ids are solid foreground
    /// (walls, stones, trees) and block movement on the actors' layer.
    pub fn layout() -> (r: [[usize; 15]; 10])
        ensures
            forall|x: int, y: int| spec_in_bounds(x, y)
                ==> #[trigger] r@[y]@[x] == level1_tile(x, y),
    {
        [
            [0, 0, 0, 0, 36, 0, 0, 0, 0, 38, 0, 0, 0, 0, 0],
            [0, 0, 0, 0, 37, 0, 0, 0, 0, 36, 0, 0, 0, 0, 0],
            [0, 0, 0, 0, 38, 0, 0, 0, 0, 36, 0, 0, 0, 0, 0],
            [42, 0, 0, 0, 36, 0, 0, 0, 0, 37, 0, 0, 0, 0, 0],
            [0, 0, 0, 0, 37, 0, 0, 0, 0, 38, 0, 0, 0, 0, 0],
            [0, 43, 0, 0, 38, 37, 4, 36, 37, 36, 0, 0, 0, 0, 0],
            [0, 42, 0, 0, 0, 0, 3, 0, 0, 0, 0, 0, 0, 7, 6],
            [0, 3, 41, 0, 3, 3, 2, 0, 0, 0, 0, 7, 6, 51, 50],
            [2, 3, 2, 3, 2, 3, 0, 0, 0, 0, 0, 6, 51, 50, 51],
            [42, 43, 0, 2, 0, 0, 0, 0, 0, 0, 0, 0, 50, 51, 50],
        ]
    }
}

/// One draw call for the embedding program: paint the bitmap of
/// `tile_id` with its top-left corner at pixel `(px, py)`.
#[derive(Clone, Copy, Debug, PartialEq, Eq, Structural)]
pub struct TileDraw {
    pub tile_id: usize,
    pub px: isize,
    pub py: isize,
}

/// A fatal defect surfaced while materializing or resolving a pass: all
/// of these mean a construction bug, not a runtime input, and the
/// embedding program must abort rather than continue the frame.
#[derive(Clone, Copy, Debug, PartialEq, Eq, Structural)]
pub enum LevelError {
    /// A cell with no occupant at all was asked for its sprite.
    EmptyCell,
    /// A sprite id on the board is missing from the loaded cache.
    UnknownTile,
    /// A redraw request addressed a slot off the board.
    BadTarget,
    /// A confirming reaction could not be delivered.
    BadReaction,
}

/// What one event did to the level: the draw calls to issue, whether the
/// goal was reached, and whether a spell-cast preview was requested.
pub struct LevelOutcome {
    pub draws: Vec<TileDraw>,
    pub is_win: bool,
    pub is_spell: bool,
}

/// One playable level: the board, the sprite ids whose bitmaps the
/// embedder has cached, and the input-blocking flag raised while a move
/// animation is in flight.
pub struct Level {
    pub grid: Grid,
    pub tiles: Vec<usize>,
    pub block: bool,
    pub level: Levels,
}

/// The sprite ids a level's drawing needs, in the order they are loaded.
pub open spec fn cache_ids() -> Seq<usize> {
    seq![
        0usize, 36, 37, 38, 41, 42, 43, 6, 7, 50, 51, 2, 3, 4, 64, 65, 68, 69, 66, 67, 70, 71,
        72, 73, 74, 75, 54,
    ]
}

/// The draw commands for the redraw requests from `n` on: each paints the
/// topmost sprite of its target cell at the tile's pixel origin plus the
/// request's carried shift. A request off the board, an empty cell or a
/// sprite missing from the cache is a fatal defect.
pub open spec fn req_draws(
    g: crate::grid::GridV,
    cache: Seq<usize>,
    reqs: Seq<RedrawRequest>,
    n: int,
) -> Result<Seq<TileDraw>, LevelError>
    decreases reqs.len() - n,
{
    if n < 0 || n >= reqs.len() {
        Ok(Seq::empty())
    } else {
        let req = reqs[n];
        if !spec_in_bounds(req.target.x as int, req.target.y as int) {
            Err(LevelError::BadTarget)
        } else {
            match cell_tile(g[gidx(req.target.x as int, req.target.y as int)]) {
                None => Err(LevelError::EmptyCell),
                Some(id) => if !cache.contains(id) {
                    Err(LevelError::UnknownTile)
                } else {
                    match req_draws(g, cache, reqs, n + 1) {
                        Ok(rest) => Ok(seq![
                            TileDraw {
                                tile_id: id,
                                px: (TILE_SIZE_X * req.target.x + req.shift.x) as isize,
                                py: (TILE_SIZE_Y * req.target.y + req.shift.y) as isize,
                            },
                        ] + rest),
                        Err(e) => Err(e),
                    }
                },
            }
        }
    }
}

/// The draw commands repainting the whole board from visit step `n` on,
/// in the fixed iteration order, one per cell at its tile's pixel origin.
pub open spec fn redraw_all_v(g: crate::grid::GridV, cache: Seq<usize>, n: int) -> Result<
    Seq<TileDraw>,
    LevelError,
>
    decreases GRID_CELLS - n,
{
    if n < 0 || n >= GRID_CELLS {
        Ok(Seq::empty())
    } else {
        match cell_tile(g[crate::grid::visit_cell(n)]) {
            None => Err(LevelError::EmptyCell),
            Some(id) => if !cache.contains(id) {
                Err(LevelError::UnknownTile)
            } else {
                match redraw_all_v(g, cache, n + 1) {
                    Ok(rest) => Ok(seq![
                        TileDraw {
                            tile_id: id,
                            px: (TILE_SIZE_X * (n / (MAX_Y as int))) as isize,
                            py: (TILE_SIZE_Y * (n % (MAX_Y as int))) as isize,
                        },
                    ] + rest),
                    Err(e) => Err(e),
                }
            },
        }
    }
}

/// Everything one event does to a level's board before draws are
/// materialized: the event stage, the resolution of its action batch, the
/// blocking flag it leaves, and the checked delivery of the confirming
/// reactions.
pub ghost struct LevelStepV {
    pub grid: crate::grid::GridV,
    pub block: bool,
    pub redraw: Seq<RedrawRequest>,
    pub win: bool,
    pub delivered: bool,
}

/// The composition of the board's four resolution stages for one event.
pub open spec fn level_step(g0: crate::grid::GridV, block0: bool, event: Event) -> LevelStepV {
    let acts = gv_acts(g0, event);
    let s = resolve_all(init_resolve(gv_after_event(g0, event)), acts);
    let b1 = match s.block {
        Some(b) => b,
        None => block0,
    };
    let dt = deliver_try(s.grid, s.reactions);
    LevelStepV { grid: dt.0, block: b1, redraw: s.redraw, win: s.win, delivered: dt.1 }
}

/// A level's board keeps the occupancy invariant.
pub open spec fn level_wf(lv: Level) -> bool {
    gv_wf(lv.grid@)
}

/// The player actor as a fresh level places it: idle at the start cell.
pub open spec fn level1_wizard() -> ItemV {
    ItemV {
        kind: Kinds::Wizard,
        x: 10,
        y: 5,
        z_order: 1,
        img_id: crate::tiles::WIZARD_IDLE1_ID,
        state: 0u8,
        start_animation: 0u128,
        time: 0u128,
        is_win: false,
        commands: Seq::empty(),
    }
}

/// The goal as a fresh level places it: unreached at the exit cell, where
/// it replaces the background decoration.
pub open spec fn level1_exit() -> ItemV {
    ItemV {
        kind: Kinds::Exit,
        x: 10,
        y: 7,
        z_order: 0,
        img_id: crate::tiles::EXIT_OPEN_ID,
        state: 0u8,
        start_animation: 0u128,
        time: 0u128,
        is_win: false,
        commands: Seq::empty(),
    }
}

/// The whole fresh board of the first level, every slot pinned: the actor
/// at (10, 5) layer 1, the goal at (10, 7) layer 0, and in every other
/// slot exactly the static decoration the layout dictates — on the layer
/// its sprite id selects, with the other layer vacant.
pub open spec fn level1_start(g: crate::grid::GridV) -> bool {
    &&& gv_slot(g, 10, 5, 1) == Some(level1_wizard())
    &&& gv_slot(g, 10, 7, 0) == Some(level1_exit())
    &&& forall|x: int, y: int, z: int|
        spec_in_bounds(x, y) && 0 <= z < LAYERS && !(x == 10 && y == 5 && z == 1) && !(x == 10
            && y == 7 && z == 0) ==> #[trigger] gv_slot(g, x, y, z) == (
            if z == crate::grid::layout_z(level1_tile(x, y)) {
                Some(crate::grid::layout_sprite(x, y, level1_tile(x, y)))
            } else {
                None
            })
}

/// The fresh board of a level of kind `kind`.
pub open spec fn level_start(g: crate::grid::GridV, kind: Levels) -> bool {
    match kind {
        Levels::Level1 => level1_start(g),
    }
}

/// Every cell shows a sprite and every shown sprite is cached: exactly
/// what a whole-board repaint needs to succeed.
pub open spec fn board_drawable(g: crate::grid::GridV, cache: Seq<usize>) -> bool {
    forall|x: int, y: int| spec_in_bounds(x, y) ==> (#[trigger] cell_tile(g[gidx(x,
        y)])) is Some && cache.contains(cell_tile(g[gidx(x, y)]).unwrap())
}

/// Every occupant's sprite id is cached, so no repaint of any slot can
/// miss the cache.
pub open spec fn sprites_cached(g: crate::grid::GridV, cache: Seq<usize>) -> bool {
    forall|x: int, y: int, z: int|
        spec_in_bounds(x, y) && 0 <= z < LAYERS && (#[trigger] gv_slot(g, x, y, z)) is Some
            ==> cache.contains(gv_slot(g, x, y, z).unwrap().img_id)
}

/// The level cache holds every sprite id the first level can ever need.
pub proof fn lemma_cache_has_level1_ids()
    ensures
        cache_ids().contains(0usize),
        cache_ids().contains(2usize),
        cache_ids().contains(3usize),
        cache_ids().contains(4usize),
        cache_ids().contains(6usize),
        cache_ids().contains(7usize),
        cache_ids().contains(36usize),
        cache_ids().contains(37usize),
        cache_ids().contains(38usize),
        cache_ids().contains(41usize),
        cache_ids().contains(42usize),
        cache_ids().contains(43usize),
        cache_ids().contains(50usize),
        cache_ids().contains(51usize),
        cache_ids().contains(54usize),
        forall|id: usize| 64 <= id <= 75 ==> cache_ids().contains(id),
{
    assert(cache_ids()[0] == 0 && cache_ids()[11] == 2 && cache_ids()[12] == 3
        && cache_ids()[13] == 4 && cache_ids()[7] == 6 && cache_ids()[8] == 7
        && cache_ids()[1] == 36 && cache_ids()[2] == 37 && cache_ids()[3] == 38
        && cache_ids()[4] == 41 && cache_ids()[5] == 42 && cache_ids()[6] == 43
        && cache_ids()[9] == 50 && cache_ids()[10] == 51 && cache_ids()[26] == 54);
    assert forall|id: usize| 64 <= id <= 75 implies cache_ids().contains(id) by {
        assert(cache_ids()[14] == 64 && cache_ids()[15] == 65 && cache_ids()[18] == 66
            && cache_ids()[19] == 67 && cache_ids()[16] == 68 && cache_ids()[17] == 69
            && cache_ids()[20] == 70 && cache_ids()[21] == 71 && cache_ids()[22] == 72
            && cache_ids()[23] == 73 && cache_ids()[24] == 74 && cache_ids()[25] == 75);
    }
}

/// The fresh first-level board is drawable against the level cache, and
/// every occupant's sprite is cached.
#[verifier::rlimit(60)]
pub proof fn lemma_level1_drawable(g: crate::grid::GridV)
    requires
        crate::grid::gv_dims(g),
        level1_start(g),
    ensures
        board_drawable(g, cache_ids()),
        sprites_cached(g, cache_ids()),
{
    lemma_cache_has_level1_ids();
    assert forall|x: int, y: int, z: int|
        spec_in_bounds(x, y) && 0 <= z < LAYERS && (#[trigger] gv_slot(g, x, y, z)) is Some
            implies cache_ids().contains(gv_slot(g, x, y, z).unwrap().img_id) by {
        if x == 10 && y == 5 && z == 1 {
            assert(gv_slot(g, x, y, z) == Some(level1_wizard()));
        } else if x == 10 && y == 7 && z == 0 {
            assert(gv_slot(g, x, y, z) == Some(level1_exit()));
        } else {
            assert(cache_ids().contains(level1_tile(x, y)));
        }
    }
    assert forall|x: int, y: int| spec_in_bounds(x, y)
        implies (#[trigger] cell_tile(g[gidx(x, y)])) is Some && cache_ids().contains(
            cell_tile(g[gidx(x, y)]).unwrap()) by {
        let i = gidx(x, y);
        assert(0 <= i < GRID_CELLS);
        assert(g[i].len() == LAYERS);
        let id = level1_tile(x, y);
        if x == 10 && y == 5 {
            assert(gv_slot(g, 10, 5, 1) == Some(level1_wizard()));
            assert(g[i][1] == Some(level1_wizard()));
            assert(cell_tile(g[i]) == Some(crate::tiles::WIZARD_IDLE1_ID));
        } else if x == 10 && y == 7 {
            assert(gv_slot(g, 10, 7, 1) is None);
            assert(g[i][1] is None);
            assert(gv_slot(g, 10, 7, 0) == Some(level1_exit()));
            assert(g[i][0] == Some(level1_exit()));
            assert(cell_tile(g[i]) == crate::grid::cell_tile_from(g[i], 0));
            assert(cell_tile(g[i]) == Some(crate::tiles::EXIT_OPEN_ID));
        } else {
            if crate::grid::layout_z(id) == 1 {
                assert(gv_slot(g, x, y, 1) == Some(crate::grid::layout_sprite(x, y, id)));
                assert(g[i][1] == Some(crate::grid::layout_sprite(x, y, id)));
                assert(cell_tile(g[i]) == Some(id));
            } else {
                assert(gv_slot(g, x, y, 1) is None);
                assert(g[i][1] is None);
                assert(gv_slot(g, x, y, 0) == Some(crate::grid::layout_sprite(x, y, id)));
                assert(g[i][0] == Some(crate::grid::layout_sprite(x, y, id)));
                assert(cell_tile(g[i]) == crate::grid::cell_tile_from(g[i], 0));
                assert(cell_tile(g[i]) == Some(id));
            }
            assert(cache_ids().contains(id));
        }
    }
}

/// A whole-board repaint of a drawable board succeeds.
pub proof fn lemma_redraw_all_ok(g: crate::grid::GridV, cache: Seq<usize>, n: int)
    requires
        crate::grid::gv_dims(g),
        board_drawable(g, cache),
        0 <= n <= GRID_CELLS,
    ensures
        redraw_all_v(g, cache, n) is Ok,
    decreases GRID_CELLS - n,
{
    if n < GRID_CELLS {
        let i = crate::grid::visit_cell(n);
        let x = n / (MAX_Y as int);
        let y = n % (MAX_Y as int);
        assert(spec_in_bounds(x, y));
        assert(gidx(x, y) == i);
        assert(cell_tile(g[i]) is Some && cache.contains(cell_tile(g[i]).unwrap()));
        lemma_redraw_all_ok(g, cache, n + 1);
    }
}

impl Level {
    /// A fresh level: its static layout, the player actor on the
    /// foreground layer at the start cell, and the goal replacing the
    /// background of the exit cell. The sprite cache starts empty until
    /// [`Level::on_init`] fills it.
    pub fn new(level: Levels) -> (lv: Level)
        ensures
            level_wf(lv),
            gv_coherent(lv.grid@),
            lv.block == false,
            lv.tiles@ == Seq::<usize>::empty(),
            lv.level == level,
            level_start(lv.grid@, level),
    {
        let layout = match level {
            Levels::Level1 => Level1::layout(),
        };
        let mut grid = Grid::from_layout(layout);
        let ghost gl = grid@;
        let wizard = Item::new(Kinds::Wizard, 10, 5, 1, Tile::wizard_idle1_id());
        proof {
            assert(crate::grid::layout_z(layout@[5]@[10]) == 0);
            assert(gv_slot(gl, 10, 5, 1 - crate::grid::layout_z(layout@[5]@[10])) is None);
        }
        grid.set_item(10, 5, wizard);
        let ghost g1 = grid@;
        let dropped = grid.take_item(10, 7, 0);
        let ghost g2 = grid@;
        let exit = Item::new(Kinds::Exit, 10, 7, 0, Tile::exit_open_id());
        grid.set_item(10, 7, exit);
        proof {
            assert(gv_slot(grid@, 10, 5, 1) == Some(level1_wizard()));
            assert(gv_slot(grid@, 10, 7, 0) == Some(level1_exit()));
            assert forall|x: int, y: int, z: int|
                spec_in_bounds(x, y) && 0 <= z < LAYERS && !(x == 10 && y == 5 && z == 1)
                    && !(x == 10 && y == 7 && z == 0)
                    implies #[trigger] gv_slot(grid@, x, y, z) == (
                        if z == crate::grid::layout_z(level1_tile(x, y)) {
                            Some(crate::grid::layout_sprite(x, y, level1_tile(x, y)))
                        } else {
                            None
                        }) by {
                if gidx(x, y) == gidx(10, 7) {
                    assert(x == 10 && y == 7);
                    assert(gv_slot(grid@, x, y, z) == gv_slot(gl, x, y, z));
                } else if gidx(x, y) == gidx(10, 5) {
                    assert(x == 10 && y == 5);
                    assert(gv_slot(grid@, x, y, z) == gv_slot(gl, x, y, z));
                } else {
                    assert(gv_slot(grid@, x, y, z) == gv_slot(gl, x, y, z));
                }
                let img = layout@[y]@[x];
                assert(img == level1_tile(x, y));
                if z == crate::grid::layout_z(img) {
                    assert(gv_slot(gl, x, y, z)
                        == Some(crate::grid::layout_sprite(x, y, img)));
                } else {
                    assert(gv_slot(gl, x, y, 1 - crate::grid::layout_z(img)) is None);
                }
            }
            assert(level1_start(grid@));
        }
        Level { grid, tiles: Vec::new(), block: false, level }
    }

    /// A level of kind `level` taking over the occupants of `grid`,
    /// transplanted cell by cell; its sprite cache starts empty.
    pub fn from_grid(grid: &mut Grid, level: Levels) -> (lv: Level)
        requires
            gv_wf(old(grid)@),
        ensures
            level_wf(lv),
            lv.block == false,
            lv.tiles@ == Seq::<usize>::empty(),
            lv.level == level,
            forall|x: int, y: int, z: int| spec_in_bounds(x, y) && 0 <= z < LAYERS
                ==> #[trigger] gv_slot(lv.grid@, x, y, z) == gv_slot(old(grid)@, x, y, z),
            gv_wf(final(grid)@),
            forall|x: int, y: int, z: int| spec_in_bounds(x, y) && 0 <= z < LAYERS
                ==> #[trigger] gv_slot(final(grid)@, x, y, z) is None,
    {
        let g = Grid::new_from(grid);
        Level { grid: g, tiles: Vec::new(), block: false, level }
    }

    /// A level resuming play after a spell-cast preview: the previewed
    /// board's occupants are transplanted back, and the composed spell is
    /// staged — it replaces whatever held the staging slot, ready for its
    /// first event to request the cast.
    pub fn from_spell(grid: &mut Grid, level: Levels, commands: Vec<SpellCommands>) -> (lv:
        Level)
        requires
            gv_wf(old(grid)@),
            commands@.len() >= 1,
        ensures
            level_wf(lv),
            lv.block == false,
            lv.tiles@ == Seq::<usize>::empty(),
            lv.level == level,
            ({
                let sp = gv_slot(lv.grid@, 0, 0, 0);
                sp is Some && sp.unwrap().kind == Kinds::Spell && sp.unwrap().state == 0
                    && sp.unwrap().commands == commands@
            }),
            forall|x: int, y: int, z: int|
                spec_in_bounds(x, y) && 0 <= z < LAYERS && !(x == 0 && y == 0 && z == 0)
                    ==> #[trigger] gv_slot(lv.grid@, x, y, z) == gv_slot(old(grid)@, x, y, z),
            gv_wf(final(grid)@),
            forall|x: int, y: int, z: int| spec_in_bounds(x, y) && 0 <= z < LAYERS
                ==> #[trigger] gv_slot(final(grid)@, x, y, z) is None,
    {
        let mut g = Grid::new_from(grid);
        let ghost gt = g@;
        let dropped = g.take_item(0, 0, 0);
        let spell = Spell::new(0, 0, 0, Tile::web_id(), commands);
        g.set_item(0, 0, spell);
        proof {
            assert forall|x: int, y: int, z: int|
                spec_in_bounds(x, y) && 0 <= z < LAYERS && !(x == 0 && y == 0 && z == 0)
                    implies #[trigger] gv_slot(g@, x, y, z) == gv_slot(old(grid)@, x, y,
                    z) by {
                assert(gv_slot(gt, x, y, z) == gv_slot(old(grid)@, x, y, z));
                if gidx(x, y) == 0 {
                    assert(x == 0 && y == 0 && z == 1);
                }
            }
        }
        Level { grid: g, tiles: Vec::new(), block: false, level }
    }

    /// Repaints the whole board: one draw command per cell, in the fixed
    /// iteration order, each at its tile's pixel origin.
    pub fn redraw_all(&self) -> (r: Result<Vec<TileDraw>, LevelError>)
        requires
            crate::grid::gv_dims(self.grid@),
        ensures
            match r {
                Ok(ds) => redraw_all_v(self.grid@, self.tiles@, 0) == Ok::<_, LevelError>(ds@),
                Err(e) => redraw_all_v(self.grid@, self.tiles@, 0) == Err::<Seq<TileDraw>, _>(
                    e,
                ),
            },
    {
        let mut draws: Vec<TileDraw> = Vec::new();
        let mut x: usize = 0;
        while x < MAX_X
            invariant
                x <= MAX_X,
                crate::grid::gv_dims(self.grid@),
                ({
                    let whole = redraw_all_v(self.grid@, self.tiles@, 0);
                    match redraw_all_v(self.grid@, self.tiles@, x as int * MAX_Y) {
                        Ok(rest) => whole == Ok::<_, LevelError>(draws@ + rest),
                        Err(e) => whole == Err::<Seq<TileDraw>, _>(e),
                    }
                }),
            decreases MAX_X - x,
        {
            let mut y: usize = 0;
            while y < MAX_Y
                invariant
                    x < MAX_X,
                    y <= MAX_Y,
                    crate::grid::gv_dims(self.grid@),
                    ({
                        let whole = redraw_all_v(self.grid@, self.tiles@, 0);
                        match redraw_all_v(self.grid@, self.tiles@, x as int * MAX_Y + y) {
                            Ok(rest) => whole == Ok::<_, LevelError>(draws@ + rest),
                            Err(e) => whole == Err::<Seq<TileDraw>, _>(e),
                        }
                    }),
                decreases MAX_Y - y,
            {
                let ghost n = x as int * MAX_Y + y as int;
                proof {
                    assert(n % (MAX_Y as int) == y as int && n / (MAX_Y as int) == x as int);
                    assert(crate::grid::visit_cell(n) == gidx(x as int, y as int));
                }
                let tile = self.grid.top_tile(x, y);
                match tile {
                    None => {
                        return Err(LevelError::EmptyCell);
                    }
                    Some(id) => {
                        if !self.cache_has(id) {
                            return Err(LevelError::UnknownTile);
                        }
                        let ghost dpre = draws@;
                        let d = TileDraw {
                            tile_id: id,
                            px: (TILE_SIZE_X * x) as isize,
                            py: (TILE_SIZE_Y * y) as isize,
                        };
                        draws.push(d);
                        proof {
                            match redraw_all_v(self.grid@, self.tiles@, n + 1) {
                                Ok(nrest) => {
                                    assert(dpre + (seq![d] + nrest) =~= draws@ + nrest);
                                }
                                Err(_) => (),
                            }
                        }
                    }
                }
                y = y + 1;
            }
            x = x + 1;
        }
        proof {
            assert(redraw_all_v(self.grid@, self.tiles@, GRID_CELLS as int)
                == Ok::<Seq<TileDraw>, LevelError>(Seq::empty()));
            assert(draws@ + Seq::<TileDraw>::empty() =~= draws@);
        }
        Ok(draws)
    }

    /// Loads the level's sprite cache — the embedder decodes and keeps
    /// the bitmap of every id in [`Level::tiles`] — and repaints the
    /// whole board.
    pub fn on_init(&mut self) -> (r: Result<Vec<TileDraw>, LevelError>)
        requires
            level_wf(*old(self)),
        ensures
            level_wf(*final(self)),
            final(self).grid == old(self).grid,
            final(self).block == old(self).block,
            final(self).level == old(self).level,
            final(self).tiles@ == cache_ids(),
            match r {
                Ok(ds) => redraw_all_v(final(self).grid@, cache_ids(), 0) == Ok::<
                    _,
                    LevelError,
                >(ds@),
                Err(e) => redraw_all_v(final(self).grid@, cache_ids(), 0) == Err::<
                    Seq<TileDraw>,
                    _,
                >(e),
            },
            level_start(old(self).grid@, old(self).level) ==> r is Ok && sprites_cached(
                final(self).grid@, cache_ids()),
    {
        let tiles: Vec<usize> = vec![
            0, 36, 37, 38, 41, 42, 43, 6, 7, 50, 51, 2, 3, 4, 64, 65, 68, 69, 66, 67, 70, 71,
            72, 73, 74, 75, 54,
        ];
        proof {
            assert(tiles@ =~= cache_ids());
            if level_start(self.grid@, self.level) {
                match self.level {
                    Levels::Level1 => {
                        lemma_level1_drawable(self.grid@);
                        lemma_redraw_all_ok(self.grid@, cache_ids(), 0);
                    }
                }
            }
        }
        self.tiles = tiles;
        self.redraw_all()
    }

    /// Drives one event through the board's four-stage resolution and
    /// materializes the resulting redraw batch into draw commands.
    ///
    /// A pressed reset button instead requests a spell-cast preview and
    /// touches nothing. While the blocking flag is raised, button events
    /// are swallowed whole; ticks always run, so an in-flight animation
    /// completes and releases the flag.
    pub fn on_event(&mut self, event: &Event) -> (r: Result<LevelOutcome, LevelError>)
        requires
            level_wf(*old(self)),
            gv_event_ok(old(self).grid@, *event),
        ensures
            level_wf(*final(self)),
            final(self).tiles == old(self).tiles,
            final(self).level == old(self).level,
            ({
                let reset = *event == Event::Button(Buttons::Reset(States::Pressed));
                let swallowed = !reset && old(self).block && *event is Button;
                if reset || swallowed {
                    &&& *final(self) == *old(self)
                    &&& match r {
                        Ok(out) => out.draws@ == Seq::<TileDraw>::empty() && !out.is_win
                            && out.is_spell == reset,
                        Err(_) => false,
                    }
                } else {
                    let st = level_step(old(self).grid@, old(self).block, *event);
                    &&& final(self).grid@ == st.grid
                    &&& final(self).block == st.block
                    &&& if !st.delivered {
                        r == Err::<LevelOutcome, _>(LevelError::BadReaction)
                    } else {
                        match r {
                            Ok(out) => req_draws(st.grid, old(self).tiles@, st.redraw, 0)
                                == Ok::<_, LevelError>(out.draws@) && out.is_win == st.win
                                && !out.is_spell,
                            Err(e) => req_draws(st.grid, old(self).tiles@, st.redraw, 0)
                                == Err::<Seq<TileDraw>, _>(e),
                        }
                    }
                }
            }),
    {
        match event {
            Event::Button(Buttons::Reset(States::Pressed)) => {
                return Ok(LevelOutcome { draws: Vec::new(), is_win: false, is_spell: true });
            }
            _ => (),
        }
        if self.block {
            match event {
                Event::Button(_) => {
                    return Ok(LevelOutcome {
                        draws: Vec::new(),
                        is_win: false,
                        is_spell: false,
                    });
                }
                _ => (),
            }
        }
        let ghost g0 = self.grid@;
        let requests = self.grid.on_event(event);
        proof {
            lemma_gv_acts_z_ok(g0, *event, GRID_CELLS as int);
        }
        let (reactions, to_redraw, block, is_win) = self.grid.on_actions(requests);
        proof {
            lemma_resolve_shifts_ok(init_resolve(gv_after_event(g0, *event)), gv_acts(g0,
                *event), gv_acts(g0, *event).len() as int);
        }
        match block {
            Some(b) => {
                self.block = b;
            }
            None => (),
        }
        let delivered = self.grid.try_on_reactions(reactions);
        match delivered {
            Err(_) => {
                return Err(LevelError::BadReaction);
            }
            Ok(()) => (),
        }
        let draws = match self.make_draws(&to_redraw) {
            Ok(ds) => ds,
            Err(e) => {
                return Err(e);
            }
        };
        Ok(LevelOutcome { draws, is_win, is_spell: false })
    }

    /// Whether the cached sprite set holds `id`.
    fn cache_has(&self, id: usize) -> (r: bool)
        ensures
            r == self.tiles@.contains(id),
    {
        let mut i: usize = 0;
        while i < self.tiles.len()
            invariant
                i <= self.tiles@.len(),
                forall|j: int| 0 <= j < i ==> self.tiles@[j] != id,
            decreases self.tiles@.len() - i,
        {
            if self.tiles[i] == id {
                return true;
            }
            i = i + 1;
        }
        proof {
            assert(!self.tiles@.contains(id));
        }
        false
    }

    /// Materializes a redraw batch into draw commands, painting each
    /// target's topmost sprite at its tile origin shifted by the carried
    /// pixel offset.
    fn make_draws(&self, reqs: &Vec<RedrawRequest>) -> (r: Result<Vec<TileDraw>, LevelError>)
        requires
            crate::grid::gv_dims(self.grid@),
            redraw_shifts_ok(reqs@),
        ensures
            match r {
                Ok(ds) => req_draws(self.grid@, self.tiles@, reqs@, 0) == Ok::<_, LevelError>(
                    ds@,
                ),
                Err(e) => req_draws(self.grid@, self.tiles@, reqs@, 0) == Err::<Seq<TileDraw>,
                    _,
                >(e),
            },
    {
        let mut draws: Vec<TileDraw> = Vec::new();
        let mut n: usize = 0;
        while n < reqs.len()
            invariant
                n <= reqs@.len(),
                crate::grid::gv_dims(self.grid@),
                redraw_shifts_ok(reqs@),
                ({
                    let whole = req_draws(self.grid@, self.tiles@, reqs@, 0);
                    match req_draws(self.grid@, self.tiles@, reqs@, n as int) {
                        Ok(rest) => whole == Ok::<_, LevelError>(draws@ + rest),
                        Err(e) => whole == Err::<Seq<TileDraw>, _>(e),
                    }
                }),
            decreases reqs@.len() - n,
        {
            let req = reqs[n];
            if !(req.target.x < MAX_X && req.target.y < MAX_Y) {
                return Err(LevelError::BadTarget);
            }
            let tile = self.grid.top_tile(req.target.x, req.target.y);
            match tile {
                None => {
                    return Err(LevelError::EmptyCell);
                }
                Some(id) => {
                    if !self.cache_has(id) {
                        return Err(LevelError::UnknownTile);
                    }
                    let ghost dpre = draws@;
                    let px: isize = (TILE_SIZE_X * req.target.x) as isize + req.shift.x;
                    let py: isize = (TILE_SIZE_Y * req.target.y) as isize + req.shift.y;
                    let d = TileDraw { tile_id: id, px, py };
                    draws.push(d);
                    proof {
                        match req_draws(self.grid@, self.tiles@, reqs@, n as int + 1) {
                            Ok(nrest) => {
                                assert(dpre + (seq![d] + nrest) =~= draws@ + nrest);
                            }
                            Err(_) => (),
                        }
                    }
                }
            }
            n = n + 1;
        }
        proof {
            assert(req_draws(self.grid@, self.tiles@, reqs@, reqs@.len() as int)
                == Ok::<Seq<TileDraw>, LevelError>(Seq::empty()));
            assert(draws@ + Seq::<TileDraw>::empty() =~= draws@);
        }
        Ok(draws)
    }
}

} // verus!
