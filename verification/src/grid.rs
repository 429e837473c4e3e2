//! The board and its resolver. A [`Cell`] owns up to [`LAYERS`] occupants,
//! one per depth layer; a [`Grid`] is the fixed `MAX_X` by `MAX_Y` matrix of
//! cells and turns raw events into action requests, resolves them — movement
//! conflicts above all — and produces reactions, a deduplicated redraw batch,
//! an input-blocking flag and a win flag.
use vstd::prelude::*;
use crate::actions::{
    spec_in_bounds, spec_step, Action, Actions, MoveDestination, Pos, RedrawRequest, Target, Who,
};
use crate::events::Event;
use crate::items::{
    item_on_event_v, item_on_reaction_v, iv_event_ok, iv_reaction_ok, iv_target, iv_wf, Item,
    ItemV, Kinds,
};
use crate::tiles::BACKGROUND_ID_MAX;
use crate::{LAYERS, MAX_X, MAX_Y};

verus! {

/// The model of one cell: its occupants by layer.
pub type CellV = Seq<Option<ItemV>>;

/// The model of the board: cells in row-major order, each holding its
/// occupants by layer.
pub type GridV = Seq<CellV>;

/// Number of cells on the board.
pub const GRID_CELLS: usize = 150;

/// The failure of a rejected move: the destination is off the board or its
/// layer is occupied, or there was nothing to move.
#[derive(Clone, Copy, Debug, PartialEq, Eq, Structural)]
pub enum MoveError {
    Invalid,
}

/// The cell index of `(x, y)` in row-major order.
pub open spec fn gidx(x: int, y: int) -> int {
    y * MAX_X + x
}

/// The occupant of slot `(x, y, z)`.
pub open spec fn gv_slot(g: GridV, x: int, y: int, z: int) -> Option<ItemV> {
    g[gidx(x, y)][z]
}

/// The dimensions every grid keeps: one cell per board position, one slot
/// per layer.
pub open spec fn gv_dims(g: GridV) -> bool {
    &&& g.len() == GRID_CELLS
    &&& forall|i: int| 0 <= i < g.len() ==> (#[trigger] g[i]).len() == LAYERS
}

/// The occupancy invariant of the board: dimensions hold, every occupant is
/// internally well-formed, and an occupant sits only in the slot of its own
/// declared layer — so each item claims exactly the one slot that addresses
/// it.
pub open spec fn gv_wf(g: GridV) -> bool {
    &&& gv_dims(g)
    &&& forall|x: int, y: int, z: int|
        spec_in_bounds(x, y) && 0 <= z < LAYERS && (#[trigger] gv_slot(g, x, y, z)) is Some
            ==> iv_wf(gv_slot(g, x, y, z).unwrap()) && gv_slot(g, x, y, z).unwrap().z_order == z
}

/// Positional coherence: every occupant's recorded coordinates agree with
/// the slot it sits in. This holds between resolution passes; within a pass
/// a just-moved item keeps its old coordinates until its confirming
/// reaction is delivered.
pub open spec fn gv_coherent(g: GridV) -> bool {
    forall|x: int, y: int, z: int|
        spec_in_bounds(x, y) && 0 <= z < LAYERS && (#[trigger] gv_slot(g, x, y, z)) is Some
            ==> gv_slot(g, x, y, z).unwrap().x == x && gv_slot(g, x, y, z).unwrap().y == y
}

/// `g` with slot `(i, z)` (cell index, layer) holding `o`.
pub open spec fn gv_store(g: GridV, i: int, z: int, o: Option<ItemV>) -> GridV {
    g.update(i, g[i].update(z, o))
}

/// The grid and arrival slot that result from moving the occupant of `src`
/// one cell in direction `dest`, or `None` when the move is rejected: the
/// source is off the board or empty, or the destination is off the board or
/// already occupied on the moved item's layer. A rejected move changes
/// nothing.
pub open spec fn gv_move(g: GridV, src: Target, dest: MoveDestination) -> Option<(GridV, Target)> {
    if !spec_in_bounds(src.x as int, src.y as int) {
        None
    } else {
        match gv_slot(g, src.x as int, src.y as int, src.z as int) {
            None => None,
            Some(iv) => {
                let nx = spec_step(src.x as int, src.y as int, dest).0;
                let ny = spec_step(src.x as int, src.y as int, dest).1;
                if !spec_in_bounds(nx, ny) {
                    None
                } else if gv_slot(g, nx, ny, iv.z_order as int) is Some {
                    None
                } else {
                    let g1 = gv_store(g, gidx(src.x as int, src.y as int), src.z as int, None);
                    let g2 = gv_store(g1, gidx(nx, ny), iv.z_order as int, Some(iv));
                    Some((g2, Target { x: nx as usize, y: ny as usize, z: src.z }))
                }
            }
        }
    }
}

/// The occupant (if any) after delivering `event` to it.
pub open spec fn opt_on_event_iv(o: Option<ItemV>, event: Event) -> Option<ItemV> {
    match o {
        Some(iv) => Some(item_on_event_v(iv, event).0),
        None => None,
    }
}

/// The actions the occupant (if any) emits for `event`.
pub open spec fn opt_on_event_acts(o: Option<ItemV>, event: Event) -> Seq<Action> {
    match o {
        Some(iv) => item_on_event_v(iv, event).1,
        None => Seq::empty(),
    }
}

/// The concatenated actions of one cell's occupants at layers below `k`,
/// in layer order.
pub open spec fn cell_acts_upto(cv: CellV, event: Event, k: int) -> Seq<Action>
    decreases k,
{
    if k <= 0 {
        Seq::empty()
    } else {
        cell_acts_upto(cv, event, k - 1) + opt_on_event_acts(cv[k - 1], event)
    }
}

/// The concatenated actions of one cell's occupants, in layer order.
pub open spec fn cell_acts(cv: CellV, event: Event) -> Seq<Action> {
    cell_acts_upto(cv, event, cv.len() as int)
}

/// The cell index visited at step `n` of the fixed iteration order:
/// column-outer, row-inner.
pub open spec fn visit_cell(n: int) -> int {
    (n % (MAX_Y as int)) * MAX_X + n / (MAX_Y as int)
}

/// The concatenated actions of the first `n` visited cells, in the fixed
/// iteration order.
pub open spec fn gv_acts_upto(g: GridV, event: Event, n: int) -> Seq<Action>
    decreases n,
{
    if n <= 0 {
        Seq::empty()
    } else {
        gv_acts_upto(g, event, n - 1) + cell_acts(g[visit_cell(n - 1)], event)
    }
}

/// Every action request one event draws out of the whole board, cell by
/// cell in the fixed iteration order (column-outer, row-inner), each cell's
/// occupants in layer order.
pub open spec fn gv_acts(g: GridV, event: Event) -> Seq<Action> {
    gv_acts_upto(g, event, GRID_CELLS as int)
}

/// Every occupant accepts the event: the tick counter never lags any
/// recorded animation start.
pub open spec fn gv_event_ok(g: GridV, event: Event) -> bool {
    forall|x: int, y: int, z: int|
        spec_in_bounds(x, y) && 0 <= z < LAYERS && (#[trigger] gv_slot(g, x, y, z)) is Some
            ==> iv_event_ok(gv_slot(g, x, y, z).unwrap(), event)
}

/// The sprite of the highest occupied layer of one cell at or below layer
/// `z` — the topmost visible occupant — or `None` for a fully empty cell.
pub open spec fn cell_tile_from(cv: CellV, z: int) -> Option<usize>
    decreases z + 1,
{
    if z < 0 {
        None
    } else {
        match cv[z] {
            Some(iv) => Some(iv.img_id),
            None => cell_tile_from(cv, z - 1),
        }
    }
}

/// The sprite id of one cell's topmost visible occupant, if any.
pub open spec fn cell_tile(cv: CellV) -> Option<usize> {
    cell_tile_from(cv, cv.len() - 1)
}

/// How many of the first `k` layers of one cell are occupied.
pub open spec fn cell_occ_upto(cv: CellV, k: int) -> int
    decreases k,
{
    if k <= 0 {
        0
    } else {
        cell_occ_upto(cv, k - 1) + (if cv[k - 1] is Some {
            1int
        } else {
            0int
        })
    }
}

/// The first occupant of kind `kind` at layer `z` or above of one cell, by
/// its claimed slot.
pub open spec fn cell_find_kind_from(cv: CellV, kind: Kinds, z: int) -> Option<Target>
    decreases cv.len() - z,
{
    if z < 0 || z >= cv.len() {
        None
    } else {
        match cv[z] {
            Some(iv) => if iv.kind == kind {
                Some(iv_target(iv))
            } else {
                cell_find_kind_from(cv, kind, z + 1)
            },
            None => cell_find_kind_from(cv, kind, z + 1),
        }
    }
}

/// The first occupant of kind `kind` in one cell, by its claimed slot.
pub open spec fn cell_find_kind(cv: CellV, kind: Kinds) -> Option<Target> {
    cell_find_kind_from(cv, kind, 0)
}

/// The first occupant of kind `kind` from visit step `n` on, in the fixed
/// iteration order.
pub open spec fn gv_find_kind_from(g: GridV, kind: Kinds, n: int) -> Option<Target>
    decreases GRID_CELLS - n,
{
    if n < 0 || n >= GRID_CELLS {
        None
    } else {
        match cell_find_kind(g[visit_cell(n)], kind) {
            Some(t) => Some(t),
            None => gv_find_kind_from(g, kind, n + 1),
        }
    }
}

/// The slot the first occupant of kind `kind` claims, searching cells in
/// the fixed iteration order and layers bottom-up.
pub open spec fn gv_find_kind(g: GridV, kind: Kinds) -> Option<Target> {
    gv_find_kind_from(g, kind, 0)
}

/// Whether the batch already holds a request for `t`.
pub open spec fn redraw_has_target(rs: Seq<RedrawRequest>, t: Target) -> bool {
    exists|i: int| 0 <= i < rs.len() && (#[trigger] rs[i]).target == t
}

/// The batch with `req` appended, unless its target is already requested:
/// the batch is a set keyed by target.
pub open spec fn add_redraw_v(rs: Seq<RedrawRequest>, req: RedrawRequest) -> Seq<RedrawRequest> {
    if redraw_has_target(rs, req.target) {
        rs
    } else {
        rs.push(req)
    }
}

/// No two entries of the batch share a target.
pub open spec fn no_dup_redraw(rs: Seq<RedrawRequest>) -> bool {
    forall|i: int, j: int| 0 <= i < rs.len() && 0 <= j < rs.len() && i != j
        ==> (#[trigger] rs[i]).target != (#[trigger] rs[j]).target
}

/// The confirming reactions of one accepted move: one `Move` reaction per
/// layer of the arrival cell, so the moved item and the arrival cell's
/// other occupant both learn of the confirmed move.
pub open spec fn move_reactions(t: Target, dest: MoveDestination, who: Who) -> Seq<Action> {
    Seq::new(LAYERS as nat, |z: int| Action {
        target: Target { x: t.x, y: t.y, z: z as usize },
        action: Actions::Move { dest, who },
    })
}

/// The running outcome of one resolution pass: the board, the confirming
/// reactions, the deduplicated redraw batch, the input-blocking request and
/// the win flag.
pub ghost struct ResolveState {
    pub grid: GridV,
    pub reactions: Seq<Action>,
    pub redraw: Seq<RedrawRequest>,
    pub block: Option<bool>,
    pub win: bool,
}

/// The pass's starting state over grid `g`: nothing collected yet.
pub open spec fn init_resolve(g: GridV) -> ResolveState {
    ResolveState { grid: g, reactions: Seq::empty(), redraw: Seq::empty(), block: None, win: false }
}

/// The effect of one cast request: locate the player actor, step one cell
/// from it in `dir`, and move the staged spell from the staging slot there
/// — but only when an actor exists, a spell is staged, the stepped cell is
/// on the board and its layer is vacant; otherwise the cast silently fails
/// and the board is unchanged.
pub open spec fn apply_init_spell(s: ResolveState, dir: MoveDestination) -> ResolveState {
    match gv_find_kind(s.grid, Kinds::Wizard) {
        None => s,
        Some(wt) => {
            let nx = spec_step(wt.x as int, wt.y as int, dir).0;
            let ny = spec_step(wt.x as int, wt.y as int, dir).1;
            match gv_slot(s.grid, 0, 0, 0) {
                None => s,
                Some(sp) => {
                    if sp.kind == Kinds::Spell && spec_in_bounds(nx, ny)
                        && gv_slot(s.grid, nx, ny, wt.z as int) is None {
                        let sp2 = ItemV { x: nx as usize, y: ny as usize, z_order: wt.z, ..sp };
                        let g1 = gv_store(s.grid, gidx(0, 0), 0, None);
                        let g2 = gv_store(g1, gidx(nx, ny), wt.z as int, Some(sp2));
                        let nt = Target { x: nx as usize, y: ny as usize, z: wt.z };
                        ResolveState {
                            grid: g2,
                            redraw: add_redraw_v(s.redraw, RedrawRequest {
                                target: nt,
                                shift: Pos { x: 0isize, y: 0isize },
                            }),
                            ..s
                        }
                    } else {
                        s
                    }
                }
            }
        }
    }
}

/// The effect of one action on the running outcome, in order received: an
/// accepted move reshapes the board, emits its confirming reactions and
/// blocks input; a rejected move changes nothing at all; redraw requests
/// join the batch deduplicated by target; a cast relocates the staged
/// spell; `Block` overwrites the blocking request; `Win` raises the flag.
pub open spec fn apply_action(s: ResolveState, a: Action) -> ResolveState {
    match a.action {
        Actions::Move { dest, who } => match gv_move(s.grid, a.target, dest) {
            Some((g2, t)) => ResolveState {
                grid: g2,
                reactions: s.reactions + move_reactions(t, dest, who),
                block: Some(true),
                ..s
            },
            None => s,
        },
        Actions::Redraw => ResolveState {
            redraw: add_redraw_v(s.redraw, RedrawRequest {
                target: a.target,
                shift: Pos { x: 0isize, y: 0isize },
            }),
            ..s
        },
        Actions::RedrawAnim(sx, sy, old_t) => {
            let r1 = add_redraw_v(s.redraw, RedrawRequest {
                target: old_t,
                shift: Pos { x: 0isize, y: 0isize },
            });
            let r2 = add_redraw_v(r1, RedrawRequest {
                target: a.target,
                shift: Pos { x: sx as isize, y: sy as isize },
            });
            ResolveState { redraw: r2, ..s }
        },
        Actions::InitSpell(dir) => apply_init_spell(s, dir),
        Actions::Block(b) => ResolveState { block: Some(b), ..s },
        Actions::Win => ResolveState { win: true, ..s },
    }
}

/// The outcome after the first `n` actions of the batch.
pub open spec fn resolve_upto(s0: ResolveState, acts: Seq<Action>, n: int) -> ResolveState
    decreases n,
{
    if n <= 0 {
        s0
    } else {
        apply_action(resolve_upto(s0, acts, n - 1), acts[n - 1])
    }
}

/// The outcome of resolving the whole batch, in order.
pub open spec fn resolve_all(s0: ResolveState, acts: Seq<Action>) -> ResolveState {
    resolve_upto(s0, acts, acts.len() as int)
}

/// The board after one confirmed action is delivered to the occupant of
/// its target slot — the slot's *current* occupant, which after an
/// accepted move is the moved item itself.
pub open spec fn apply_reaction(g: GridV, r: Action) -> GridV {
    if spec_in_bounds(r.target.x as int, r.target.y as int) && r.target.z < LAYERS {
        match gv_slot(g, r.target.x as int, r.target.y as int, r.target.z as int) {
            Some(iv) => gv_store(
                g,
                gidx(r.target.x as int, r.target.y as int),
                r.target.z as int,
                Some(item_on_reaction_v(iv, r)),
            ),
            None => g,
        }
    } else {
        g
    }
}

/// One reaction is deliverable: its target addresses the board and its
/// occupant (if any) accepts it.
pub open spec fn reaction_ok_in(g: GridV, r: Action) -> bool {
    &&& spec_in_bounds(r.target.x as int, r.target.y as int)
    &&& r.target.z < LAYERS
    &&& match gv_slot(g, r.target.x as int, r.target.y as int, r.target.z as int) {
        Some(iv) => iv_reaction_ok(iv, r),
        None => true,
    }
}

/// The whole reaction list is deliverable, each against the board as the
/// ones before it left it.
pub open spec fn deliverable(g: GridV, rs: Seq<Action>) -> bool
    decreases rs.len(),
{
    rs.len() == 0 || (reaction_ok_in(g, rs[0]) && deliverable(apply_reaction(g, rs[0]), rs.skip(
        1,
    )))
}

/// The board after every confirmed reaction is delivered, in order.
pub open spec fn gv_on_reactions(g: GridV, rs: Seq<Action>) -> GridV
    decreases rs.len(),
{
    if rs.len() == 0 {
        g
    } else {
        gv_on_reactions(apply_reaction(g, rs[0]), rs.skip(1))
    }
}

/// A delivered reaction leaves the occupant's kind and layer in place and
/// keeps it well-formed.
pub proof fn lemma_item_on_reaction_keeps(iv: ItemV, r: Action)
    requires
        iv_wf(iv),
        iv_reaction_ok(iv, r),
    ensures
        item_on_reaction_v(iv, r).z_order == iv.z_order,
        item_on_reaction_v(iv, r).kind == iv.kind,
        iv_wf(item_on_reaction_v(iv, r)),
{
}

/// What the resolver asks of an action batch: a move request addresses a
/// real layer. Everything else is handled gracefully.
pub open spec fn actions_z_ok(acts: Seq<Action>) -> bool {
    forall|i: int| 0 <= i < acts.len() ==> match (#[trigger] acts[i]).action {
        Actions::Move { dest, who } => acts[i].target.z < LAYERS,
        _ => true,
    }
}

/// The whole board after one event is delivered to every occupant.
pub open spec fn gv_after_event(g: GridV, event: Event) -> GridV {
    Seq::new(g.len(), |i: int| Seq::new(g[i].len(), |z: int| opt_on_event_iv(g[i][z], event)))
}

/// Actions an item emits are fit for the resolver: every move request
/// addresses a real layer (the item's own).
pub proof fn lemma_item_acts_z_ok(iv: ItemV, event: Event)
    requires
        iv_wf(iv),
        iv_event_ok(iv, event),
    ensures
        actions_z_ok(item_on_event_v(iv, event).1),
{
}

/// Concatenation preserves resolver-fitness of action batches.
pub proof fn lemma_acts_z_ok_concat(a: Seq<Action>, b: Seq<Action>)
    requires
        actions_z_ok(a),
        actions_z_ok(b),
    ensures
        actions_z_ok(a + b),
{
    assert forall|i: int| 0 <= i < (a + b).len() implies match (#[trigger] (a + b)[i]).action {
        Actions::Move { dest, who } => (a + b)[i].target.z < LAYERS,
        _ => true,
    } by {
        if i < a.len() {
            assert((a + b)[i] == a[i]);
        } else {
            assert((a + b)[i] == b[i - a.len()]);
        }
    }
}

/// One cell's concatenated actions are fit for the resolver.
pub proof fn lemma_cell_acts_z_ok(cv: CellV, event: Event, k: int)
    requires
        forall|z: int| 0 <= z < cv.len() && (#[trigger] cv[z]) is Some
            ==> iv_wf(cv[z].unwrap()) && iv_event_ok(cv[z].unwrap(), event),
        k <= cv.len(),
    ensures
        actions_z_ok(cell_acts_upto(cv, event, k)),
    decreases k,
{
    if k <= 0 {
    } else {
        lemma_cell_acts_z_ok(cv, event, k - 1);
        match cv[k - 1] {
            Some(iv) => {
                lemma_item_acts_z_ok(iv, event);
                lemma_acts_z_ok_concat(cell_acts_upto(cv, event, k - 1),
                    item_on_event_v(iv, event).1);
            }
            None => {
                lemma_acts_z_ok_concat(cell_acts_upto(cv, event, k - 1), Seq::empty());
            }
        }
    }
}

/// The whole board's event batch is fit for the resolver.
pub proof fn lemma_gv_acts_z_ok(g: GridV, event: Event, n: int)
    requires
        gv_wf(g),
        gv_event_ok(g, event),
        n <= GRID_CELLS,
    ensures
        actions_z_ok(gv_acts_upto(g, event, n)),
    decreases n,
{
    if n <= 0 {
    } else {
        lemma_gv_acts_z_ok(g, event, n - 1);
        let i = visit_cell(n - 1);
        let x = (n - 1) / (MAX_Y as int);
        let y = (n - 1) % (MAX_Y as int);
        assert(spec_in_bounds(x, y));
        assert(gidx(x, y) == i);
        assert forall|z: int| 0 <= z < g[i].len() && (#[trigger] g[i][z]) is Some
            implies iv_wf(g[i][z].unwrap()) && iv_event_ok(g[i][z].unwrap(), event) by {
            assert(gv_slot(g, x, y, z) == g[i][z]);
        }
        lemma_cell_acts_z_ok(g[i], event, g[i].len() as int);
        lemma_acts_z_ok_concat(gv_acts_upto(g, event, n - 1), cell_acts(g[i], event));
    }
}

/// Delivering reactions one by one, stopping at the first undeliverable
/// one: the board it leaves, and whether every reaction was delivered.
pub open spec fn deliver_try(g: GridV, rs: Seq<Action>) -> (GridV, bool)
    decreases rs.len(),
{
    if rs.len() == 0 {
        (g, true)
    } else if !reaction_ok_in(g, rs[0]) {
        (g, false)
    } else {
        deliver_try(apply_reaction(g, rs[0]), rs.skip(1))
    }
}

/// When every reaction is deliverable, the checked delivery delivers them
/// all and agrees with [`gv_on_reactions`].
pub proof fn lemma_deliver_try_ok(g: GridV, rs: Seq<Action>)
    requires
        deliverable(g, rs),
    ensures
        deliver_try(g, rs) == (gv_on_reactions(g, rs), true),
    decreases rs.len(),
{
    if rs.len() == 0 {
    } else {
        lemma_deliver_try_ok(apply_reaction(g, rs[0]), rs.skip(1));
    }
}

/// Every shift in the batch fits a signed byte: redraw requests carry
/// either no shift or one cast from a byte-sized animation offset.
pub open spec fn redraw_shifts_ok(rs: Seq<RedrawRequest>) -> bool {
    forall|i: int| 0 <= i < rs.len() ==> -128 <= (#[trigger] rs[i]).shift.x <= 127
        && -128 <= rs[i].shift.y <= 127
}

/// The resolver only ever adds byte-bounded shifts to the redraw batch.
pub proof fn lemma_resolve_shifts_ok(s0: ResolveState, acts: Seq<Action>, n: int)
    requires
        redraw_shifts_ok(s0.redraw),
    ensures
        redraw_shifts_ok(resolve_upto(s0, acts, n).redraw),
    decreases n,
{
    if n <= 0 {
    } else {
        lemma_resolve_shifts_ok(s0, acts, n - 1);
        let s = resolve_upto(s0, acts, n - 1);
        let a = acts[n - 1];
        assert forall|i: int| 0 <= i < apply_action(s, a).redraw.len()
            implies -128 <= (#[trigger] apply_action(s, a).redraw[i]).shift.x <= 127
                && -128 <= apply_action(s, a).redraw[i].shift.y <= 127 by {
            if i < s.redraw.len() {
                assert(apply_action(s, a).redraw[i] == s.redraw[i]);
            }
        }
    }
}

/// The shape of the board mid-dispatch: cells visited so far (every column
/// before `x`, and rows before `y` of column `x`) hold their occupants
/// after the event, the rest still hold their occupants from before.
pub open spec fn processed_upto(g0: GridV, g: GridV, event: Event, x: int, y: int) -> bool {
    &&& gv_dims(g)
    &&& forall|cx: int, cy: int, z: int|
        spec_in_bounds(cx, cy) && 0 <= z < LAYERS ==> #[trigger] gv_slot(g, cx, cy, z) == (
            if cx < x || (cx == x && cy < y) {
                opt_on_event_iv(gv_slot(g0, cx, cy, z), event)
            } else {
                gv_slot(g0, cx, cy, z)
            })
}

/// A board whose every occupant has been fed the event keeps the occupancy
/// invariant, and keeps positional coherence if it had it.
pub proof fn lemma_on_event_preserves(g0: GridV, g: GridV, event: Event)
    requires
        gv_wf(g0),
        gv_event_ok(g0, event),
        gv_dims(g),
        forall|x: int, y: int, z: int| spec_in_bounds(x, y) && 0 <= z < LAYERS
            ==> #[trigger] gv_slot(g, x, y, z) == opt_on_event_iv(gv_slot(g0, x, y, z), event),
    ensures
        gv_wf(g),
        gv_coherent(g0) ==> gv_coherent(g),
{
    assert forall|x: int, y: int, z: int|
        spec_in_bounds(x, y) && 0 <= z < LAYERS && (#[trigger] gv_slot(g, x, y, z)) is Some
            implies iv_wf(gv_slot(g, x, y, z).unwrap())
                && gv_slot(g, x, y, z).unwrap().z_order == z
                && gv_slot(g, x, y, z).unwrap().x == gv_slot(g0, x, y, z).unwrap().x
                && gv_slot(g, x, y, z).unwrap().y == gv_slot(g0, x, y, z).unwrap().y by {
        let o0 = gv_slot(g0, x, y, z);
        assert(o0 is Some);
        lemma_item_on_event_same_pos(o0.unwrap(), event);
    }
}

/// Delivering an event leaves an item's identity in place: its kind,
/// position and layer are unchanged, and well-formedness is preserved.
pub proof fn lemma_item_on_event_same_pos(iv: ItemV, event: Event)
    requires
        iv_wf(iv),
        iv_event_ok(iv, event),
    ensures
        item_on_event_v(iv, event).0.kind == iv.kind,
        item_on_event_v(iv, event).0.x == iv.x,
        item_on_event_v(iv, event).0.y == iv.y,
        item_on_event_v(iv, event).0.z_order == iv.z_order,
        iv_wf(item_on_event_v(iv, event).0),
{
}

/// The depth layer a layout sprite id occupies: low ids are backgrounds on
/// layer 0, high ids are foregrounds on layer 1.
pub open spec fn layout_z(img: usize) -> int {
    if img <= BACKGROUND_ID_MAX {
        0
    } else {
        1
    }
}

/// The static decoration a layout entry places at `(x, y)`.
pub open spec fn layout_sprite(x: int, y: int, img: usize) -> ItemV {
    ItemV {
        kind: Kinds::Sprite,
        x: x as usize,
        y: y as usize,
        z_order: layout_z(img) as usize,
        img_id: img,
        state: 0u8,
        start_animation: 0u128,
        time: 0u128,
        is_win: false,
        commands: Seq::empty(),
    }
}

/// One board position, owning its occupants by depth layer.
pub struct Cell {
    pub items: Vec<Option<Item>>,
}

impl View for Cell {
    type V = CellV;

    open spec fn view(&self) -> CellV {
        self.items@.map_values(|o: Option<Item>| match o {
            Some(it) => Some(it@),
            None => None,
        })
    }
}

impl Cell {
    /// An empty cell: every layer vacant.
    pub fn new() -> (c: Cell)
        ensures
            c@.len() == LAYERS,
            forall|z: int| 0 <= z < LAYERS ==> c@[z] is None,
    {
        let mut items: Vec<Option<Item>> = Vec::new();
        while items.len() < LAYERS
            invariant
                items@.len() <= LAYERS,
                forall|z: int| 0 <= z < items@.len() ==> items@[z] is None,
            decreases LAYERS - items.len(),
        {
            items.push(None);
        }
        Cell { items }
    }

    /// A cell holding one static decoration at layer `z_order`, showing
    /// sprite `img_id`; the other layer stays vacant.
    pub fn new_static_sprite(x: usize, y: usize, img_id: usize, z_order: usize) -> (c: Cell)
        requires
            z_order < LAYERS,
        ensures
            c@.len() == LAYERS,
            c@[z_order as int] == Some(ItemV {
                kind: Kinds::Sprite,
                x,
                y,
                z_order,
                img_id,
                state: 0u8,
                start_animation: 0u128,
                time: 0u128,
                is_win: false,
                commands: Seq::empty(),
            }),
            forall|z: int| 0 <= z < LAYERS && z != z_order ==> c@[z] is None,
    {
        let sprite = Item::new(Kinds::Sprite, x, y, z_order, img_id);
        let mut c = Cell::new();
        c.set_item(sprite);
        c
    }

    /// Whether layer `z_level` holds an occupant.
    pub fn has_item(&self, z_level: usize) -> (r: bool)
        requires
            z_level < self@.len(),
        ensures
            r == (self@[z_level as int] is Some),
    {
        self.items[z_level].is_some()
    }

    /// Removes and returns the occupant of layer `z_level`, leaving the
    /// slot vacant.
    pub fn take_item(&mut self, z_level: usize) -> (r: Option<Item>)
        requires
            z_level < old(self)@.len(),
        ensures
            final(self)@ == old(self)@.update(z_level as int, None),
            match r {
                Some(it) => old(self)@[z_level as int] == Some(it@),
                None => old(self)@[z_level as int] is None,
            },
    {
        let r = self.items[z_level].take();
        proof {
            assert(self@ =~= old(self)@.update(z_level as int, None));
        }
        r
    }

    /// Places `item` into the layer its own depth declares. The layer must
    /// be vacant: occupancy is the caller's to check first via
    /// [`Cell::has_item`].
    pub fn set_item(&mut self, item: Item)
        requires
            old(self)@.len() == LAYERS,
            item@.z_order < LAYERS,
            old(self)@[item@.z_order as int] is None,
        ensures
            final(self)@ == old(self)@.update(item@.z_order as int, Some(item@)),
    {
        let z_level = item.z_level();
        let ghost iv = item@;
        self.items.set(z_level, Some(item));
        proof {
            assert(self@ =~= old(self)@.update(z_level as int, Some(iv)));
        }
    }

    /// Forwards the event to every occupant in layer order and concatenates
    /// the actions they emit.
    pub fn on_event(&mut self, event: &Event) -> (r: Vec<Action>)
        requires
            old(self)@.len() == LAYERS,
            forall|z: int| 0 <= z < LAYERS && (#[trigger] old(self)@[z]) is Some
                ==> iv_wf(old(self)@[z].unwrap()) && iv_event_ok(old(self)@[z].unwrap(), *event),
        ensures
            final(self)@.len() == LAYERS,
            forall|z: int| 0 <= z < LAYERS
                ==> #[trigger] final(self)@[z] == opt_on_event_iv(old(self)@[z], *event),
            r@ == cell_acts(old(self)@, *event),
    {
        let ghost cv0 = self@;
        let mut r: Vec<Action> = Vec::new();
        let mut z: usize = 0;
        while z < self.items.len()
            invariant
                z <= LAYERS,
                self@.len() == LAYERS,
                self.items@.len() == LAYERS,
                forall|j: int| 0 <= j < LAYERS && (#[trigger] cv0[j]) is Some
                    ==> iv_wf(cv0[j].unwrap()) && iv_event_ok(cv0[j].unwrap(), *event),
                forall|j: int| 0 <= j < z ==> #[trigger] self@[j] == opt_on_event_iv(cv0[j],
                    *event),
                forall|j: int| z <= j < LAYERS ==> #[trigger] self@[j] == cv0[j],
                r@ == cell_acts_upto(cv0, *event, z as int),
            decreases LAYERS - z,
        {
            let ghost cvpre = self@;
            let taken = self.items[z].take();
            match taken {
                Some(mut it) => {
                    proof {
                        assert(cvpre[z as int] == cv0[z as int]);
                        assert(cvpre[z as int] == Some(it@));
                    }
                    let mut acts = it.on_event(event);
                    self.items.set(z, Some(it));
                    proof {
                        assert(self@ =~= cvpre.update(z as int, opt_on_event_iv(cv0[z as int],
                            *event)));
                        assert(r@ + acts@ =~= cell_acts_upto(cv0, *event, z as int + 1));
                    }
                    r.append(&mut acts);
                }
                None => {
                    proof {
                        assert(self@ =~= cvpre);
                        assert(r@ =~= cell_acts_upto(cv0, *event, z as int + 1));
                    }
                }
            }
            z = z + 1;
        }
        r
    }

    /// Whether this cell's occupant at the reaction's layer (if any)
    /// accepts the reaction.
    pub fn reaction_ok(&self, reaction: Action) -> (r: bool)
        requires
            reaction.target.z < self@.len(),
        ensures
            r == match self@[reaction.target.z as int] {
                Some(iv) => iv_reaction_ok(iv, reaction),
                None => true,
            },
    {
        match &self.items[reaction.target.z] {
            Some(it) => {
                if it.kind == Kinds::Wizard {
                    match reaction.action {
                        Actions::Move { dest: MoveDestination::Up, who: _ } => it.y >= 1,
                        Actions::Move { dest: MoveDestination::Down, who: _ } => it.y
                            < MAX_Y - 1,
                        Actions::Move { dest: MoveDestination::Left, who: _ } => it.x >= 1,
                        Actions::Move { dest: MoveDestination::Right, who: _ } => it.x
                            < MAX_X - 1,
                        _ => true,
                    }
                } else {
                    true
                }
            }
            None => true,
        }
    }

    /// Delivers a confirmed action to the occupant at the action's layer,
    /// if that layer is occupied.
    pub fn on_reactions(&mut self, reaction: Action)
        requires
            old(self)@.len() == LAYERS,
            reaction.target.z < LAYERS,
            match old(self)@[reaction.target.z as int] {
                Some(iv) => iv_wf(iv) && iv_reaction_ok(iv, reaction),
                None => true,
            },
        ensures
            final(self)@ == (match old(self)@[reaction.target.z as int] {
                Some(iv) => old(self)@.update(
                    reaction.target.z as int,
                    Some(item_on_reaction_v(iv, reaction)),
                ),
                None => old(self)@,
            }),
    {
        let ghost cv0 = self@;
        let z = reaction.target.z;
        let taken = self.items[z].take();
        match taken {
            Some(mut it) => {
                proof {
                    assert(cv0[z as int] == Some(it@));
                }
                it.on_reaction(&reaction);
                self.items.set(z, Some(it));
                proof {
                    assert(self@ =~= cv0.update(z as int, Some(it@)));
                }
            }
            None => {
                proof {
                    assert(self@ =~= cv0);
                }
            }
        }
    }

    /// The kind of the occupant of layer `z`, if any.
    pub fn item_kind(&self, z: usize) -> (k: Option<Kinds>)
        requires
            z < self@.len(),
        ensures
            match self@[z as int] {
                Some(iv) => k == Some(iv.kind),
                None => k is None,
            },
    {
        match &self.items[z] {
            Some(it) => Some(it.kind()),
            None => None,
        }
    }

    /// The claimed slot of the first occupant of kind `kind`, searching
    /// layers bottom-up.
    pub fn find_kind(&self, kind: Kinds) -> (r: Option<Target>)
        ensures
            r == cell_find_kind(self@, kind),
    {
        let mut z: usize = 0;
        while z < self.items.len()
            invariant
                z <= self@.len(),
                self@.len() == self.items@.len(),
                cell_find_kind(self@, kind) == cell_find_kind_from(self@, kind, z as int),
            decreases self.items@.len() - z,
        {
            match &self.items[z] {
                Some(it) => {
                    if it.kind() == kind {
                        return Some(it.target());
                    }
                }
                None => (),
            }
            z = z + 1;
        }
        None
    }

    /// How many occupants the cell holds.
    pub fn get_items_len(&self) -> (n: usize)
        ensures
            n == cell_occ_upto(self@, self@.len() as int),
    {
        let mut n: usize = 0;
        let mut z: usize = 0;
        while z < self.items.len()
            invariant
                n <= z <= self@.len(),
                self@.len() == self.items@.len(),
                n == cell_occ_upto(self@, z as int),
            decreases self.items@.len() - z,
        {
            if self.items[z].is_some() {
                n = n + 1;
            }
            z = z + 1;
        }
        n
    }

    /// The sprite id of the topmost visible occupant, or `None` for a
    /// fully empty cell.
    pub fn top_tile(&self) -> (r: Option<usize>)
        requires
            self@.len() == LAYERS,
        ensures
            r == cell_tile(self@),
    {
        let mut z: usize = LAYERS;
        while z > 0
            invariant
                z <= LAYERS,
                self@.len() == LAYERS,
                self.items@.len() == LAYERS,
                cell_tile(self@) == cell_tile_from(self@, z as int - 1),
            decreases z,
        {
            z = z - 1;
            match &self.items[z] {
                Some(it) => {
                    return Some(it.tile_id());
                }
                None => (),
            }
        }
        None
    }

    /// The sprite id of the topmost visible occupant. Every drawable cell
    /// holds at least a background occupant; asking an empty cell is a
    /// construction error, which this contract excludes.
    pub fn tile_id(&self) -> (r: usize)
        requires
            self@.len() == LAYERS,
            cell_tile(self@) is Some,
        ensures
            Some(r) == cell_tile(self@),
    {
        let t = self.top_tile();
        match t {
            Some(id) => id,
            None => {
                proof {
                    assert(false);
                }
                0
            }
        }
    }
}

/// The full board: one cell per position, in row-major order.
pub struct Grid {
    pub cells: Vec<Cell>,
}

impl View for Grid {
    type V = GridV;

    open spec fn view(&self) -> GridV {
        self.cells@.map_values(|c: Cell| c@)
    }
}

impl Grid {
    /// An empty board: every slot of every cell vacant.
    pub fn new() -> (g: Grid)
        ensures
            gv_dims(g@),
            forall|x: int, y: int, z: int|
                spec_in_bounds(x, y) && 0 <= z < LAYERS
                    ==> #[trigger] gv_slot(g@, x, y, z) is None,
            gv_wf(g@),
    {
        let mut cells: Vec<Cell> = Vec::new();
        while cells.len() < GRID_CELLS
            invariant
                cells@.len() <= GRID_CELLS,
                forall|i: int| 0 <= i < cells@.len() ==> (#[trigger] cells@[i]@).len() == LAYERS,
                forall|i: int, z: int|
                    0 <= i < cells@.len() && 0 <= z < LAYERS ==> #[trigger] cells@[i]@[z] is None,
            decreases GRID_CELLS - cells.len(),
        {
            cells.push(Cell::new());
        }
        let g = Grid { cells };
        proof {
            assert forall|x: int, y: int, z: int|
                spec_in_bounds(x, y) && 0 <= z < LAYERS
                    implies #[trigger] gv_slot(g@, x, y, z) is None by {
                assert(0 <= gidx(x, y) < GRID_CELLS);
            }
        }
        g
    }

    /// A mutable borrow of the cell at index `i`.
    fn cell_mut(&mut self, i: usize) -> (c: &mut Cell)
        requires
            i < old(self).cells@.len(),
        ensures
            *c == old(self).cells@[i as int],
            final(self).cells@ == old(self).cells@.update(i as int, *final(c)),
    {
        &mut self.cells[i]
    }

    /// A shared borrow of the cell at index `i`.
    fn cell_ref(&self, i: usize) -> (c: &Cell)
        requires
            i < self.cells@.len(),
        ensures
            *c == self.cells@[i as int],
            c@ == self@[i as int],
    {
        &self.cells[i]
    }

    /// A board populated from a level layout: every cell gets one static
    /// decoration, on the background layer for low sprite ids and on the
    /// foreground layer for high ones (walls and other solids, which then
    /// block movement on the actors' layer).
    pub fn from_layout(layout: [[usize; 15]; 10]) -> (g: Grid)
        ensures
            gv_wf(g@),
            gv_coherent(g@),
            forall|x: int, y: int| spec_in_bounds(x, y)
                ==> #[trigger] gv_slot(g@, x, y, layout_z(layout@[y]@[x]))
                    == Some(layout_sprite(x, y, layout@[y]@[x])),
            forall|x: int, y: int| spec_in_bounds(x, y)
                ==> #[trigger] gv_slot(g@, x, y, 1 - layout_z(layout@[y]@[x])) is None,
    {
        let mut cells: Vec<Cell> = Vec::new();
        let mut ci: usize = 0;
        while ci < GRID_CELLS
            invariant
                ci <= GRID_CELLS,
                cells@.len() == ci,
                forall|j: int, z: int| 0 <= j < ci && 0 <= z < LAYERS ==> {
                    let img = layout@[j / (MAX_X as int)]@[j % (MAX_X as int)];
                    #[trigger] cells@[j]@[z] == (if z == layout_z(img) {
                        Some(layout_sprite(j % (MAX_X as int), j / (MAX_X as int), img))
                    } else {
                        None
                    })
                },
                forall|j: int| 0 <= j < ci ==> (#[trigger] cells@[j]@).len() == LAYERS,
            decreases GRID_CELLS - ci,
        {
            let y = ci / MAX_X;
            let x = ci % MAX_X;
            let img = layout[y][x];
            let z: usize = if img <= BACKGROUND_ID_MAX {
                0
            } else {
                1
            };
            let c = Cell::new_static_sprite(x, y, img, z);
            cells.push(c);
            ci = ci + 1;
        }
        let g = Grid { cells };
        proof {
            assert forall|x: int, y: int, z: int|
                spec_in_bounds(x, y) && 0 <= z < LAYERS implies #[trigger] gv_slot(g@, x, y, z)
                    == (if z == layout_z(layout@[y]@[x]) {
                    Some(layout_sprite(x, y, layout@[y]@[x]))
                } else {
                    None
                }) by {
                let j = gidx(x, y);
                assert(0 <= j < GRID_CELLS);
                assert(j % (MAX_X as int) == x && j / (MAX_X as int) == y);
            }
            assert(gv_wf(g@));
            assert(gv_coherent(g@));
        }
        g
    }

    /// The sprite id of the topmost visible occupant of cell `(x, y)`, or
    /// `None` for a fully empty cell.
    pub fn top_tile(&self, x: usize, y: usize) -> (r: Option<usize>)
        requires
            gv_dims(self@),
            x < MAX_X,
            y < MAX_Y,
        ensures
            r == cell_tile(self@[gidx(x as int, y as int)]),
    {
        let i = y * MAX_X + x;
        proof {
            assert(gidx(x as int, y as int) == i);
        }
        self.cell_ref(i).top_tile()
    }

    /// The sprite id to draw for cell `(x, y)`; the cell must hold at
    /// least one occupant.
    pub fn tile_id(&self, x: usize, y: usize) -> (r: usize)
        requires
            gv_dims(self@),
            x < MAX_X,
            y < MAX_Y,
            cell_tile(self@[gidx(x as int, y as int)]) is Some,
        ensures
            Some(r) == cell_tile(self@[gidx(x as int, y as int)]),
    {
        let i = y * MAX_X + x;
        proof {
            assert(gidx(x as int, y as int) == i);
        }
        self.cell_ref(i).tile_id()
    }

    /// Places `item` into the vacant slot its own coordinates and layer
    /// claim.
    pub fn set_item(&mut self, x: usize, y: usize, item: Item)
        requires
            gv_wf(old(self)@),
            x < MAX_X,
            y < MAX_Y,
            iv_wf(item@),
            gv_slot(old(self)@, x as int, y as int, item@.z_order as int) is None,
        ensures
            final(self)@ == gv_store(
                old(self)@,
                gidx(x as int, y as int),
                item@.z_order as int,
                Some(item@),
            ),
            gv_wf(final(self)@),
    {
        let i = y * MAX_X + x;
        let ghost g0 = self@;
        proof {
            assert(gidx(x as int, y as int) == i);
        }
        let ghost iv = item@;
        let ghost z = item@.z_order as int;
        self.cell_mut(i).set_item(item);
        proof {
            assert(self@ =~= gv_store(g0, i as int, z, Some(iv)));
            lemma_store_wf(g0, i as int, z, Some(iv));
        }
    }

    /// How many occupants cell `(x, y)` holds; zero for an address off
    /// the board.
    pub fn get_cell_items_len(&self, x: usize, y: usize) -> (n: usize)
        requires
            gv_dims(self@),
        ensures
            n == if spec_in_bounds(x as int, y as int) {
                cell_occ_upto(self@[gidx(x as int, y as int)], LAYERS as int)
            } else {
                0
            },
    {
        if x < MAX_X && y < MAX_Y {
            let i = y * MAX_X + x;
            proof {
                assert(gidx(x as int, y as int) == i);
            }
            self.cell_ref(i).get_items_len()
        } else {
            0
        }
    }

    /// Removes and returns the occupant of slot `(x, y, z)`, leaving it
    /// vacant.
    pub fn take_item(&mut self, x: usize, y: usize, z: usize) -> (r: Option<Item>)
        requires
            gv_wf(old(self)@),
            x < MAX_X,
            y < MAX_Y,
            z < LAYERS,
        ensures
            final(self)@ == gv_store(old(self)@, gidx(x as int, y as int), z as int, None),
            gv_wf(final(self)@),
            match r {
                Some(it) => gv_slot(old(self)@, x as int, y as int, z as int) == Some(it@),
                None => gv_slot(old(self)@, x as int, y as int, z as int) is None,
            },
    {
        let i = y * MAX_X + x;
        let ghost g0 = self@;
        proof {
            assert(gidx(x as int, y as int) == i);
        }
        let r = self.cell_mut(i).take_item(z);
        proof {
            assert(self@ =~= gv_store(g0, i as int, z as int, None));
            lemma_store_wf(g0, i as int, z as int, None);
        }
        r
    }

    /// A fresh board built by transplanting every occupant of `other`,
    /// cell by cell and layer by layer — ownership moves, positions are
    /// preserved, and `other` is left empty.
    pub fn new_from(other: &mut Grid) -> (g: Grid)
        requires
            gv_wf(old(other)@),
        ensures
            gv_wf(g@),
            forall|x: int, y: int, z: int| spec_in_bounds(x, y) && 0 <= z < LAYERS
                ==> #[trigger] gv_slot(g@, x, y, z) == gv_slot(old(other)@, x, y, z),
            gv_dims(final(other)@),
            forall|x: int, y: int, z: int| spec_in_bounds(x, y) && 0 <= z < LAYERS
                ==> #[trigger] gv_slot(final(other)@, x, y, z) is None,
    {
        let ghost o0 = other@;
        let mut g = Grid::new();
        proof {
            assert forall|j: int, z: int| 0 <= j < GRID_CELLS && 0 <= z < LAYERS
                implies #[trigger] g@[j][z] is None by {
                let x = j % (MAX_X as int);
                let y = j / (MAX_X as int);
                assert(spec_in_bounds(x, y));
                assert(gidx(x, y) == j);
                assert(gv_slot(g@, x, y, z) is None);
            }
        }
        let mut i: usize = 0;
        while i < GRID_CELLS
            invariant
                i <= GRID_CELLS,
                gv_wf(o0),
                gv_dims(g@),
                gv_dims(other@),
                forall|j: int, z: int| 0 <= j < GRID_CELLS && 0 <= z < LAYERS ==> #[trigger]
                    g@[j][z] == (if j < i {
                        o0[j][z]
                    } else {
                        None
                    }),
                forall|j: int, z: int| 0 <= j < GRID_CELLS && 0 <= z < LAYERS ==> #[trigger]
                    other@[j][z] == (if j < i {
                        None
                    } else {
                        o0[j][z]
                    }),
            decreases GRID_CELLS - i,
        {
            let mut z: usize = 0;
            while z < LAYERS
                invariant
                    i < GRID_CELLS,
                    z <= LAYERS,
                    gv_wf(o0),
                    gv_dims(g@),
                    gv_dims(other@),
                    forall|j: int, zz: int| 0 <= j < GRID_CELLS && 0 <= zz < LAYERS
                        ==> #[trigger] g@[j][zz] == (if j < i || (j == i && zz < z) {
                            o0[j][zz]
                        } else {
                            None
                        }),
                    forall|j: int, zz: int| 0 <= j < GRID_CELLS && 0 <= zz < LAYERS
                        ==> #[trigger] other@[j][zz] == (if j < i || (j == i && zz < z) {
                            None
                        } else {
                            o0[j][zz]
                        }),
                decreases LAYERS - z,
            {
                let ghost opre = other@;
                let ghost gpre = g@;
                let taken = other.cell_mut(i).take_item(z);
                proof {
                    assert(other@ =~= gv_store(opre, i as int, z as int, None));
                }
                match taken {
                    Some(it) => {
                        proof {
                            assert(opre[i as int][z as int] == Some(it@));
                            assert(spec_in_bounds((i as int) % (MAX_X as int),
                                (i as int) / (MAX_X as int)));
                            assert(gidx((i as int) % (MAX_X as int),
                                (i as int) / (MAX_X as int)) == i as int);
                            assert(gv_slot(o0, (i as int) % (MAX_X as int),
                                (i as int) / (MAX_X as int), z as int) == Some(it@));
                            assert(iv_wf(it@) && it@.z_order == z);
                            assert(g@[i as int].len() == LAYERS);
                        }
                        g.cell_mut(i).set_item(it);
                        proof {
                            assert(g@ =~= gv_store(gpre, i as int, z as int,
                                Some(opre[i as int][z as int].unwrap())));
                        }
                    }
                    None => (),
                }
                z = z + 1;
            }
            i = i + 1;
        }
        proof {
            assert forall|x: int, y: int, z: int| spec_in_bounds(x, y) && 0 <= z < LAYERS
                implies #[trigger] gv_slot(g@, x, y, z) == gv_slot(o0, x, y, z)
                    && gv_slot(other@, x, y, z) is None by {
                assert(0 <= gidx(x, y) < GRID_CELLS);
            }
            assert(gv_wf(g@));
        }
        g
    }

    /// Forwards the event to every cell in the fixed iteration order
    /// (column-outer, row-inner) and concatenates the action requests.
    pub fn on_event(&mut self, event: &Event) -> (r: Vec<Action>)
        requires
            gv_wf(old(self)@),
            gv_event_ok(old(self)@, *event),
        ensures
            gv_wf(final(self)@),
            forall|x: int, y: int, z: int| spec_in_bounds(x, y) && 0 <= z < LAYERS
                ==> #[trigger] gv_slot(final(self)@, x, y, z)
                    == opt_on_event_iv(gv_slot(old(self)@, x, y, z), *event),
            r@ == gv_acts(old(self)@, *event),
            gv_coherent(old(self)@) ==> gv_coherent(final(self)@),
            final(self)@ == gv_after_event(old(self)@, *event),
    {
        let ghost g0 = self@;
        let mut r: Vec<Action> = Vec::new();
        let mut x: usize = 0;
        while x < MAX_X
            invariant
                x <= MAX_X,
                gv_wf(g0),
                gv_event_ok(g0, *event),
                processed_upto(g0, self@, *event, x as int, 0),
                r@ == gv_acts_upto(g0, *event, x as int * MAX_Y),
            decreases MAX_X - x,
        {
            let mut y: usize = 0;
            while y < MAX_Y
                invariant
                    x < MAX_X,
                    y <= MAX_Y,
                    gv_wf(g0),
                    gv_event_ok(g0, *event),
                    processed_upto(g0, self@, *event, x as int, y as int),
                    r@ == gv_acts_upto(g0, *event, x as int * MAX_Y + y),
                decreases MAX_Y - y,
            {
                let i = y * MAX_X + x;
                let ghost gpre = self@;
                proof {
                    assert(gidx(x as int, y as int) == i);
                    assert forall|z: int| 0 <= z < LAYERS
                        implies #[trigger] gpre[i as int][z] == gv_slot(g0, x as int, y as int,
                            z) by {
                        assert(gv_slot(gpre, x as int, y as int, z) == gv_slot(g0, x as int,
                            y as int, z));
                    }
                    assert(gpre[i as int] =~= g0[i as int]);
                }
                let mut acts = self.cell_mut(i).on_event(event);
                proof {
                    assert(self@ =~= gpre.update(i as int, self@[i as int]));
                    assert forall|cx: int, cy: int, z: int|
                        spec_in_bounds(cx, cy) && 0 <= z < LAYERS
                            implies #[trigger] gv_slot(self@, cx, cy, z) == (
                                if cx < x as int || (cx == x as int && cy < y as int + 1) {
                                    opt_on_event_iv(gv_slot(g0, cx, cy, z), *event)
                                } else {
                                    gv_slot(g0, cx, cy, z)
                                }) by {
                        if gidx(cx, cy) == i as int {
                            assert(cx == x as int && cy == y as int);
                        } else {
                            assert(gv_slot(self@, cx, cy, z) == gv_slot(gpre, cx, cy, z));
                        }
                    }
                    let n = x as int * MAX_Y + y as int;
                    assert(n % (MAX_Y as int) == y as int && n / (MAX_Y as int) == x as int);
                    assert(visit_cell(n) == i as int);
                    assert(cell_acts(g0[i as int], *event) == acts@);
                    assert(r@ + acts@ == gv_acts_upto(g0, *event, n + 1));
                }
                r.append(&mut acts);
                y = y + 1;
            }
            x = x + 1;
            proof {
                assert(processed_upto(g0, self@, *event, x as int, 0));
            }
        }
        proof {
            assert forall|x_: int, y_: int, z: int| spec_in_bounds(x_, y_) && 0 <= z < LAYERS
                implies #[trigger] gv_slot(self@, x_, y_, z)
                    == opt_on_event_iv(gv_slot(g0, x_, y_, z), *event) by {
            }
            assert(gv_wf(self@) && (gv_coherent(g0) ==> gv_coherent(self@))) by {
                lemma_on_event_preserves(g0, self@, *event);
            }
            assert forall|i: int| 0 <= i < GRID_CELLS
                implies #[trigger] self@[i] == gv_after_event(g0, *event)[i] by {
                let x_ = i % (MAX_X as int);
                let y_ = i / (MAX_X as int);
                assert(spec_in_bounds(x_, y_));
                assert(gidx(x_, y_) == i);
                assert forall|z: int| 0 <= z < LAYERS
                    implies #[trigger] self@[i][z] == gv_after_event(g0, *event)[i][z] by {
                    assert(gv_slot(self@, x_, y_, z) == opt_on_event_iv(gv_slot(g0, x_, y_, z),
                        *event));
                }
                assert(self@[i] =~= gv_after_event(g0, *event)[i]);
            }
            assert(self@ =~= gv_after_event(g0, *event));
        }
        r
    }

    /// The claimed slot of the first occupant of kind `kind`, searching
    /// cells in the fixed iteration order and layers bottom-up.
    pub fn find_kind(&self, kind: Kinds) -> (r: Option<Target>)
        requires
            gv_wf(self@),
        ensures
            r == gv_find_kind(self@, kind),
            match r {
                Some(t) => t.x < MAX_X && t.y < MAX_Y && t.z < LAYERS,
                None => true,
            },
    {
        let mut x: usize = 0;
        while x < MAX_X
            invariant
                x <= MAX_X,
                gv_wf(self@),
                gv_find_kind(self@, kind) == gv_find_kind_from(self@, kind, x as int * MAX_Y),
            decreases MAX_X - x,
        {
            let mut y: usize = 0;
            while y < MAX_Y
                invariant
                    x < MAX_X,
                    y <= MAX_Y,
                    gv_wf(self@),
                    gv_find_kind(self@, kind) == gv_find_kind_from(self@, kind,
                        x as int * MAX_Y + y),
                decreases MAX_Y - y,
            {
                let i = y * MAX_X + x;
                let ghost n = x as int * MAX_Y + y as int;
                proof {
                    assert(n % (MAX_Y as int) == y as int && n / (MAX_Y as int) == x as int);
                    assert(visit_cell(n) == i as int);
                    assert forall|j: int|
                        0 <= j < self@[i as int].len() && (#[trigger] self@[i as int][j]) is Some
                            implies iv_wf(self@[i as int][j].unwrap()) by {
                        assert(gv_slot(self@, x as int, y as int, j) is Some);
                    }
                    lemma_cell_find_kind_wf(self@[i as int], kind, 0);
                }
                let found = self.cell_ref(i).find_kind(kind);
                match found {
                    Some(t) => {
                        return Some(t);
                    }
                    None => (),
                }
                y = y + 1;
            }
            x = x + 1;
        }
        None
    }

    /// Resolves one pass's action batch in the order received and collects
    /// the confirming reactions, the redraw batch (a set: no target twice),
    /// the input-blocking request and the win flag. The whole outcome is
    /// the fold of [`apply_action`] over the batch.
    pub fn on_actions(&mut self, actions: Vec<Action>) -> (r: (
        Vec<Action>,
        Vec<RedrawRequest>,
        Option<bool>,
        bool,
    ))
        requires
            gv_wf(old(self)@),
            actions_z_ok(actions@),
        ensures
            ({
                let s = resolve_all(init_resolve(old(self)@), actions@);
                final(self)@ == s.grid && r.0@ == s.reactions && r.1@ == s.redraw
                    && r.2 == s.block && r.3 == s.win
            }),
            gv_wf(final(self)@),
            no_dup_redraw(r.1@),
    {
        let ghost s0 = init_resolve(self@);
        let mut reactions: Vec<Action> = Vec::new();
        let mut to_redraw: Vec<RedrawRequest> = Vec::new();
        let mut block: Option<bool> = None;
        let mut is_win: bool = false;
        let mut idx: usize = 0;
        while idx < actions.len()
            invariant
                idx <= actions@.len(),
                actions_z_ok(actions@),
                gv_wf(self@),
                no_dup_redraw(to_redraw@),
                ({
                    let s = resolve_upto(s0, actions@, idx as int);
                    self@ == s.grid && reactions@ == s.reactions && to_redraw@ == s.redraw
                        && block == s.block && is_win == s.win
                }),
            decreases actions@.len() - idx,
        {
            let a = actions[idx];
            let ghost spre = resolve_upto(s0, actions@, idx as int);
            match a.action {
                Actions::Move { dest, who } => {
                    match self.move_item(a.target, dest) {
                        Ok(new_target) => {
                            let ghost rpre = reactions@;
                            let mut z: usize = 0;
                            while z < LAYERS
                                invariant
                                    z <= LAYERS,
                                    reactions@.len() == rpre.len() + z,
                                    forall|j: int| 0 <= j < rpre.len()
                                        ==> #[trigger] reactions@[j] == rpre[j],
                                    forall|j: int| rpre.len() <= j < reactions@.len()
                                        ==> #[trigger] reactions@[j] == (Action {
                                            target: Target {
                                                x: new_target.x,
                                                y: new_target.y,
                                                z: (j - rpre.len()) as usize,
                                            },
                                            action: Actions::Move { dest, who },
                                        }),
                                decreases LAYERS - z,
                            {
                                reactions.push(Action::new(
                                    Target::new(new_target.x, new_target.y, z),
                                    Actions::Move { dest, who },
                                ));
                                z = z + 1;
                            }
                            proof {
                                assert(reactions@ =~= rpre + move_reactions(new_target, dest,
                                    who));
                            }
                            block = Some(true);
                        }
                        Err(_) => (),
                    }
                }
                Actions::Redraw => {
                    add_redraw(&mut to_redraw, RedrawRequest::new(a.target));
                }
                Actions::RedrawAnim(shift_x, shift_y, old_target) => {
                    add_redraw(&mut to_redraw, RedrawRequest::new(old_target));
                    add_redraw(&mut to_redraw, RedrawRequest::new_anim(
                        a.target,
                        Pos::new(shift_x as isize, shift_y as isize),
                    ));
                }
                Actions::InitSpell(dir) => {
                    let found = self.find_kind(Kinds::Wizard);
                    match found {
                        Some(wt) => {
                            match crate::actions::step_in_bounds(wt.x, wt.y, dir) {
                                Some((nx, ny)) => {
                                    let didx = ny * MAX_X + nx;
                                    let ghost gpre = self@;
                                    proof {
                                        assert(gidx(0, 0) == 0);
                                        assert(gidx(nx as int, ny as int) == didx);
                                    }
                                    let staged_kind = self.cell_ref(0).item_kind(0);
                                    let staged_is_spell = match staged_kind {
                                        Some(Kinds::Spell) => true,
                                        _ => false,
                                    };
                                    let dest_occupied = self.cell_ref(didx).has_item(wt.z);
                                    if staged_is_spell && !dest_occupied {
                                        let taken = self.cell_mut(0).take_item(0);
                                        proof {
                                            assert(self@ =~= gv_store(gpre, 0, 0, None));
                                            lemma_store_wf(gpre, 0, 0, None);
                                        }
                                        match taken {
                                            Some(mut sp) => {
                                                proof {
                                                    assert(gv_slot(gpre, 0, 0, 0)
                                                        == Some(sp@));
                                                }
                                                sp.set_x(nx);
                                                sp.set_y(ny);
                                                sp.set_z(wt.z);
                                                let ghost g1 = self@;
                                                self.cell_mut(didx).set_item(sp);
                                                proof {
                                                    assert(self@ =~= gv_store(g1, didx as int,
                                                        wt.z as int, Some(sp@)));
                                                    lemma_store_wf(g1, didx as int,
                                                        wt.z as int, Some(sp@));
                                                }
                                                add_redraw(&mut to_redraw, RedrawRequest::new(
                                                    Target::new(nx, ny, wt.z),
                                                ));
                                            }
                                            None => {
                                                proof {
                                                    assert(false);
                                                }
                                            }
                                        }
                                    }
                                }
                                None => (),
                            }
                        }
                        None => (),
                    }
                }
                Actions::Block(b) => {
                    block = Some(b);
                }
                Actions::Win => {
                    is_win = true;
                }
            }
            proof {
                let snext = resolve_upto(s0, actions@, idx as int + 1);
                assert(snext == apply_action(spre, actions@[idx as int]));
                assert(self@ == snext.grid && reactions@ == snext.reactions
                    && to_redraw@ == snext.redraw && block == snext.block
                    && is_win == snext.win);
            }
            idx = idx + 1;
        }
        (reactions, to_redraw, block, is_win)
    }

    /// Delivers the confirming reactions in order, each to whichever item
    /// now occupies its target slot, checking each before delivery: a
    /// reaction off the board or one its occupant cannot accept stops the
    /// pass and reports the defect, which under correct resolution never
    /// happens.
    pub fn try_on_reactions(&mut self, reactions: Vec<Action>) -> (r: Result<(), MoveError>)
        requires
            gv_wf(old(self)@),
        ensures
            (final(self)@, r is Ok) == deliver_try(old(self)@, reactions@),
            gv_wf(final(self)@),
    {
        let ghost g0 = self@;
        proof {
            assert(reactions@.skip(0) =~= reactions@);
        }
        let mut i: usize = 0;
        while i < reactions.len()
            invariant
                i <= reactions@.len(),
                g0 == old(self)@,
                gv_wf(self@),
                deliver_try(self@, reactions@.skip(i as int)) == deliver_try(g0, reactions@),
            decreases reactions@.len() - i,
        {
            let r = reactions[i];
            let ghost rest = reactions@.skip(i as int);
            proof {
                assert(rest[0] == reactions@[i as int]);
            }
            if !(r.target.x < MAX_X && r.target.y < MAX_Y && r.target.z < LAYERS) {
                proof {
                    assert(!reaction_ok_in(self@, r));
                    assert(rest.len() > 0 && rest[0] == r);
                    assert(deliver_try(self@, rest) == (self@, false));
                }
                return Err(MoveError::Invalid);
            }
            let ci = r.target.y * MAX_X + r.target.x;
            let ghost gpre = self@;
            proof {
                assert(gidx(r.target.x as int, r.target.y as int) == ci);
                assert(gpre[ci as int][r.target.z as int] == gv_slot(gpre, r.target.x as int,
                    r.target.y as int, r.target.z as int));
            }
            if !self.cell_ref(ci).reaction_ok(r) {
                proof {
                    assert(!reaction_ok_in(self@, r));
                    assert(rest.len() > 0 && rest[0] == r);
                    assert(deliver_try(self@, rest) == (self@, false));
                }
                return Err(MoveError::Invalid);
            }
            proof {
                assert(reaction_ok_in(self@, r));
            }
            self.cell_mut(ci).on_reactions(r);
            proof {
                let z = r.target.z as int;
                match gv_slot(gpre, r.target.x as int, r.target.y as int, z) {
                    Some(iv) => {
                        assert(self@ =~= gv_store(gpre, ci as int, z,
                            Some(item_on_reaction_v(iv, r))));
                        lemma_item_on_reaction_keeps(iv, r);
                        lemma_store_wf(gpre, ci as int, z, Some(item_on_reaction_v(iv, r)));
                    }
                    None => {
                        assert(self@ =~~= gpre);
                    }
                }
                assert(self@ == apply_reaction(gpre, r));
                assert(rest.skip(1) =~= reactions@.skip(i as int + 1));
            }
            i = i + 1;
        }
        proof {
            assert(reactions@.skip(i as int) =~= Seq::<Action>::empty());
        }
        Ok(())
    }

    /// Delivers each confirming reaction, in order, to whichever item now
    /// occupies its target slot.
    pub fn on_reactions(&mut self, reactions: Vec<Action>)
        requires
            gv_wf(old(self)@),
            deliverable(old(self)@, reactions@),
        ensures
            final(self)@ == gv_on_reactions(old(self)@, reactions@),
            gv_wf(final(self)@),
    {
        let ghost g0 = self@;
        let ghost rs = reactions@;
        let r = self.try_on_reactions(reactions);
        proof {
            lemma_deliver_try_ok(g0, rs);
        }
    }

    /// Moves the occupant of `src` one cell in direction `dest`, taking it
    /// out first and rolling it back into `src` when the destination is off
    /// the board or occupied — so no occupant is ever lost, and a rejected
    /// move leaves the board exactly as it was.
    pub fn move_item(&mut self, src: Target, dest: MoveDestination) -> (r: Result<
        Target,
        MoveError,
    >)
        requires
            gv_wf(old(self)@),
            src.z < LAYERS,
        ensures
            gv_wf(final(self)@),
            match r {
                Ok(t) => gv_move(old(self)@, src, dest) == Some((final(self)@, t)),
                Err(e) => gv_move(old(self)@, src, dest) is None && final(self)@ == old(self)@
                    && e == MoveError::Invalid,
            },
    {
        if !(src.x < MAX_X && src.y < MAX_Y) {
            return Err(MoveError::Invalid);
        }
        let src_i = src.y * MAX_X + src.x;
        let ghost g0 = self@;
        let taken = self.cell_mut(src_i).take_item(src.z);
        proof {
            assert(self@ =~= gv_store(g0, src_i as int, src.z as int, None));
            lemma_store_wf(g0, src_i as int, src.z as int, None);
        }
        match taken {
            None => {
                proof {
                    assert(self@ =~~= g0);
                }
                Err(MoveError::Invalid)
            }
            Some(item) => {
                proof {
                    assert(gv_slot(g0, src.x as int, src.y as int, src.z as int)
                        == Some(item@));
                }
                let step = crate::actions::step_in_bounds(src.x, src.y, dest);
                match step {
                    Some((nx, ny)) => {
                        let dst_i = ny * MAX_X + nx;
                        let z = item.z_level();
                        assert(z < LAYERS);
                        if !self.cell_ref(dst_i).has_item(z) {
                            let ghost g1 = self@;
                            self.cell_mut(dst_i).set_item(item);
                            proof {
                                assert(self@ =~= gv_store(g1, dst_i as int, z as int,
                                    Some(item@)));
                                assert(src_i != dst_i);
                                assert(gv_slot(g0, nx as int, ny as int, z as int) is None);
                                assert(gv_wf(self@)) by {
                                    lemma_store_wf(g1, dst_i as int, z as int, Some(item@));
                                }
                            }
                            Ok(Target::new(nx, ny, src.z))
                        } else {
                            let ghost g1 = self@;
                            self.cell_mut(src_i).set_item(item);
                            proof {
                                assert(self@ =~= gv_store(g1, src_i as int, src.z as int,
                                    Some(item@)));
                                assert(self@ =~~= g0);
                            }
                            Err(MoveError::Invalid)
                        }
                    }
                    None => {
                        let ghost g1 = self@;
                        self.cell_mut(src_i).set_item(item);
                        proof {
                            assert(self@ =~= gv_store(g1, src_i as int, src.z as int,
                                Some(item@)));
                            assert(self@ =~~= g0);
                        }
                        Err(MoveError::Invalid)
                    }
                }
            }
        }
    }
}

/// A first-kind search in a cell of well-formed occupants yields a slot on
/// the board.
pub proof fn lemma_cell_find_kind_wf(cv: CellV, kind: Kinds, z: int)
    requires
        forall|j: int| 0 <= j < cv.len() && (#[trigger] cv[j]) is Some ==> iv_wf(cv[j].unwrap()),
    ensures
        match cell_find_kind_from(cv, kind, z) {
            Some(t) => t.x < MAX_X && t.y < MAX_Y && t.z < LAYERS,
            None => true,
        },
    decreases cv.len() - z,
{
    if 0 <= z < cv.len() {
        lemma_cell_find_kind_wf(cv, kind, z + 1);
    }
}

/// A first-kind search over a well-formed board yields a slot on the
/// board.
pub proof fn lemma_gv_find_kind_wf(g: GridV, kind: Kinds, n: int)
    requires
        gv_wf(g),
    ensures
        match gv_find_kind_from(g, kind, n) {
            Some(t) => t.x < MAX_X && t.y < MAX_Y && t.z < LAYERS,
            None => true,
        },
    decreases GRID_CELLS - n,
{
    if 0 <= n < GRID_CELLS {
        let i = visit_cell(n);
        let x = n / (MAX_Y as int);
        let y = n % (MAX_Y as int);
        assert(spec_in_bounds(x, y));
        assert(gidx(x, y) == i);
        assert forall|j: int| 0 <= j < g[i].len() && (#[trigger] g[i][j]) is Some
            implies iv_wf(g[i][j].unwrap()) by {
            assert(gv_slot(g, x, y, j) == g[i][j]);
        }
        lemma_cell_find_kind_wf(g[i], kind, 0);
        lemma_gv_find_kind_wf(g, kind, n + 1);
    }
}

/// Appends `req` to the batch unless its target is already requested.
fn add_redraw(rs: &mut Vec<RedrawRequest>, req: RedrawRequest)
    ensures
        final(rs)@ == add_redraw_v(old(rs)@, req),
        no_dup_redraw(old(rs)@) ==> no_dup_redraw(final(rs)@),
{
    let mut i: usize = 0;
    let n = rs.len();
    while i < n
        invariant
            i <= n,
            n == rs@.len(),
            forall|j: int| 0 <= j < i ==> (#[trigger] rs@[j]).target != req.target,
        decreases n - i,
    {
        if rs[i].target == req.target {
            proof {
                assert(redraw_has_target(rs@, req.target));
            }
            return ;
        }
        i = i + 1;
    }
    proof {
        assert(!redraw_has_target(rs@, req.target));
    }
    rs.push(req);
    proof {
        assert forall|i_: int, j: int|
            0 <= i_ < rs@.len() && 0 <= j < rs@.len() && i_ != j && no_dup_redraw(old(rs)@)
                implies (#[trigger] rs@[i_]).target != (#[trigger] rs@[j]).target by {
        }
    }
}

/// Storing a well-formed occupant (or vacancy) into the slot of its own
/// layer preserves the occupancy invariant.
pub proof fn lemma_store_wf(g: GridV, i: int, z: int, o: Option<ItemV>)
    requires
        gv_wf(g),
        0 <= i < GRID_CELLS,
        0 <= z < LAYERS,
        o is Some ==> iv_wf(o.unwrap()) && o.unwrap().z_order == z,
    ensures
        gv_wf(gv_store(g, i, z, o)),
{
    let g2 = gv_store(g, i, z, o);
    assert forall|x: int, y: int, zz: int|
        spec_in_bounds(x, y) && 0 <= zz < LAYERS && (#[trigger] gv_slot(g2, x, y, zz)) is Some
            implies iv_wf(gv_slot(g2, x, y, zz).unwrap())
                && gv_slot(g2, x, y, zz).unwrap().z_order == zz by {
        if gidx(x, y) == i && zz == z {
        } else {
            assert(gv_slot(g2, x, y, zz) == gv_slot(g, x, y, zz));
        }
    }
}

} // verus!
