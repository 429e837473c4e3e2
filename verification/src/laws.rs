//! The engine's global laws, stated and proved over the same models its
//! function contracts use: the occupancy invariant across a whole
//! resolution pass, the idempotence of rejected moves, the completion of
//! move animations, win detection, redraw deduplication, the gating of
//! spell casts — and, crowning them, that on a coherent board with a
//! single player actor a resolution pass always delivers every
//! confirming reaction and restores coherence, so the engine's defect
//! reports are unreachable in normal play.
use vstd::prelude::*;
use crate::actions::{spec_in_bounds, Action, Actions, MoveDestination, Target, Who};
use crate::events::Event;
use crate::grid::{
    add_redraw_v, apply_action, apply_init_spell, apply_reaction, cell_acts_upto, deliver_try,
    deliverable, gidx, gv_acts, gv_after_event, gv_coherent, gv_dims, gv_event_ok,
    gv_find_kind, gv_move, gv_slot, gv_store, gv_wf, init_resolve,
    lemma_item_on_reaction_keeps, lemma_store_wf, move_reactions, no_dup_redraw,
    gv_acts_upto, opt_on_event_acts, opt_on_event_iv, reaction_ok_in, redraw_has_target,
    resolve_all, resolve_upto, GridV, ResolveState, GRID_CELLS,
};
use crate::items::wizard::{
    IDLE1, MOVE_ANIM_TIME, MOVE_LEFT1, MOVE_LEFT2, MOVE_RIGHT1, MOVE_RIGHT2, MOVE_UP1,
    MOVE_UP2,
};
use crate::items::{
    item_on_event_v, item_on_reaction_v, iv_event_ok, iv_target, iv_wf, ItemV, Kinds,
};
use crate::level::level_step;
use crate::{LAYERS, MAX_Y};

verus! {

/// Delivering an event to every occupant preserves the occupancy
/// invariant, and positional coherence with it.
proof fn lemma_after_event_wf(g: GridV, event: Event)
    requires
        gv_wf(g),
        gv_event_ok(g, event),
    ensures
        gv_wf(gv_after_event(g, event)),
        gv_coherent(g) ==> gv_coherent(gv_after_event(g, event)),
{
    let g2 = gv_after_event(g, event);
    assert forall|x: int, y: int, z: int| crate::actions::spec_in_bounds(x, y) && 0 <= z
        < LAYERS implies #[trigger] gv_slot(g2, x, y, z) == opt_on_event_iv(gv_slot(g, x, y,
        z), event) by {
        assert(0 <= gidx(x, y) < GRID_CELLS);
    }
    crate::grid::lemma_on_event_preserves(g, g2, event);
}

/// Resolving one action preserves the occupancy invariant.
proof fn lemma_apply_action_wf(s: ResolveState, a: Action)
    requires
        gv_wf(s.grid),
        a.action matches Actions::Move { dest, who } ==> a.target.z < LAYERS,
    ensures
        gv_wf(apply_action(s, a).grid),
{
    match a.action {
        Actions::Move { dest, who } => {
            match gv_move(s.grid, a.target, dest) {
                Some((g2, t)) => {
                    let iv = gv_slot(s.grid, a.target.x as int, a.target.y as int,
                        a.target.z as int).unwrap();
                    let g1 = gv_store(s.grid, gidx(a.target.x as int, a.target.y as int),
                        a.target.z as int, None);
                    lemma_store_wf(s.grid, gidx(a.target.x as int, a.target.y as int),
                        a.target.z as int, None);
                    let nx = crate::actions::spec_step(a.target.x as int, a.target.y as int,
                        dest).0;
                    let ny = crate::actions::spec_step(a.target.x as int, a.target.y as int,
                        dest).1;
                    lemma_store_wf(g1, gidx(nx, ny), iv.z_order as int, Some(iv));
                }
                None => {}
            }
        }
        Actions::InitSpell(dir) => {
            crate::grid::lemma_gv_find_kind_wf(s.grid, Kinds::Wizard, 0);
            match gv_find_kind(s.grid, Kinds::Wizard) {
                Some(wt) => {
                    let nx = crate::actions::spec_step(wt.x as int, wt.y as int, dir).0;
                    let ny = crate::actions::spec_step(wt.x as int, wt.y as int, dir).1;
                    match gv_slot(s.grid, 0, 0, 0) {
                        Some(sp) => {
                            if sp.kind == Kinds::Spell && crate::actions::spec_in_bounds(nx,
                                ny) && gv_slot(s.grid, nx, ny, wt.z as int) is None {
                                let sp2 = ItemV {
                                    x: nx as usize,
                                    y: ny as usize,
                                    z_order: wt.z,
                                    ..sp
                                };
                                let g1 = gv_store(s.grid, gidx(0, 0), 0, None);
                                lemma_store_wf(s.grid, gidx(0, 0), 0, None);
                                assert(iv_wf(sp));
                                assert(iv_wf(sp2));
                                lemma_store_wf(g1, gidx(nx, ny), wt.z as int, Some(sp2));
                            }
                        }
                        None => {}
                    }
                }
                None => {}
            }
        }
        _ => {}
    }
}

/// Resolving a whole batch preserves the occupancy invariant.
proof fn lemma_resolve_wf(s0: ResolveState, acts: Seq<Action>, n: int)
    requires
        gv_wf(s0.grid),
        crate::grid::actions_z_ok(acts),
        n <= acts.len(),
    ensures
        gv_wf(resolve_upto(s0, acts, n).grid),
    decreases n,
{
    if n <= 0 {
    } else {
        lemma_resolve_wf(s0, acts, n - 1);
        lemma_apply_action_wf(resolve_upto(s0, acts, n - 1), acts[n - 1]);
    }
}

/// Checked reaction delivery preserves the occupancy invariant.
proof fn lemma_deliver_wf(g: GridV, rs: Seq<Action>)
    requires
        gv_wf(g),
    ensures
        gv_wf(deliver_try(g, rs).0),
    decreases rs.len(),
{
    if rs.len() == 0 {
    } else if !reaction_ok_in(g, rs[0]) {
    } else {
        let r = rs[0];
        let g2 = apply_reaction(g, r);
        match gv_slot(g, r.target.x as int, r.target.y as int, r.target.z as int) {
            Some(iv) => {
                lemma_item_on_reaction_keeps(iv, r);
                lemma_store_wf(g, gidx(r.target.x as int, r.target.y as int),
                    r.target.z as int, Some(item_on_reaction_v(iv, r)));
            }
            None => {}
        }
        lemma_deliver_wf(g2, rs.skip(1));
    }
}

/// The occupancy invariant: from any well-formed board, a whole
/// resolution pass — event dispatch, action resolution, and reaction
/// delivery — leaves every occupant on the board, each in exactly the
/// one slot of its own declared layer. With the one-occupant-per-slot
/// representation, this is the inductive heart of "at most one item per
/// (x, y, z) in every reachable state": constructors establish it, and
/// every pass preserves it.
pub proof fn lemma_occupancy_pipeline(g0: GridV, block0: bool, event: Event)
    requires
        gv_wf(g0),
        gv_event_ok(g0, event),
    ensures
        gv_wf(level_step(g0, block0, event).grid),
{
    lemma_after_event_wf(g0, event);
    crate::grid::lemma_gv_acts_z_ok(g0, event, GRID_CELLS as int);
    let acts = gv_acts(g0, event);
    let s = resolve_all(init_resolve(gv_after_event(g0, event)), acts);
    lemma_resolve_wf(init_resolve(gv_after_event(g0, event)), acts, acts.len() as int);
    lemma_deliver_wf(s.grid, s.reactions);
}

/// No action of the batch is a move request.
pub open spec fn no_moves(acts: Seq<Action>) -> bool {
    forall|i: int| 0 <= i < acts.len() ==> !((#[trigger] acts[i]).action is Move)
}

/// The batch holds at most one move request.
pub open spec fn le_one_move(acts: Seq<Action>) -> bool {
    forall|i: int, j: int|
        0 <= i < acts.len() && 0 <= j < acts.len() && (#[trigger] acts[i]).action is Move
            && (#[trigger] acts[j]).action is Move ==> i == j
}

/// Every move request of the batch was issued by the player actor from
/// the slot it occupies: the request's target addresses the board and
/// holds a positionally coherent actor.
pub open spec fn moves_from_actor(acts: Seq<Action>, g: GridV) -> bool {
    forall|i: int| 0 <= i < acts.len() && (#[trigger] acts[i]).action is Move ==> {
        let t = acts[i].target;
        &&& spec_in_bounds(t.x as int, t.y as int)
        &&& t.z < LAYERS
        &&& gv_slot(g, t.x as int, t.y as int, t.z as int) is Some
        &&& gv_slot(g, t.x as int, t.y as int, t.z as int).unwrap().kind == Kinds::Wizard
        &&& gv_slot(g, t.x as int, t.y as int, t.z as int).unwrap().x == t.x
        &&& gv_slot(g, t.x as int, t.y as int, t.z as int).unwrap().y == t.y
        &&& gv_slot(g, t.x as int, t.y as int, t.z as int).unwrap().z_order == t.z
    }
}

/// The board holds at most one player actor.
pub open spec fn gv_one_wizard(g: GridV) -> bool {
    forall|x1: int, y1: int, z1: int, x2: int, y2: int, z2: int|
        spec_in_bounds(x1, y1) && 0 <= z1 < LAYERS && spec_in_bounds(x2, y2) && 0 <= z2
            < LAYERS && (#[trigger] gv_slot(g, x1, y1, z1)) is Some
            && gv_slot(g, x1, y1, z1).unwrap().kind == Kinds::Wizard
            && (#[trigger] gv_slot(g, x2, y2, z2)) is Some
            && gv_slot(g, x2, y2, z2).unwrap().kind == Kinds::Wizard
            ==> x1 == x2 && y1 == y2 && z1 == z2
}

/// One item's response holds at most one move request; only the actor
/// issues one, and only from its own slot.
proof fn lemma_item_move_shape(iv: ItemV, event: Event)
    requires
        iv_wf(iv),
        iv_event_ok(iv, event),
    ensures
        le_one_move(item_on_event_v(iv, event).1),
        iv.kind != Kinds::Wizard ==> no_moves(item_on_event_v(iv, event).1),
        forall|i: int|
            0 <= i < item_on_event_v(iv, event).1.len()
                && (#[trigger] item_on_event_v(iv, event).1[i]).action is Move
                ==> item_on_event_v(iv, event).1[i].target == iv_target(iv),
{
}

/// Concatenation facts for the batch-shape predicates.
proof fn lemma_move_shape_concat(a: Seq<Action>, b: Seq<Action>)
    requires
        le_one_move(a),
        le_one_move(b),
        no_moves(a) || no_moves(b),
    ensures
        le_one_move(a + b),
        no_moves(a) && no_moves(b) ==> no_moves(a + b),
{
    assert forall|i: int, j: int|
        0 <= i < (a + b).len() && 0 <= j < (a + b).len() && (#[trigger] (a + b)[i]).action
            is Move && (#[trigger] (a + b)[j]).action is Move implies i == j by {
        if i < a.len() {
            assert((a + b)[i] == a[i]);
        } else {
            assert((a + b)[i] == b[i - a.len()]);
        }
        if j < a.len() {
            assert((a + b)[j] == a[j]);
        } else {
            assert((a + b)[j] == b[j - a.len()]);
        }
    }
    if no_moves(a) && no_moves(b) {
        assert forall|i: int| 0 <= i < (a + b).len()
            implies !((#[trigger] (a + b)[i]).action is Move) by {
            if i < a.len() {
                assert((a + b)[i] == a[i]);
            } else {
                assert((a + b)[i] == b[i - a.len()]);
            }
        }
    }
}

/// Whether some layer of the cell at index `i` holds the player actor.
pub open spec fn cell_has_wizard(g: GridV, i: int) -> bool {
    exists|z: int| 0 <= z < LAYERS && (#[trigger] g[i][z]) is Some
        && g[i][z].unwrap().kind == Kinds::Wizard
}

/// One cell's responses: at most one move request, none at all without
/// an actor inside, and each from the actor's own recorded slot.
proof fn lemma_cell_acts_shape(g: GridV, x: int, y: int, event: Event, k: int)
    requires
        gv_wf(g),
        gv_coherent(g),
        gv_one_wizard(g),
        gv_event_ok(g, event),
        spec_in_bounds(x, y),
        0 <= k <= LAYERS,
    ensures
        le_one_move(cell_acts_upto(g[gidx(x, y)], event, k)),
        !cell_has_wizard(g, gidx(x, y)) ==> no_moves(cell_acts_upto(g[gidx(x, y)], event, k)),
        moves_from_actor(cell_acts_upto(g[gidx(x, y)], event, k), g),
    decreases k,
{
    let i = gidx(x, y);
    assert(g[i].len() == LAYERS);
    if k <= 0 {
    } else {
        lemma_cell_acts_shape(g, x, y, event, k - 1);
        let prefix = cell_acts_upto(g[i], event, k - 1);
        let layer_acts = opt_on_event_acts(g[i][k - 1], event);
        match g[i][k - 1] {
            Some(iv) => {
                assert(gv_slot(g, x, y, k - 1) == Some(iv));
                lemma_item_move_shape(iv, event);
                if iv.kind == Kinds::Wizard {
                    // The one actor: no other layer of this cell can have
                    // issued a move before this one.
                    assert(no_moves(prefix)) by {
                        if !no_moves(prefix) {
                            lemma_moves_need_wizard(g, x, y, event, k - 1);
                            let z = choose|z: int| 0 <= z < k - 1
                                && (#[trigger] g[i][z]) is Some
                                && g[i][z].unwrap().kind == Kinds::Wizard;
                            assert(gv_slot(g, x, y, z) is Some
                                && gv_slot(g, x, y, z).unwrap().kind == Kinds::Wizard);
                            assert(gv_slot(g, x, y, k - 1) is Some
                                && gv_slot(g, x, y, k - 1).unwrap().kind == Kinds::Wizard);
                            assert(z == k - 1);
                        }
                    }
                    lemma_move_shape_concat(prefix, layer_acts);
                    assert forall|n: int|
                        0 <= n < cell_acts_upto(g[i], event, k).len() && (#[trigger]
                            cell_acts_upto(g[i], event, k)[n]).action is Move
                            implies ({
                            let t = cell_acts_upto(g[i], event, k)[n].target;
                            &&& spec_in_bounds(t.x as int, t.y as int)
                            &&& t.z < LAYERS
                            &&& gv_slot(g, t.x as int, t.y as int, t.z as int) is Some
                            &&& gv_slot(g, t.x as int, t.y as int,
                                t.z as int).unwrap().kind == Kinds::Wizard
                            &&& gv_slot(g, t.x as int, t.y as int, t.z as int).unwrap().x
                                == t.x
                            &&& gv_slot(g, t.x as int, t.y as int, t.z as int).unwrap().y
                                == t.y
                            &&& gv_slot(g, t.x as int, t.y as int,
                                t.z as int).unwrap().z_order == t.z
                        }) by {
                        let whole = cell_acts_upto(g[i], event, k);
                        if n < prefix.len() {
                            assert(whole[n] == prefix[n]);
                        } else {
                            assert(whole[n] == layer_acts[n - prefix.len()]);
                            assert(whole[n].target == iv_target(iv));
                            assert(iv.x == x && iv.y == y && iv.z_order == k - 1);
                        }
                    }
                } else {
                    assert(no_moves(layer_acts));
                    lemma_move_shape_concat(prefix, layer_acts);
                    assert forall|n: int|
                        0 <= n < cell_acts_upto(g[i], event, k).len() && (#[trigger]
                            cell_acts_upto(g[i], event, k)[n]).action is Move
                            implies cell_acts_upto(g[i], event, k)[n] == prefix[n] by {
                        if n >= prefix.len() {
                            assert(cell_acts_upto(g[i], event, k)[n]
                                == layer_acts[n - prefix.len()]);
                        }
                    }
                }
            }
            None => {
                assert(layer_acts == Seq::<Action>::empty());
                assert(cell_acts_upto(g[i], event, k) =~= prefix);
            }
        }
    }
}

/// A move in a cell's responses below layer `k` means some layer below
/// `k` holds the actor.
proof fn lemma_moves_need_wizard(g: GridV, x: int, y: int, event: Event, k: int)
    requires
        gv_wf(g),
        gv_event_ok(g, event),
        spec_in_bounds(x, y),
        0 <= k <= LAYERS,
        !no_moves(cell_acts_upto(g[gidx(x, y)], event, k)),
    ensures
        exists|z: int| 0 <= z < k && (#[trigger] g[gidx(x, y)][z]) is Some
            && g[gidx(x, y)][z].unwrap().kind == Kinds::Wizard,
    decreases k,
{
    let i = gidx(x, y);
    assert(g[i].len() == LAYERS);
    if k <= 0 {
        assert(cell_acts_upto(g[i], event, 0) == Seq::<Action>::empty());
        assert(false);
    } else {
        let prefix = cell_acts_upto(g[i], event, k - 1);
        let layer_acts = opt_on_event_acts(g[i][k - 1], event);
        if no_moves(prefix) {
            match g[i][k - 1] {
                Some(iv) => {
                    assert(gv_slot(g, x, y, k - 1) == Some(iv));
                    lemma_item_move_shape(iv, event);
                    if iv.kind != Kinds::Wizard {
                        assert forall|n: int|
                            0 <= n < cell_acts_upto(g[i], event, k).len()
                                implies !((#[trigger] cell_acts_upto(g[i], event,
                                k)[n]).action is Move) by {
                            if n < prefix.len() {
                                assert(cell_acts_upto(g[i], event, k)[n] == prefix[n]);
                            } else {
                                assert(cell_acts_upto(g[i], event, k)[n]
                                    == layer_acts[n - prefix.len()]);
                            }
                        }
                        assert(false);
                    }
                }
                None => {
                    assert(cell_acts_upto(g[i], event, k) =~= prefix);
                    assert(false);
                }
            }
        } else {
            lemma_moves_need_wizard(g, x, y, event, k - 1);
        }
    }
}

/// Whether the actor's cell lies among the first `n` visited cells.
pub open spec fn wizard_visited(g: GridV, n: int) -> bool {
    exists|m: int| 0 <= m < n && cell_has_wizard(g, crate::grid::visit_cell(m))
}

/// Concatenation preserves issued-by-the-actor.
proof fn lemma_mfa_concat(a: Seq<Action>, b: Seq<Action>, g: GridV)
    requires
        moves_from_actor(a, g),
        moves_from_actor(b, g),
    ensures
        moves_from_actor(a + b, g),
{
    assert forall|i: int|
        0 <= i < (a + b).len() && (#[trigger] (a + b)[i]).action is Move implies ({
        let t = (a + b)[i].target;
        &&& spec_in_bounds(t.x as int, t.y as int)
        &&& t.z < LAYERS
        &&& gv_slot(g, t.x as int, t.y as int, t.z as int) is Some
        &&& gv_slot(g, t.x as int, t.y as int, t.z as int).unwrap().kind == Kinds::Wizard
        &&& gv_slot(g, t.x as int, t.y as int, t.z as int).unwrap().x == t.x
        &&& gv_slot(g, t.x as int, t.y as int, t.z as int).unwrap().y == t.y
        &&& gv_slot(g, t.x as int, t.y as int, t.z as int).unwrap().z_order == t.z
    }) by {
        if i < a.len() {
            assert((a + b)[i] == a[i]);
        } else {
            assert((a + b)[i] == b[i - a.len()]);
        }
    }
}

/// The whole event batch of a coherent one-actor board: at most one move
/// request, and every one issued by the actor from its own slot.
proof fn lemma_gv_acts_shape(g: GridV, event: Event, n: int)
    requires
        gv_wf(g),
        gv_coherent(g),
        gv_one_wizard(g),
        gv_event_ok(g, event),
        0 <= n <= GRID_CELLS,
    ensures
        le_one_move(gv_acts_upto(g, event, n)),
        moves_from_actor(gv_acts_upto(g, event, n), g),
        no_moves(gv_acts_upto(g, event, n)) || wizard_visited(g, n),
    decreases n,
{
    if n <= 0 {
    } else {
        lemma_gv_acts_shape(g, event, n - 1);
        let i = crate::grid::visit_cell(n - 1);
        let x = (n - 1) / (MAX_Y as int);
        let y = (n - 1) % (MAX_Y as int);
        assert(spec_in_bounds(x, y));
        assert(gidx(x, y) == i);
        let prefix = gv_acts_upto(g, event, n - 1);
        assert(g[i].len() == LAYERS);
        let cacts = crate::grid::cell_acts(g[i], event);
        lemma_cell_acts_shape(g, x, y, event, LAYERS as int);
        if cell_has_wizard(g, i) {
            assert(no_moves(prefix)) by {
                if !no_moves(prefix) {
                    assert(wizard_visited(g, n - 1));
                    let m = choose|m: int| 0 <= m < n - 1 && cell_has_wizard(g,
                        crate::grid::visit_cell(m));
                    let xm = m / (MAX_Y as int);
                    let ym = m % (MAX_Y as int);
                    assert(spec_in_bounds(xm, ym));
                    assert(gidx(xm, ym) == crate::grid::visit_cell(m));
                    let zm = choose|z: int| 0 <= z < LAYERS
                        && (#[trigger] g[gidx(xm, ym)][z]) is Some
                        && g[gidx(xm, ym)][z].unwrap().kind == Kinds::Wizard;
                    let zi = choose|z: int| 0 <= z < LAYERS && (#[trigger] g[i][z]) is Some
                        && g[i][z].unwrap().kind == Kinds::Wizard;
                    assert(gv_slot(g, xm, ym, zm) is Some && gv_slot(g, xm, ym,
                        zm).unwrap().kind == Kinds::Wizard);
                    assert(gv_slot(g, x, y, zi) is Some && gv_slot(g, x, y,
                        zi).unwrap().kind == Kinds::Wizard);
                    assert(xm == x && ym == y);
                    assert(m == n - 1);
                    assert(false);
                }
            }
            lemma_move_shape_concat(prefix, cacts);
            lemma_mfa_concat(prefix, cacts, g);
            assert(wizard_visited(g, n)) by {
                assert(0 <= n - 1 < n && cell_has_wizard(g, crate::grid::visit_cell(n - 1)));
            }
        } else {
            assert(no_moves(cacts));
            lemma_move_shape_concat(prefix, cacts);
            lemma_mfa_concat(prefix, cacts, g);
            if !no_moves(prefix) {
                assert(wizard_visited(g, n - 1));
                let m = choose|m: int| 0 <= m < n - 1 && cell_has_wizard(g,
                    crate::grid::visit_cell(m));
                assert(0 <= m < n && cell_has_wizard(g, crate::grid::visit_cell(m)));
            }
        }
    }
}

/// Both the actor's slots and their uniqueness survive the event stage:
/// each occupant keeps its place, kind and layer.
proof fn lemma_shape_transport(acts: Seq<Action>, g: GridV, event: Event)
    requires
        gv_wf(g),
        gv_event_ok(g, event),
        moves_from_actor(acts, g),
        gv_one_wizard(g),
    ensures
        moves_from_actor(acts, gv_after_event(g, event)),
        gv_one_wizard(gv_after_event(g, event)),
{
    let g1 = gv_after_event(g, event);
    assert forall|x: int, y: int, z: int| spec_in_bounds(x, y) && 0 <= z < LAYERS
        implies #[trigger] gv_slot(g1, x, y, z) == opt_on_event_iv(gv_slot(g, x, y, z),
        event) by {
        assert(0 <= gidx(x, y) < GRID_CELLS);
    }
    assert forall|x: int, y: int, z: int|
        spec_in_bounds(x, y) && 0 <= z < LAYERS && (#[trigger] gv_slot(g1, x, y, z)) is Some
            implies gv_slot(g, x, y, z) is Some
                && gv_slot(g1, x, y, z).unwrap().kind == gv_slot(g, x, y, z).unwrap().kind
                && gv_slot(g1, x, y, z).unwrap().x == gv_slot(g, x, y, z).unwrap().x
                && gv_slot(g1, x, y, z).unwrap().y == gv_slot(g, x, y, z).unwrap().y
                && gv_slot(g1, x, y, z).unwrap().z_order
                    == gv_slot(g, x, y, z).unwrap().z_order by {
        crate::grid::lemma_item_on_event_same_pos(gv_slot(g, x, y, z).unwrap(), event);
    }
}

/// A confirmed move's arrival as the resolver's state carries it: the
/// moved actor occupies the arrival slot, still recording its departure
/// position one step back, and no other occupant of the arrival cell is
/// an actor.
pub open spec fn confirmed_move_ok(g: GridV, t: Target, dest: MoveDestination) -> bool {
    &&& spec_in_bounds(t.x as int, t.y as int)
    &&& t.z < LAYERS
    &&& gv_slot(g, t.x as int, t.y as int, t.z as int) is Some
    &&& ({
        let w = gv_slot(g, t.x as int, t.y as int, t.z as int).unwrap();
        &&& w.kind == Kinds::Wizard
        &&& w.z_order == t.z
        &&& crate::actions::spec_step(w.x as int, w.y as int, dest) == (t.x as int,
            t.y as int)
    })
    &&& forall|z: int| 0 <= z < LAYERS && z != t.z
        && (#[trigger] gv_slot(g, t.x as int, t.y as int, z)) is Some
        ==> gv_slot(g, t.x as int, t.y as int, z).unwrap().kind != Kinds::Wizard
}

/// The confirmations still to deliver, mid-pass: either none, or exactly
/// one accepted move's, against a board where that move's arrival holds.
pub open spec fn pending_ok(g: GridV, rs: Seq<Action>) -> bool {
    rs == Seq::<Action>::empty() || (exists|t: Target, dest: MoveDestination, who: Who|
        rs == #[trigger] move_reactions(t, dest, who) && confirmed_move_ok(g, t, dest)
            && coherent_except(g, t) && gv_one_wizard(g))
}

/// Positional coherence everywhere but at one slot — the arrival slot of
/// a move whose confirmation has not been delivered yet.
pub open spec fn coherent_except(g: GridV, t: Target) -> bool {
    forall|x: int, y: int, z: int|
        spec_in_bounds(x, y) && 0 <= z < LAYERS && !(x == t.x && y == t.y && z == t.z)
            && (#[trigger] gv_slot(g, x, y, z)) is Some
            ==> gv_slot(g, x, y, z).unwrap().x == x && gv_slot(g, x, y, z).unwrap().y == y
}

/// The reaction protocol is coherent: when an accepted move takes a
/// positionally coherent actor out of `src`, the confirming reactions it
/// generates — one per layer of the arrival cell — can all be delivered
/// on the board the move left behind, provided the arrival cell's other
/// occupants are not actors themselves (there is one player actor). In
/// particular the moved actor receives its own confirmation and performs
/// exactly the confirmed position change.
pub proof fn lemma_move_reactions_deliverable(
    g: GridV,
    src: Target,
    dest: MoveDestination,
    who: Who,
)
    requires
        gv_wf(g),
        src.z < LAYERS,
        gv_move(g, src, dest) is Some,
        ({
            let iv = gv_slot(g, src.x as int, src.y as int, src.z as int).unwrap();
            iv.kind == Kinds::Wizard ==> iv.x == src.x && iv.y == src.y
        }),
        ({
            let t = gv_move(g, src, dest).unwrap().1;
            forall|z: int| 0 <= z < LAYERS && z != src.z
                && (#[trigger] gv_slot(g, t.x as int, t.y as int, z)) is Some
                ==> gv_slot(g, t.x as int, t.y as int, z).unwrap().kind != Kinds::Wizard
        }),
    ensures
        ({
            let (g2, t) = gv_move(g, src, dest).unwrap();
            deliverable(g2, move_reactions(t, dest, who))
        }),
{
    let (g2, t) = gv_move(g, src, dest).unwrap();
    let iv = gv_slot(g, src.x as int, src.y as int, src.z as int).unwrap();
    let rs = move_reactions(t, dest, who);
    assert(iv.z_order == src.z);
    assert(gv_slot(g2, t.x as int, t.y as int, src.z as int) == Some(iv));
    lemma_move_reactions_deliverable_from(g2, g, src, t, dest, who, 0);
    assert(rs.skip(0) =~= rs);
}

/// Delivers the per-layer confirmations of one accepted move from layer
/// `z0` up, each against the board the earlier ones left.
proof fn lemma_move_reactions_deliverable_from(
    g2: GridV,
    g: GridV,
    src: Target,
    t: Target,
    dest: MoveDestination,
    who: Who,
    z0: int,
)
    requires
        0 <= z0 <= LAYERS,
        gv_wf(g),
        src.z < LAYERS,
        gv_move(g, src, dest) is Some,
        t == gv_move(g, src, dest).unwrap().1,
        ({
            let iv = gv_slot(g, src.x as int, src.y as int, src.z as int).unwrap();
            iv.kind == Kinds::Wizard ==> iv.x == src.x && iv.y == src.y
        }),
        forall|z: int| 0 <= z < LAYERS && z != src.z
            && (#[trigger] gv_slot(g, t.x as int, t.y as int, z)) is Some
            ==> gv_slot(g, t.x as int, t.y as int, z).unwrap().kind != Kinds::Wizard,
        gv_dims(g2),
        // Below `z0`, layers have been delivered to; at and above it they
        // still look as the move left them.
        forall|z: int| z0 <= z < LAYERS ==> #[trigger] gv_slot(g2, t.x as int, t.y as int, z)
            == gv_slot(gv_move(g, src, dest).unwrap().0, t.x as int, t.y as int, z),
    ensures
        deliverable(g2, move_reactions(t, dest, who).skip(z0)),
    decreases LAYERS - z0,
{
    let rs = move_reactions(t, dest, who).skip(z0);
    if z0 < LAYERS {
        let r = move_reactions(t, dest, who)[z0];
        assert(rs[0] == r);
        let gm = gv_move(g, src, dest).unwrap().0;
        let iv = gv_slot(g, src.x as int, src.y as int, src.z as int).unwrap();
        assert(iv.z_order == src.z);
        assert(spec_in_bounds(t.x as int, t.y as int));
        // The occupant of this layer accepts the confirmation: the moved
        // actor's own recorded position steps exactly onto the arrival
        // cell; any other occupant is not an actor and ignores it.
        assert(reaction_ok_in(g2, r)) by {
            match gv_slot(g2, t.x as int, t.y as int, z0) {
                Some(occ) => {
                    if z0 == src.z {
                        assert(occ == iv);
                    } else {
                        assert(gv_slot(gm, t.x as int, t.y as int, z0) == gv_slot(g,
                            t.x as int, t.y as int, z0));
                    }
                }
                None => {}
            }
        }
        let g3 = apply_reaction(g2, r);
        assert forall|z: int| z0 + 1 <= z < LAYERS implies #[trigger] gv_slot(g3, t.x as int,
            t.y as int, z) == gv_slot(gm, t.x as int, t.y as int, z) by {
            if gv_slot(g2, t.x as int, t.y as int, z0) is Some {
                assert(gv_slot(g3, t.x as int, t.y as int, z) == gv_slot(g2, t.x as int,
                    t.y as int, z));
            }
        }
        assert(gv_dims(g3)) by {
            if gv_slot(g2, t.x as int, t.y as int, z0) is Some {
                assert(g3 == gv_store(g2, gidx(t.x as int, t.y as int), z0,
                    Some(item_on_reaction_v(gv_slot(g2, t.x as int, t.y as int, z0).unwrap(),
                    r))));
            }
        }
        lemma_move_reactions_deliverable_from(g2, g, src, t, dest, who, z0 + 1);
        assert(rs.skip(1) =~= move_reactions(t, dest, who).skip(z0 + 1));
        assert(deliverable(g3, rs.skip(1))) by {
            lemma_deliverable_from_same(g3, g2, g, src, t, dest, who, z0 + 1);
        }
    } else {
        assert(rs.len() == 0);
    }
}

/// Deliverability of the remaining confirmations depends only on the
/// layers they address.
proof fn lemma_deliverable_from_same(
    ga: GridV,
    gb: GridV,
    g: GridV,
    src: Target,
    t: Target,
    dest: MoveDestination,
    who: Who,
    z0: int,
)
    requires
        0 <= z0 <= LAYERS,
        gv_wf(g),
        src.z < LAYERS,
        gv_move(g, src, dest) is Some,
        t == gv_move(g, src, dest).unwrap().1,
        gv_dims(ga),
        gv_dims(gb),
        forall|z: int| z0 <= z < LAYERS ==> #[trigger] gv_slot(ga, t.x as int, t.y as int, z)
            == gv_slot(gb, t.x as int, t.y as int, z),
        deliverable(gb, move_reactions(t, dest, who).skip(z0)),
    ensures
        deliverable(ga, move_reactions(t, dest, who).skip(z0)),
    decreases LAYERS - z0,
{
    let rs = move_reactions(t, dest, who).skip(z0);
    if z0 < LAYERS {
        let r = move_reactions(t, dest, who)[z0];
        assert(rs[0] == r);
        assert(spec_in_bounds(t.x as int, t.y as int));
        assert(reaction_ok_in(ga, r));
        let ga2 = apply_reaction(ga, r);
        let gb2 = apply_reaction(gb, r);
        assert forall|z: int| z0 + 1 <= z < LAYERS implies #[trigger] gv_slot(ga2, t.x as int,
            t.y as int, z) == gv_slot(gb2, t.x as int, t.y as int, z) by {
            lemma_apply_reaction_other_layers(ga, r, t, z);
            lemma_apply_reaction_other_layers(gb, r, t, z);
        }
        assert(gv_dims(ga2)) by {
            lemma_apply_reaction_dims(ga, r);
        }
        assert(gv_dims(gb2)) by {
            lemma_apply_reaction_dims(gb, r);
        }
        assert(rs.skip(1) =~= move_reactions(t, dest, who).skip(z0 + 1));
        lemma_deliverable_from_same(ga2, gb2, g, src, t, dest, who, z0 + 1);
    }
}

/// A delivered reaction only rewrites the slot it addresses.
proof fn lemma_apply_reaction_other_layers(g: GridV, r: Action, t: Target, z: int)
    requires
        gv_dims(g),
        r.target.x == t.x && r.target.y == t.y,
        0 <= z < LAYERS,
        z != r.target.z,
    ensures
        gv_slot(apply_reaction(g, r), t.x as int, t.y as int, z) == gv_slot(g, t.x as int,
            t.y as int, z),
{
}

/// A delivered reaction keeps the board's dimensions.
proof fn lemma_apply_reaction_dims(g: GridV, r: Action)
    requires
        gv_dims(g),
    ensures
        gv_dims(apply_reaction(g, r)),
{
    let g2 = apply_reaction(g, r);
    assert forall|i: int| 0 <= i < g2.len() implies (#[trigger] g2[i]).len() == LAYERS by {
        assert(g[i].len() == LAYERS);
    }
}

/// A rejected move is invisible: resolving a `Move` action whose source
/// is empty or off the board, or whose destination is off the board or
/// occupied, leaves the whole running outcome — board, reactions, redraw
/// batch, blocking request and win flag — exactly as it was.
pub proof fn lemma_failed_move_idempotent(
    s: ResolveState,
    target: Target,
    dest: MoveDestination,
    who: Who,
)
    requires
        gv_move(s.grid, target, dest) is None,
    ensures
        apply_action(s, Action { target, action: Actions::Move { dest, who } }) == s,
{
}

/// The cell a mid-move actor vacated: one step back against its direction
/// of travel.
pub open spec fn wizard_vacated(iv: ItemV) -> Target {
    if iv.state == MOVE_LEFT1 || iv.state == MOVE_LEFT2 {
        Target { x: (iv.x + 1) as usize, y: iv.y, z: iv.z_order }
    } else if iv.state == MOVE_RIGHT1 || iv.state == MOVE_RIGHT2 {
        Target { x: (iv.x - 1) as usize, y: iv.y, z: iv.z_order }
    } else if iv.state == MOVE_UP1 || iv.state == MOVE_UP2 {
        Target { x: iv.x, y: (iv.y + 1) as usize, z: iv.z_order }
    } else {
        Target { x: iv.x, y: (iv.y - 1) as usize, z: iv.z_order }
    }
}

/// Whether the actor is in one of the eight mid-move animation states.
pub open spec fn wizard_mid_move(iv: ItemV) -> bool {
    MOVE_UP1 <= iv.state <= MOVE_RIGHT2
}

/// Animation completion: a mid-move actor receiving a tick past the fixed
/// animation duration always returns to the first idle state and emits
/// exactly three actions — a repaint of the vacated cell, a repaint of
/// its own cell, and the release of the input block.
pub proof fn lemma_animation_completion(iv: ItemV, t: u128)
    requires
        iv_wf(iv),
        iv.kind == Kinds::Wizard,
        wizard_mid_move(iv),
        t >= iv.start_animation,
        t - iv.start_animation > MOVE_ANIM_TIME,
    ensures
        ({
            let (niv, acts) = item_on_event_v(iv, Event::Tick(t));
            &&& niv == (ItemV { time: t, state: IDLE1, ..iv })
            &&& acts =~= seq![
                Action { target: wizard_vacated(iv), action: Actions::Redraw },
                Action { target: iv_target(iv), action: Actions::Redraw },
                Action { target: wizard_vacated(iv), action: Actions::Block(false) },
            ]
        }),
{
}

/// Win detection: a confirmed move by the player actor delivered to the
/// goal marks it reached, and on its very next event — whatever that
/// event is — the goal emits exactly one `Win` action and nothing else.
pub proof fn lemma_win_detection(iv: ItemV, reaction: Action, event: Event)
    requires
        iv.kind == Kinds::Exit,
        reaction.action matches Actions::Move { dest, who } && who == Who::Wizard,
    ensures
        item_on_reaction_v(iv, reaction).is_win,
        ({
            let reached = item_on_reaction_v(iv, reaction);
            let (after, acts) = item_on_event_v(reached, event);
            acts =~= seq![Action { target: iv_target(reached), action: Actions::Win }]
        }),
{
}

/// Adding one request keeps the batch a set keyed by target.
proof fn lemma_add_redraw_no_dup(rs: Seq<crate::actions::RedrawRequest>,
    req: crate::actions::RedrawRequest)
    requires
        no_dup_redraw(rs),
    ensures
        no_dup_redraw(add_redraw_v(rs, req)),
{
    let rs2 = add_redraw_v(rs, req);
    assert forall|i: int, j: int| 0 <= i < rs2.len() && 0 <= j < rs2.len() && i != j
        implies (#[trigger] rs2[i]).target != (#[trigger] rs2[j]).target by {
        if !redraw_has_target(rs, req.target) {
            if i < rs.len() && j < rs.len() {
            } else if i == rs.len() {
                assert(rs2[j] == rs[j]);
            } else if j == rs.len() {
                assert(rs2[i] == rs[i]);
            }
        }
    }
}

/// Redraw deduplication: however many actions of one pass request a
/// repaint of the same target, the resolved batch never holds two entries
/// with one target.
pub proof fn lemma_redraw_dedup(s0: ResolveState, acts: Seq<Action>, n: int)
    requires
        no_dup_redraw(s0.redraw),
    ensures
        no_dup_redraw(resolve_upto(s0, acts, n).redraw),
    decreases n,
{
    if n <= 0 {
    } else {
        lemma_redraw_dedup(s0, acts, n - 1);
        let s = resolve_upto(s0, acts, n - 1);
        let a = acts[n - 1];
        match a.action {
            Actions::Redraw => {
                lemma_add_redraw_no_dup(s.redraw, crate::actions::RedrawRequest {
                    target: a.target,
                    shift: crate::actions::Pos { x: 0isize, y: 0isize },
                });
            }
            Actions::RedrawAnim(sx, sy, old_t) => {
                let r1 = add_redraw_v(s.redraw, crate::actions::RedrawRequest {
                    target: old_t,
                    shift: crate::actions::Pos { x: 0isize, y: 0isize },
                });
                lemma_add_redraw_no_dup(s.redraw, crate::actions::RedrawRequest {
                    target: old_t,
                    shift: crate::actions::Pos { x: 0isize, y: 0isize },
                });
                lemma_add_redraw_no_dup(r1, crate::actions::RedrawRequest {
                    target: a.target,
                    shift: crate::actions::Pos { x: sx as isize, y: sy as isize },
                });
            }
            Actions::InitSpell(dir) => {
                match gv_find_kind(s.grid, Kinds::Wizard) {
                    Some(wt) => {
                        let nx = crate::actions::spec_step(wt.x as int, wt.y as int, dir).0;
                        let ny = crate::actions::spec_step(wt.x as int, wt.y as int, dir).1;
                        lemma_add_redraw_no_dup(s.redraw, crate::actions::RedrawRequest {
                            target: Target { x: nx as usize, y: ny as usize, z: wt.z },
                            shift: crate::actions::Pos { x: 0isize, y: 0isize },
                        });
                    }
                    None => {}
                }
            }
            _ => {}
        }
    }
}

/// Spell-cast gating: a cast relocates the staged spell to the cell one
/// step from the actor only when that cell is on the board and its
/// matching layer is vacant; when it is occupied or off the board — or
/// nothing castable is staged — the board and the redraw batch are
/// exactly unchanged.
pub proof fn lemma_spell_cast_gating(s: ResolveState, dir: MoveDestination)
    requires
        gv_wf(s.grid),
    ensures
        ({
            let s2 = apply_init_spell(s, dir);
            match gv_find_kind(s.grid, Kinds::Wizard) {
                None => s2 == s,
                Some(wt) => {
                    let nx = crate::actions::spec_step(wt.x as int, wt.y as int, dir).0;
                    let ny = crate::actions::spec_step(wt.x as int, wt.y as int, dir).1;
                    match gv_slot(s.grid, 0, 0, 0) {
                        None => s2 == s,
                        Some(sp) => {
                            if sp.kind == Kinds::Spell
                                && crate::actions::spec_in_bounds(nx, ny)
                                && gv_slot(s.grid, nx, ny, wt.z as int) is None {
                                &&& gv_slot(s2.grid, nx, ny, wt.z as int) == Some(ItemV {
                                    x: nx as usize,
                                    y: ny as usize,
                                    z_order: wt.z,
                                    ..sp
                                })
                                &&& (!(nx == 0 && ny == 0 && wt.z == 0)
                                    ==> gv_slot(s2.grid, 0, 0, 0) is None)
                                &&& redraw_has_target(s2.redraw, Target {
                                    x: nx as usize,
                                    y: ny as usize,
                                    z: wt.z,
                                })
                            } else {
                                s2 == s
                            }
                        }
                    }
                }
            }
        }),
{
    let s2 = apply_init_spell(s, dir);
    crate::grid::lemma_gv_find_kind_wf(s.grid, Kinds::Wizard, 0);
    match gv_find_kind(s.grid, Kinds::Wizard) {
        Some(wt) => {
            let nx = crate::actions::spec_step(wt.x as int, wt.y as int, dir).0;
            let ny = crate::actions::spec_step(wt.x as int, wt.y as int, dir).1;
            match gv_slot(s.grid, 0, 0, 0) {
                Some(sp) => {
                    if sp.kind == Kinds::Spell && crate::actions::spec_in_bounds(nx, ny)
                        && gv_slot(s.grid, nx, ny, wt.z as int) is None {
                        let nt = Target { x: nx as usize, y: ny as usize, z: wt.z };
                        let sp2 = ItemV {
                            x: nx as usize,
                            y: ny as usize,
                            z_order: wt.z,
                            ..sp
                        };
                        let g1 = gv_store(s.grid, gidx(0, 0), 0, None);
                        assert(0 <= gidx(nx, ny) < GRID_CELLS);
                        assert(g1[gidx(nx, ny)].len() == LAYERS);
                        assert(gv_slot(s2.grid, nx, ny, wt.z as int) == Some(sp2));
                        if !(nx == 0 && ny == 0 && wt.z == 0) {
                            if gidx(nx, ny) == 0 {
                                assert(nx == 0 && ny == 0);
                                assert(gv_slot(s2.grid, 0, 0, 0) is None);
                            } else {
                                assert(gv_slot(s2.grid, 0, 0, 0) == gv_slot(g1, 0, 0, 0));
                                assert(gv_slot(s2.grid, 0, 0, 0) is None);
                            }
                        }
                        if !redraw_has_target(s.redraw, nt) {
                            assert(add_redraw_v(s.redraw, crate::actions::RedrawRequest {
                                target: nt,
                                shift: crate::actions::Pos { x: 0isize, y: 0isize },
                            })[s.redraw.len() as int].target == nt);
                        }
                    }
                }
                None => {}
            }
        }
        None => {}
    }
}

/// The confirmations of one accepted move can all be delivered on any
/// board where the move's arrival facts hold.
proof fn lemma_confirmed_deliverable(g: GridV, t: Target, dest: MoveDestination, who: Who)
    requires
        gv_dims(g),
        confirmed_move_ok(g, t, dest),
    ensures
        deliverable(g, move_reactions(t, dest, who)),
{
    lemma_confirmed_deliverable_from(g, g, t, dest, who, 0);
    assert(move_reactions(t, dest, who).skip(0) =~= move_reactions(t, dest, who));
}

/// Delivers one accepted move's confirmations from layer `z0` up: each
/// earlier delivery touched only its own layer, so the remaining layers
/// still look as the move left them.
proof fn lemma_confirmed_deliverable_from(
    gc: GridV,
    g: GridV,
    t: Target,
    dest: MoveDestination,
    who: Who,
    z0: int,
)
    requires
        0 <= z0 <= LAYERS,
        gv_dims(gc),
        gv_dims(g),
        confirmed_move_ok(g, t, dest),
        forall|z: int| z0 <= z < LAYERS ==> #[trigger] gv_slot(gc, t.x as int, t.y as int, z)
            == gv_slot(g, t.x as int, t.y as int, z),
    ensures
        deliverable(gc, move_reactions(t, dest, who).skip(z0)),
    decreases LAYERS - z0,
{
    let rs = move_reactions(t, dest, who).skip(z0);
    if z0 < LAYERS {
        let r = move_reactions(t, dest, who)[z0];
        assert(rs[0] == r);
        assert(reaction_ok_in(gc, r)) by {
            assert(gv_slot(gc, t.x as int, t.y as int, z0) == gv_slot(g, t.x as int,
                t.y as int, z0));
            match gv_slot(g, t.x as int, t.y as int, z0) {
                Some(occ) => {
                    if z0 == t.z {
                        let w = gv_slot(g, t.x as int, t.y as int, t.z as int).unwrap();
                        assert(occ == w);
                    }
                }
                None => {}
            }
        }
        let g3 = apply_reaction(gc, r);
        assert forall|z: int| z0 + 1 <= z < LAYERS implies #[trigger] gv_slot(g3, t.x as int,
            t.y as int, z) == gv_slot(g, t.x as int, t.y as int, z) by {
            lemma_apply_reaction_other_layers(gc, r, t, z);
        }
        lemma_apply_reaction_dims(gc, r);
        assert(rs.skip(1) =~= move_reactions(t, dest, who).skip(z0 + 1));
        lemma_confirmed_deliverable_from(g3, g, t, dest, who, z0 + 1);
    } else {
        assert(rs.len() == 0);
    }
}

/// On a one-actor board, the only actor-held slot after an accepted move
/// is the arrival slot.
proof fn lemma_moved_wizard_slot(
    g: GridV,
    g2: GridV,
    tt: Target,
    dest: MoveDestination,
    w: ItemV,
    x: int,
    y: int,
    z: int,
)
    requires
        gv_wf(g),
        gv_one_wizard(g),
        spec_in_bounds(tt.x as int, tt.y as int),
        tt.z < LAYERS,
        gv_slot(g, tt.x as int, tt.y as int, tt.z as int) == Some(w),
        w.kind == Kinds::Wizard,
        gv_move(g, tt, dest) is Some,
        g2 == gv_move(g, tt, dest).unwrap().0,
        spec_in_bounds(x, y),
        0 <= z < LAYERS,
        gv_slot(g2, x, y, z) is Some,
        gv_slot(g2, x, y, z).unwrap().kind == Kinds::Wizard,
    ensures
        x == crate::actions::spec_step(tt.x as int, tt.y as int, dest).0,
        y == crate::actions::spec_step(tt.x as int, tt.y as int, dest).1,
        z == tt.z,
{
    let nx = crate::actions::spec_step(tt.x as int, tt.y as int, dest).0;
    let ny = crate::actions::spec_step(tt.x as int, tt.y as int, dest).1;
    assert(w.z_order == tt.z);
    if gidx(x, y) == gidx(tt.x as int, tt.y as int) && z == tt.z {
        assert(x == tt.x && y == tt.y);
        assert(gv_slot(g2, x, y, z) is None);
        assert(false);
    } else if gidx(x, y) == gidx(nx, ny) && z == tt.z {
        assert(x == nx && y == ny);
    } else {
        assert(gv_slot(g2, x, y, z) == gv_slot(g, x, y, z));
        assert(x == tt.x && y == tt.y && z == tt.z);
        assert(false);
    }
}

/// Mid-pass bookkeeping of the single allowed move: what resolving the
/// first `n` actions leaves of the board, the confirmations, and the
/// facts that make them deliverable.
proof fn lemma_resolve_delivers(s0: ResolveState, acts: Seq<Action>, n: int)
    requires
        s0.reactions == Seq::<Action>::empty(),
        gv_wf(s0.grid),
        gv_coherent(s0.grid),
        gv_one_wizard(s0.grid),
        moves_from_actor(acts, s0.grid),
        le_one_move(acts),
        crate::grid::actions_z_ok(acts),
        0 <= n <= acts.len(),
    ensures
        ({
            let s = resolve_upto(s0, acts, n);
            &&& gv_wf(s.grid)
            &&& pending_ok(s.grid, s.reactions)
            &&& (s.reactions == Seq::<Action>::empty() ==> moves_from_actor(acts, s.grid)
                && gv_one_wizard(s.grid) && gv_coherent(s.grid))
            &&& (s.reactions != Seq::<Action>::empty() ==> exists|m: int|
                0 <= m < n && (#[trigger] acts[m]).action is Move)
        }),
    decreases n,
{
    if n <= 0 {
    } else {
        lemma_resolve_delivers(s0, acts, n - 1);
        let s = resolve_upto(s0, acts, n - 1);
        let a = acts[n - 1];
        let s2 = apply_action(s, a);
        lemma_apply_action_wf(s, a);
        match a.action {
            Actions::Move { dest, who } => {
                assert(s.reactions == Seq::<Action>::empty()) by {
                    if s.reactions != Seq::<Action>::empty() {
                        let m = choose|m: int| 0 <= m < n - 1 && (#[trigger] acts[m]).action
                            is Move;
                        assert(m == n - 1);
                        assert(false);
                    }
                }
                let tt = a.target;
                let w = gv_slot(s.grid, tt.x as int, tt.y as int, tt.z as int).unwrap();
                match gv_move(s.grid, tt, dest) {
                    Some((g2, t2)) => {
                        let nx = crate::actions::spec_step(tt.x as int, tt.y as int, dest).0;
                        let ny = crate::actions::spec_step(tt.x as int, tt.y as int, dest).1;
                        assert(t2 == (Target { x: nx as usize, y: ny as usize, z: tt.z }));
                        assert(confirmed_move_ok(g2, t2, dest)) by {
                            assert(gv_slot(g2, nx, ny, tt.z as int) == Some(w));
                            assert(w.x == tt.x && w.y == tt.y && w.z_order == tt.z);
                            assert(gidx(nx, ny) != gidx(tt.x as int, tt.y as int));
                            assert forall|z: int| 0 <= z < LAYERS && z != t2.z
                                && (#[trigger] gv_slot(g2, t2.x as int, t2.y as int,
                                z)) is Some implies gv_slot(g2, t2.x as int, t2.y as int,
                                z).unwrap().kind != Kinds::Wizard by {
                                assert(gv_slot(g2, nx, ny, z) == gv_slot(s.grid, nx, ny, z));
                                if gv_slot(s.grid, nx, ny, z).unwrap().kind == Kinds::Wizard {
                                    assert(nx == tt.x as int && ny == tt.y as int
                                        && z == tt.z as int);
                                    assert(false);
                                }
                            }
                        }
                        assert(coherent_except(g2, t2)) by {
                            assert forall|x: int, y: int, z: int|
                                spec_in_bounds(x, y) && 0 <= z < LAYERS && !(x == t2.x
                                    && y == t2.y && z == t2.z) && (#[trigger] gv_slot(g2, x,
                                    y, z)) is Some implies gv_slot(g2, x, y,
                                    z).unwrap().x == x && gv_slot(g2, x, y, z).unwrap().y
                                    == y by {
                                if gidx(x, y) == gidx(tt.x as int, tt.y as int)
                                    && z == tt.z {
                                    assert(x == tt.x && y == tt.y);
                                    assert(gv_slot(g2, x, y, z) is None);
                                } else if gidx(x, y) == gidx(nx, ny) && z == tt.z {
                                    assert(x == nx && y == ny);
                                } else {
                                    assert(gv_slot(g2, x, y, z) == gv_slot(s.grid, x, y,
                                        z));
                                }
                            }
                        }
                        assert(gv_one_wizard(g2)) by {
                            assert forall|x1: int, y1: int, z1: int, x2: int, y2: int,
                                z2: int|
                                spec_in_bounds(x1, y1) && 0 <= z1 < LAYERS && spec_in_bounds(
                                    x2, y2) && 0 <= z2 < LAYERS && (#[trigger] gv_slot(g2,
                                    x1, y1, z1)) is Some && gv_slot(g2, x1, y1,
                                    z1).unwrap().kind == Kinds::Wizard && (#[trigger]
                                    gv_slot(g2, x2, y2, z2)) is Some && gv_slot(g2, x2, y2,
                                    z2).unwrap().kind == Kinds::Wizard
                                    implies x1 == x2 && y1 == y2 && z1 == z2 by {
                                lemma_moved_wizard_slot(s.grid, g2, tt, dest, w, x1, y1, z1);
                                lemma_moved_wizard_slot(s.grid, g2, tt, dest, w, x2, y2, z2);
                            }
                        }
                        assert(s2.reactions =~= move_reactions(t2, dest, who));
                        assert(pending_ok(s2.grid, s2.reactions));
                        assert(s2.reactions != Seq::<Action>::empty()) by {
                            assert(s2.reactions.len() == LAYERS);
                        }
                        assert(0 <= n - 1 < n && acts[n - 1].action is Move);
                    }
                    None => {
                        assert(s2 == s);
                    }
                }
            }
            Actions::InitSpell(dir) => {
                crate::grid::lemma_gv_find_kind_wf(s.grid, Kinds::Wizard, 0);
                match gv_find_kind(s.grid, Kinds::Wizard) {
                    Some(wt) => {
                        let nx = crate::actions::spec_step(wt.x as int, wt.y as int, dir).0;
                        let ny = crate::actions::spec_step(wt.x as int, wt.y as int, dir).1;
                        match gv_slot(s.grid, 0, 0, 0) {
                            Some(sp) => {
                                if sp.kind == Kinds::Spell && spec_in_bounds(nx, ny)
                                    && gv_slot(s.grid, nx, ny, wt.z as int) is None {
                                    lemma_init_spell_keeps_wizards(s, dir, sp, wt, nx, ny);
                                    assert(wizard_slots_eq(s.grid, s2.grid));
                                } else {
                                    assert(s2 == s);
                                }
                            }
                            None => {
                                assert(s2 == s);
                            }
                        }
                    }
                    None => {
                        assert(s2 == s);
                    }
                }
                assert(s2.reactions == s.reactions);
                if s2.grid != s.grid {
                    let wt = gv_find_kind(s.grid, Kinds::Wizard).unwrap();
                    let nx = crate::actions::spec_step(wt.x as int, wt.y as int, dir).0;
                    let ny = crate::actions::spec_step(wt.x as int, wt.y as int, dir).1;
                    let sp = gv_slot(s.grid, 0, 0, 0).unwrap();
                    let sp2 = ItemV { x: nx as usize, y: ny as usize, z_order: wt.z, ..sp };
                    if s.reactions == Seq::<Action>::empty() {
                        lemma_wizard_slots_eq_transports(s.grid, s2.grid, acts,
                            Target { x: 0, y: 0, z: 0 }, dir);
                        assert(gv_coherent(s2.grid)) by {
                            assert forall|x: int, y: int, z: int|
                                spec_in_bounds(x, y) && 0 <= z < LAYERS && (#[trigger]
                                    gv_slot(s2.grid, x, y, z)) is Some
                                    implies gv_slot(s2.grid, x, y, z).unwrap().x == x
                                        && gv_slot(s2.grid, x, y, z).unwrap().y == y by {
                                if x == nx && y == ny && z == wt.z {
                                    assert(gv_slot(s2.grid, x, y, z) == Some(sp2));
                                } else if x == 0 && y == 0 && z == 0 {
                                    assert(gv_slot(s2.grid, x, y, z) is None);
                                } else {
                                    assert(gv_slot(s2.grid, x, y, z) == gv_slot(s.grid, x,
                                        y, z));
                                }
                            }
                        }
                    } else {
                        let (t, d, w) = choose|t: Target, d: MoveDestination, w: Who|
                            s.reactions == #[trigger] move_reactions(t, d, w)
                                && confirmed_move_ok(s.grid, t, d)
                                && coherent_except(s.grid, t) && gv_one_wizard(s.grid);
                        lemma_wizard_slots_eq_transports(s.grid, s2.grid, acts, t, d);
                        assert(coherent_except(s2.grid, t)) by {
                            assert forall|x: int, y: int, z: int|
                                spec_in_bounds(x, y) && 0 <= z < LAYERS && !(x == t.x
                                    && y == t.y && z == t.z) && (#[trigger] gv_slot(s2.grid,
                                    x, y, z)) is Some
                                    implies gv_slot(s2.grid, x, y, z).unwrap().x == x
                                        && gv_slot(s2.grid, x, y, z).unwrap().y == y by {
                                if x == nx && y == ny && z == wt.z {
                                    assert(gv_slot(s2.grid, x, y, z) == Some(sp2));
                                } else if x == 0 && y == 0 && z == 0 {
                                    assert(gv_slot(s2.grid, x, y, z) is None);
                                } else {
                                    assert(gv_slot(s2.grid, x, y, z) == gv_slot(s.grid, x,
                                        y, z));
                                }
                            }
                        }
                        assert(pending_ok(s2.grid, s2.reactions));
                    }
                }
                if s.reactions != Seq::<Action>::empty() {
                    let m = choose|m: int| 0 <= m < n - 1 && (#[trigger] acts[m]).action
                        is Move;
                    assert(0 <= m < n && acts[m].action is Move);
                }
            }
            Actions::Redraw => {
                assert(s2.grid == s.grid && s2.reactions == s.reactions);
                if s.reactions != Seq::<Action>::empty() {
                    let m = choose|m: int| 0 <= m < n - 1 && (#[trigger] acts[m]).action
                        is Move;
                    assert(0 <= m < n && acts[m].action is Move);
                }
            }
            Actions::RedrawAnim(sx, sy, old_t) => {
                assert(s2.grid == s.grid && s2.reactions == s.reactions);
                if s.reactions != Seq::<Action>::empty() {
                    let m = choose|m: int| 0 <= m < n - 1 && (#[trigger] acts[m]).action
                        is Move;
                    assert(0 <= m < n && acts[m].action is Move);
                }
            }
            Actions::Block(b) => {
                assert(s2.grid == s.grid && s2.reactions == s.reactions);
                if s.reactions != Seq::<Action>::empty() {
                    let m = choose|m: int| 0 <= m < n - 1 && (#[trigger] acts[m]).action
                        is Move;
                    assert(0 <= m < n && acts[m].action is Move);
                }
            }
            Actions::Win => {
                assert(s2.grid == s.grid && s2.reactions == s.reactions);
                if s.reactions != Seq::<Action>::empty() {
                    let m = choose|m: int| 0 <= m < n - 1 && (#[trigger] acts[m]).action
                        is Move;
                    assert(0 <= m < n && acts[m].action is Move);
                }
            }
        }
    }
}

/// Wizard-held slots agree between two boards: neither gained nor lost
/// nor changed an actor anywhere.
pub open spec fn wizard_slots_eq(g: GridV, g2: GridV) -> bool {
    forall|x: int, y: int, z: int|
        spec_in_bounds(x, y) && 0 <= z < LAYERS && (((#[trigger] gv_slot(g, x, y,
            z)) matches Some(iv) && iv.kind == Kinds::Wizard) || ((#[trigger] gv_slot(g2, x,
            y, z)) matches Some(iv2) && iv2.kind == Kinds::Wizard))
            ==> gv_slot(g2, x, y, z) == gv_slot(g, x, y, z)
}

/// A cast never touches a slot the actor occupies: the staging slot must
/// hold a spell to move, and the landing slot must be vacant.
proof fn lemma_init_spell_keeps_wizards(
    s: ResolveState,
    dir: MoveDestination,
    sp: ItemV,
    wt: Target,
    nx: int,
    ny: int,
)
    requires
        gv_wf(s.grid),
        gv_find_kind(s.grid, Kinds::Wizard) == Some(wt),
        wt.x < crate::MAX_X && wt.y < crate::MAX_Y && wt.z < LAYERS,
        gv_slot(s.grid, 0, 0, 0) == Some(sp),
        sp.kind == Kinds::Spell,
        spec_in_bounds(nx, ny),
        nx == crate::actions::spec_step(wt.x as int, wt.y as int, dir).0,
        ny == crate::actions::spec_step(wt.x as int, wt.y as int, dir).1,
        gv_slot(s.grid, nx, ny, wt.z as int) is None,
    ensures
        wizard_slots_eq(s.grid, apply_init_spell(s, dir).grid),
        forall|x: int, y: int, z: int| spec_in_bounds(x, y) && 0 <= z < LAYERS
            ==> #[trigger] gv_slot(apply_init_spell(s, dir).grid, x, y, z) == (
                if x == nx && y == ny && z == wt.z {
                    Some(ItemV { x: nx as usize, y: ny as usize, z_order: wt.z, ..sp })
                } else if x == 0 && y == 0 && z == 0 {
                    None
                } else {
                    gv_slot(s.grid, x, y, z)
                }),
{
    let g2 = apply_init_spell(s, dir).grid;
    let sp2 = ItemV { x: nx as usize, y: ny as usize, z_order: wt.z, ..sp };
    let g1 = gv_store(s.grid, gidx(0, 0), 0, None);
    assert(g2 == gv_store(g1, gidx(nx, ny), wt.z as int, Some(sp2)));
    assert forall|x: int, y: int, z: int| spec_in_bounds(x, y) && 0 <= z < LAYERS
        implies #[trigger] gv_slot(g2, x, y, z) == (if x == nx && y == ny && z == wt.z {
            Some(sp2)
        } else if x == 0 && y == 0 && z == 0 {
            None
        } else {
            gv_slot(s.grid, x, y, z)
        }) by {
        assert(0 <= gidx(x, y) < GRID_CELLS);
        if gidx(x, y) == gidx(nx, ny) && z == wt.z {
            assert(x == nx && y == ny);
        } else if gidx(x, y) == gidx(0, 0) && z == 0 {
            assert(x == 0 && y == 0);
        } else {
            assert(gv_slot(g2, x, y, z) == gv_slot(s.grid, x, y, z));
        }
    }
    assert forall|x: int, y: int, z: int|
        spec_in_bounds(x, y) && 0 <= z < LAYERS && (((#[trigger] gv_slot(s.grid, x, y,
            z)) matches Some(iv) && iv.kind == Kinds::Wizard) || ((#[trigger] gv_slot(g2, x,
            y, z)) matches Some(iv2) && iv2.kind == Kinds::Wizard))
            implies gv_slot(g2, x, y, z) == gv_slot(s.grid, x, y, z) by {
        assert(0 <= gidx(x, y) < GRID_CELLS);
        if gidx(x, y) == gidx(nx, ny) && z == wt.z {
            assert(x == nx && y == ny);
            assert(gv_slot(g2, x, y, z) == Some(sp2));
            assert(gv_slot(s.grid, x, y, z) is None);
            assert(false);
        } else if gidx(x, y) == gidx(0, 0) && z == 0 {
            assert(x == 0 && y == 0);
            assert(gv_slot(g2, x, y, z) is None);
            assert(gv_slot(s.grid, 0, 0, 0) == Some(sp));
            assert(false);
        } else {
            assert(gv_slot(g2, x, y, z) == gv_slot(s.grid, x, y, z));
        }
    }
}

/// Boards with the same wizard-held slots support the same single-actor
/// facts: uniqueness, issued-move coherence, and a confirmed move's
/// arrival facts all carry over.
proof fn lemma_wizard_slots_eq_transports(
    g: GridV,
    g2: GridV,
    acts: Seq<Action>,
    t: Target,
    d: MoveDestination,
)
    requires
        wizard_slots_eq(g, g2),
    ensures
        gv_one_wizard(g) ==> gv_one_wizard(g2),
        moves_from_actor(acts, g) ==> moves_from_actor(acts, g2),
        confirmed_move_ok(g, t, d) ==> confirmed_move_ok(g2, t, d),
{
    if gv_one_wizard(g) {
        assert forall|x1: int, y1: int, z1: int, x2: int, y2: int, z2: int|
            spec_in_bounds(x1, y1) && 0 <= z1 < LAYERS && spec_in_bounds(x2, y2) && 0 <= z2
                < LAYERS && (#[trigger] gv_slot(g2, x1, y1, z1)) is Some
                && gv_slot(g2, x1, y1, z1).unwrap().kind == Kinds::Wizard
                && (#[trigger] gv_slot(g2, x2, y2, z2)) is Some
                && gv_slot(g2, x2, y2, z2).unwrap().kind == Kinds::Wizard
                implies x1 == x2 && y1 == y2 && z1 == z2 by {
            assert(gv_slot(g2, x1, y1, z1) == gv_slot(g, x1, y1, z1));
            assert(gv_slot(g2, x2, y2, z2) == gv_slot(g, x2, y2, z2));
        }
    }
    if moves_from_actor(acts, g) {
        assert forall|i: int|
            0 <= i < acts.len() && (#[trigger] acts[i]).action is Move implies ({
            let tt = acts[i].target;
            &&& spec_in_bounds(tt.x as int, tt.y as int)
            &&& tt.z < LAYERS
            &&& gv_slot(g2, tt.x as int, tt.y as int, tt.z as int) is Some
            &&& gv_slot(g2, tt.x as int, tt.y as int, tt.z as int).unwrap().kind
                == Kinds::Wizard
            &&& gv_slot(g2, tt.x as int, tt.y as int, tt.z as int).unwrap().x == tt.x
            &&& gv_slot(g2, tt.x as int, tt.y as int, tt.z as int).unwrap().y == tt.y
            &&& gv_slot(g2, tt.x as int, tt.y as int, tt.z as int).unwrap().z_order == tt.z
        }) by {
            let tt = acts[i].target;
            assert(gv_slot(g2, tt.x as int, tt.y as int, tt.z as int) == gv_slot(g,
                tt.x as int, tt.y as int, tt.z as int));
        }
    }
    if confirmed_move_ok(g, t, d) {
        assert(gv_slot(g2, t.x as int, t.y as int, t.z as int) == gv_slot(g, t.x as int,
            t.y as int, t.z as int));
        assert forall|z: int| 0 <= z < LAYERS && z != t.z
            && (#[trigger] gv_slot(g2, t.x as int, t.y as int, z)) is Some
            implies gv_slot(g2, t.x as int, t.y as int, z).unwrap().kind
                != Kinds::Wizard by {
            if gv_slot(g2, t.x as int, t.y as int, z).unwrap().kind == Kinds::Wizard {
                assert(gv_slot(g2, t.x as int, t.y as int, z) == gv_slot(g, t.x as int,
                    t.y as int, z));
            }
        }
    }
}

/// Delivering one accepted move's confirmations from layer `z0` up
/// restores full positional coherence: the moved actor's confirmation is
/// the one place its recorded position catches up with its slot, and no
/// other occupant's position changes. The single actor also stays single.
proof fn lemma_deliver_restores(
    gc: GridV,
    g: GridV,
    t: Target,
    dest: MoveDestination,
    who: Who,
    z0: int,
)
    requires
        0 <= z0 <= LAYERS,
        gv_dims(gc),
        gv_dims(g),
        confirmed_move_ok(g, t, dest),
        coherent_except(g, t),
        forall|z: int| z0 <= z < LAYERS ==> #[trigger] gv_slot(gc, t.x as int, t.y as int, z)
            == gv_slot(g, t.x as int, t.y as int, z),
        forall|x: int, y: int, z: int|
            spec_in_bounds(x, y) && 0 <= z < LAYERS && !(x == t.x && y == t.y)
                ==> #[trigger] gv_slot(gc, x, y, z) == gv_slot(g, x, y, z),
        forall|z: int| 0 <= z < z0 && (#[trigger] gv_slot(gc, t.x as int, t.y as int,
            z)) is Some ==> gv_slot(gc, t.x as int, t.y as int, z).unwrap().x == t.x
            && gv_slot(gc, t.x as int, t.y as int, z).unwrap().y == t.y,
    ensures
        gv_coherent(deliver_try(gc, move_reactions(t, dest, who).skip(z0)).0),
        gv_one_wizard(gc) ==> gv_one_wizard(deliver_try(gc, move_reactions(t, dest,
            who).skip(z0)).0),
    decreases LAYERS - z0,
{
    let rs = move_reactions(t, dest, who).skip(z0);
    if z0 < LAYERS {
        let r = move_reactions(t, dest, who)[z0];
        assert(rs[0] == r);
        assert(reaction_ok_in(gc, r)) by {
            assert(gv_slot(gc, t.x as int, t.y as int, z0) == gv_slot(g, t.x as int,
                t.y as int, z0));
            match gv_slot(g, t.x as int, t.y as int, z0) {
                Some(occ) => {
                    if z0 == t.z {
                        let w = gv_slot(g, t.x as int, t.y as int, t.z as int).unwrap();
                        assert(occ == w);
                    }
                }
                None => {}
            }
        }
        let g3 = apply_reaction(gc, r);
        assert forall|z: int| z0 + 1 <= z < LAYERS implies #[trigger] gv_slot(g3, t.x as int,
            t.y as int, z) == gv_slot(g, t.x as int, t.y as int, z) by {
            lemma_apply_reaction_other_layers(gc, r, t, z);
        }
        lemma_apply_reaction_dims(gc, r);
        assert forall|x: int, y: int, z: int|
            spec_in_bounds(x, y) && 0 <= z < LAYERS && !(x == t.x && y == t.y)
                implies #[trigger] gv_slot(g3, x, y, z) == gv_slot(g, x, y, z) by {
            match gv_slot(gc, t.x as int, t.y as int, z0) {
                Some(occ) => {
                    assert(gidx(x, y) != gidx(t.x as int, t.y as int));
                    assert(gv_slot(g3, x, y, z) == gv_slot(gc, x, y, z));
                }
                None => {}
            }
        }
        assert forall|z: int| 0 <= z < z0 + 1 && (#[trigger] gv_slot(g3, t.x as int,
            t.y as int, z)) is Some implies gv_slot(g3, t.x as int, t.y as int,
            z).unwrap().x == t.x && gv_slot(g3, t.x as int, t.y as int, z).unwrap().y
            == t.y by {
            match gv_slot(gc, t.x as int, t.y as int, z0) {
                Some(occ) => {
                    if z == z0 {
                        assert(gv_slot(g3, t.x as int, t.y as int, z0)
                            == Some(item_on_reaction_v(occ, r)));
                        if z0 == t.z {
                            let w = gv_slot(g, t.x as int, t.y as int, t.z as int).unwrap();
                            assert(occ == w);
                            assert(item_on_reaction_v(w, r).x == t.x
                                && item_on_reaction_v(w, r).y == t.y);
                        } else {
                            assert(occ.kind != Kinds::Wizard);
                            assert(item_on_reaction_v(occ, r).x == occ.x
                                && item_on_reaction_v(occ, r).y == occ.y);
                            assert(occ.x == t.x && occ.y == t.y);
                        }
                    } else {
                        assert(gv_slot(g3, t.x as int, t.y as int, z) == gv_slot(gc,
                            t.x as int, t.y as int, z));
                    }
                }
                None => {
                    if z == z0 {
                    } else {
                        assert(gv_slot(g3, t.x as int, t.y as int, z) == gv_slot(gc,
                            t.x as int, t.y as int, z));
                    }
                }
            }
        }
        assert(gv_one_wizard(gc) ==> gv_one_wizard(g3)) by {
            if gv_one_wizard(gc) {
                lemma_one_wizard_same_kinds(gc, g3, t, z0, r);
            }
        }
        assert(rs.skip(1) =~= move_reactions(t, dest, who).skip(z0 + 1));
        lemma_deliver_restores(g3, g, t, dest, who, z0 + 1);
    } else {
        assert(rs.len() == 0);
        assert(gv_coherent(gc)) by {
            assert forall|x: int, y: int, z: int|
                spec_in_bounds(x, y) && 0 <= z < LAYERS && (#[trigger] gv_slot(gc, x, y,
                    z)) is Some implies gv_slot(gc, x, y, z).unwrap().x == x && gv_slot(gc,
                    x, y, z).unwrap().y == y by {
                if x == t.x && y == t.y {
                } else {
                    assert(gv_slot(gc, x, y, z) == gv_slot(g, x, y, z));
                }
            }
        }
    }
}

/// One delivery rewrites one slot with an occupant of the same kind, so
/// actor uniqueness carries over.
proof fn lemma_one_wizard_same_kinds(gc: GridV, g3: GridV, t: Target, z0: int, r: Action)
    requires
        gv_dims(gc),
        gv_one_wizard(gc),
        spec_in_bounds(t.x as int, t.y as int),
        0 <= z0 < LAYERS,
        r.target.x == t.x && r.target.y == t.y && r.target.z == z0,
        g3 == apply_reaction(gc, r),
    ensures
        gv_one_wizard(g3),
{
    assert forall|x: int, y: int, z: int| spec_in_bounds(x, y) && 0 <= z < LAYERS
        implies ((#[trigger] gv_slot(g3, x, y, z)) is Some <==> gv_slot(gc, x, y,
            z) is Some) && (gv_slot(g3, x, y, z) is Some ==> gv_slot(g3, x, y,
            z).unwrap().kind == gv_slot(gc, x, y, z).unwrap().kind) by {
        match gv_slot(gc, t.x as int, t.y as int, z0 as int) {
            Some(occ) => {
                if gidx(x, y) == gidx(t.x as int, t.y as int) && z == z0 {
                    assert(x == t.x && y == t.y);
                    assert(gv_slot(g3, x, y, z) == Some(item_on_reaction_v(occ, r)));
                    assert(item_on_reaction_v(occ, r).kind == occ.kind);
                } else {
                    assert(gv_slot(g3, x, y, z) == gv_slot(gc, x, y, z));
                }
            }
            None => {}
        }
    }
    assert forall|x1: int, y1: int, z1: int, x2: int, y2: int, z2: int|
        spec_in_bounds(x1, y1) && 0 <= z1 < LAYERS && spec_in_bounds(x2, y2) && 0 <= z2
            < LAYERS && (#[trigger] gv_slot(g3, x1, y1, z1)) is Some
            && gv_slot(g3, x1, y1, z1).unwrap().kind == Kinds::Wizard
            && (#[trigger] gv_slot(g3, x2, y2, z2)) is Some
            && gv_slot(g3, x2, y2, z2).unwrap().kind == Kinds::Wizard
            implies x1 == x2 && y1 == y2 && z1 == z2 by {
        assert(gv_slot(gc, x1, y1, z1) is Some && gv_slot(gc, x1, y1, z1).unwrap().kind
            == Kinds::Wizard);
        assert(gv_slot(gc, x2, y2, z2) is Some && gv_slot(gc, x2, y2, z2).unwrap().kind
            == Kinds::Wizard);
    }
}

/// The cache covers the actor's whole animation: all ten frames, which
/// are the only sprite ids any occupant ever switches to.
pub open spec fn anim_frames_cached(cache: Seq<usize>) -> bool {
    forall|id: usize| 64 <= id <= 73 ==> cache.contains(id)
}

/// An event leaves an occupant's sprite unchanged or, for the actor,
/// switches it to one of the ten animation frames.
proof fn lemma_item_event_img(iv: ItemV, event: Event)
    requires
        iv_wf(iv),
        iv_event_ok(iv, event),
    ensures
        ({
            let img = item_on_event_v(iv, event).0.img_id;
            img == iv.img_id || (64 <= img <= 73)
        }),
{
}

/// A confirmed reaction never changes a sprite.
proof fn lemma_item_reaction_img(iv: ItemV, r: Action)
    ensures
        item_on_reaction_v(iv, r).img_id == iv.img_id,
{
}

/// The event stage keeps every shown sprite cached.
proof fn lemma_after_event_sprites(g: GridV, event: Event, cache: Seq<usize>)
    requires
        gv_wf(g),
        gv_event_ok(g, event),
        crate::level::sprites_cached(g, cache),
        anim_frames_cached(cache),
    ensures
        crate::level::sprites_cached(gv_after_event(g, event), cache),
{
    let g2 = gv_after_event(g, event);
    assert forall|x: int, y: int, z: int|
        spec_in_bounds(x, y) && 0 <= z < LAYERS && (#[trigger] gv_slot(g2, x, y, z)) is Some
            implies cache.contains(gv_slot(g2, x, y, z).unwrap().img_id) by {
        assert(0 <= gidx(x, y) < GRID_CELLS);
        assert(gv_slot(g2, x, y, z) == opt_on_event_iv(gv_slot(g, x, y, z), event));
        let iv = gv_slot(g, x, y, z).unwrap();
        lemma_item_event_img(iv, event);
    }
}

/// Resolving one action keeps every shown sprite cached: moves and casts
/// relocate occupants without repainting them.
proof fn lemma_apply_action_sprites(s: ResolveState, a: Action, cache: Seq<usize>)
    requires
        gv_wf(s.grid),
        a.action matches Actions::Move { dest, who } ==> a.target.z < LAYERS,
        crate::level::sprites_cached(s.grid, cache),
    ensures
        crate::level::sprites_cached(apply_action(s, a).grid, cache),
{
    let g2 = apply_action(s, a).grid;
    match a.action {
        Actions::Move { dest, who } => {
            match gv_move(s.grid, a.target, dest) {
                Some((gm, t)) => {
                    let iv = gv_slot(s.grid, a.target.x as int, a.target.y as int,
                        a.target.z as int).unwrap();
                    assert forall|x: int, y: int, z: int|
                        spec_in_bounds(x, y) && 0 <= z < LAYERS && (#[trigger] gv_slot(g2, x,
                            y, z)) is Some
                            implies cache.contains(gv_slot(g2, x, y, z).unwrap().img_id) by {
                        let nx = crate::actions::spec_step(a.target.x as int,
                            a.target.y as int, dest).0;
                        let ny = crate::actions::spec_step(a.target.x as int,
                            a.target.y as int, dest).1;
                        if gidx(x, y) == gidx(nx, ny) && z == iv.z_order {
                            assert(gv_slot(g2, x, y, z) == Some(iv));
                        } else if gidx(x, y) == gidx(a.target.x as int, a.target.y as int)
                            && z == a.target.z {
                            assert(gv_slot(g2, x, y, z) is None);
                        } else {
                            assert(gv_slot(g2, x, y, z) == gv_slot(s.grid, x, y, z));
                        }
                    }
                }
                None => {}
            }
        }
        Actions::InitSpell(dir) => {
            crate::grid::lemma_gv_find_kind_wf(s.grid, Kinds::Wizard, 0);
            match gv_find_kind(s.grid, Kinds::Wizard) {
                Some(wt) => {
                    let nx = crate::actions::spec_step(wt.x as int, wt.y as int, dir).0;
                    let ny = crate::actions::spec_step(wt.x as int, wt.y as int, dir).1;
                    match gv_slot(s.grid, 0, 0, 0) {
                        Some(sp) => {
                            if sp.kind == Kinds::Spell && spec_in_bounds(nx, ny)
                                && gv_slot(s.grid, nx, ny, wt.z as int) is None {
                                lemma_init_spell_keeps_wizards(s, dir, sp, wt, nx, ny);
                                assert forall|x: int, y: int, z: int|
                                    spec_in_bounds(x, y) && 0 <= z < LAYERS && (#[trigger]
                                        gv_slot(g2, x, y, z)) is Some
                                        implies cache.contains(gv_slot(g2, x, y,
                                        z).unwrap().img_id) by {
                                    if x == nx && y == ny && z == wt.z {
                                        assert(gv_slot(g2, x, y, z).unwrap().img_id
                                            == sp.img_id);
                                    } else {
                                        assert(gv_slot(g2, x, y, z) == gv_slot(s.grid, x,
                                            y, z));
                                    }
                                }
                            }
                        }
                        None => {}
                    }
                }
                None => {}
            }
        }
        _ => {}
    }
}

/// Resolving a whole batch keeps every shown sprite cached.
proof fn lemma_resolve_sprites(s0: ResolveState, acts: Seq<Action>, n: int, cache: Seq<usize>)
    requires
        gv_wf(s0.grid),
        crate::grid::actions_z_ok(acts),
        crate::level::sprites_cached(s0.grid, cache),
        0 <= n <= acts.len(),
    ensures
        crate::level::sprites_cached(resolve_upto(s0, acts, n).grid, cache),
    decreases n,
{
    if n > 0 {
        lemma_resolve_sprites(s0, acts, n - 1, cache);
        lemma_resolve_wf(s0, acts, n - 1);
        lemma_apply_action_sprites(resolve_upto(s0, acts, n - 1), acts[n - 1], cache);
    }
}

/// Reaction delivery keeps every shown sprite cached.
proof fn lemma_deliver_sprites(g: GridV, rs: Seq<Action>, cache: Seq<usize>)
    requires
        gv_wf(g),
        crate::level::sprites_cached(g, cache),
    ensures
        crate::level::sprites_cached(deliver_try(g, rs).0, cache),
    decreases rs.len(),
{
    if rs.len() == 0 {
    } else if !reaction_ok_in(g, rs[0]) {
    } else {
        let r = rs[0];
        let g2 = apply_reaction(g, r);
        match gv_slot(g, r.target.x as int, r.target.y as int, r.target.z as int) {
            Some(iv) => {
                lemma_item_on_reaction_keeps(iv, r);
                lemma_store_wf(g, gidx(r.target.x as int, r.target.y as int),
                    r.target.z as int, Some(item_on_reaction_v(iv, r)));
                lemma_item_reaction_img(iv, r);
                assert forall|x: int, y: int, z: int|
                    spec_in_bounds(x, y) && 0 <= z < LAYERS && (#[trigger] gv_slot(g2, x, y,
                        z)) is Some implies cache.contains(gv_slot(g2, x, y,
                        z).unwrap().img_id) by {
                    if gidx(x, y) == gidx(r.target.x as int, r.target.y as int)
                        && z == r.target.z {
                        assert(gv_slot(g2, x, y, z) == Some(item_on_reaction_v(iv, r)));
                    } else {
                        assert(gv_slot(g2, x, y, z) == gv_slot(g, x, y, z));
                    }
                }
            }
            None => {}
        }
        lemma_deliver_sprites(g2, rs.skip(1), cache);
    }
}

/// No pass ever shows an uncached sprite: if every occupant's sprite and
/// the actor's ten animation frames are cached, the board a whole
/// resolution pass leaves is still fully covered by the cache — so a
/// cache-miss defect can never arise in later repaints.
pub proof fn lemma_pipeline_sprites_cached(
    g0: GridV,
    block0: bool,
    event: Event,
    cache: Seq<usize>,
)
    requires
        gv_wf(g0),
        gv_event_ok(g0, event),
        crate::level::sprites_cached(g0, cache),
        anim_frames_cached(cache),
    ensures
        crate::level::sprites_cached(level_step(g0, block0, event).grid, cache),
{
    lemma_after_event_wf(g0, event);
    lemma_after_event_sprites(g0, event, cache);
    crate::grid::lemma_gv_acts_z_ok(g0, event, GRID_CELLS as int);
    let acts = gv_acts(g0, event);
    let s0 = init_resolve(gv_after_event(g0, event));
    lemma_resolve_sprites(s0, acts, acts.len() as int, cache);
    lemma_resolve_wf(s0, acts, acts.len() as int);
    let s = resolve_all(s0, acts);
    lemma_deliver_sprites(s.grid, s.reactions, cache);
}

/// The pipeline never loses a confirmation: from a well-formed,
/// positionally coherent board with a single player actor, every
/// resolution pass delivers all the confirming reactions it generated —
/// the checked delivery of [`level_step`] always succeeds.
pub proof fn lemma_pipeline_delivers(g0: GridV, block0: bool, event: Event)
    requires
        gv_wf(g0),
        gv_coherent(g0),
        gv_one_wizard(g0),
        gv_event_ok(g0, event),
    ensures
        level_step(g0, block0, event).delivered,
        gv_wf(level_step(g0, block0, event).grid),
        gv_coherent(level_step(g0, block0, event).grid),
        gv_one_wizard(level_step(g0, block0, event).grid),
{
    let acts = gv_acts(g0, event);
    lemma_gv_acts_shape(g0, event, GRID_CELLS as int);
    lemma_after_event_wf(g0, event);
    lemma_shape_transport(acts, g0, event);
    crate::grid::lemma_gv_acts_z_ok(g0, event, GRID_CELLS as int);
    let g1 = gv_after_event(g0, event);
    lemma_resolve_delivers(init_resolve(g1), acts, acts.len() as int);
    lemma_occupancy_pipeline(g0, block0, event);
    let s = resolve_all(init_resolve(g1), acts);
    if s.reactions == Seq::<Action>::empty() {
        assert(deliver_try(s.grid, s.reactions) == (s.grid, true));
    } else {
        let (t, dest, who) = choose|t: Target, dest: MoveDestination, who: Who|
            s.reactions == #[trigger] move_reactions(t, dest, who) && confirmed_move_ok(
                s.grid, t, dest) && coherent_except(s.grid, t) && gv_one_wizard(s.grid);
        lemma_confirmed_deliverable(s.grid, t, dest, who);
        crate::grid::lemma_deliver_try_ok(s.grid, s.reactions);
        assert(move_reactions(t, dest, who).skip(0) =~= s.reactions);
        lemma_deliver_restores(s.grid, s.grid, t, dest, who, 0);
    }
}

} // verus!
