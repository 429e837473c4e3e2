//! The resolver on concrete boards: moves, rollbacks, reactions, redraw
//! deduplication and spell-cast gating.
use koldun::actions::{Action, Actions, MoveDestination, Pos, RedrawRequest, Target, Who};
use koldun::grid::{Grid, MoveError};
use koldun::items::{Item, Kinds, SpellCommands};
use koldun::items::spell::Spell;
use koldun::items::wizard::MOVE_RIGHT1;

fn wizard_at(x: usize, y: usize) -> Item {
    Item::new(Kinds::Wizard, x, y, 1, 64)
}

#[test]
fn successful_move_relocates_actor() {
    // The actor at (5, 5) layer 1 moves right into the empty (6, 5) layer 1.
    let mut grid = Grid::new();
    grid.set_item(5, 5, wizard_at(5, 5));

    let actions = vec![Action::new(
        Target::new(5, 5, 1),
        Actions::Move { dest: MoveDestination::Right, who: Who::Wizard },
    )];
    let (reactions, to_redraw, block, is_win) = grid.on_actions(actions);

    // One reaction per layer, all addressed at the arrival cell.
    assert_eq!(reactions.len(), 2);
    assert_eq!(reactions[0].target, Target::new(6, 5, 0));
    assert_eq!(reactions[1].target, Target::new(6, 5, 1));
    assert!(matches!(
        reactions[1].action,
        Actions::Move { dest: MoveDestination::Right, who: Who::Wizard }
    ));
    assert!(to_redraw.is_empty());
    assert_eq!(block, Some(true));
    assert!(!is_win);

    // Source slot empty, destination slot holds the moved actor.
    grid.on_reactions(reactions);
    assert!(grid.take_item(5, 5, 1).is_none());
    let moved = grid.take_item(6, 5, 1).expect("actor must be at the destination");
    assert_eq!(moved.kind, Kinds::Wizard);
    assert_eq!((moved.x, moved.y), (6, 5));
    assert_eq!(moved.state, MOVE_RIGHT1);
    assert_eq!(moved.start_animation, moved.time);
}

#[test]
fn failed_move_changes_nothing() {
    // Destination out of bounds: the actor sits on the right edge.
    let mut grid = Grid::new();
    grid.set_item(14, 5, wizard_at(14, 5));
    let r = grid.move_item(Target::new(14, 5, 1), MoveDestination::Right);
    assert_eq!(r, Err(MoveError::Invalid));
    let still = grid.take_item(14, 5, 1).expect("actor must still be at the source");
    assert_eq!((still.x, still.y), (14, 5));

    // Destination occupied on the moved layer.
    let mut grid = Grid::new();
    grid.set_item(5, 5, wizard_at(5, 5));
    grid.set_item(6, 5, Item::new(Kinds::Sprite, 6, 5, 1, 50));
    let actions = vec![Action::new(
        Target::new(5, 5, 1),
        Actions::Move { dest: MoveDestination::Right, who: Who::Wizard },
    )];
    let (reactions, to_redraw, block, is_win) = grid.on_actions(actions);
    assert!(reactions.is_empty());
    assert!(to_redraw.is_empty());
    assert_eq!(block, None);
    assert!(!is_win);
    let still = grid.take_item(5, 5, 1).expect("actor must still be at the source");
    assert_eq!(still.state, 0);
}

#[test]
fn empty_source_move_is_rejected() {
    let mut grid = Grid::new();
    let r = grid.move_item(Target::new(3, 3, 0), MoveDestination::Up);
    assert_eq!(r, Err(MoveError::Invalid));
}

#[test]
fn redraw_batch_deduplicates_by_target() {
    let mut grid = Grid::new();
    let t = Target::new(4, 2, 0);
    let actions = vec![
        Action::new(t, Actions::Redraw),
        Action::new(Target::new(1, 1, 0), Actions::Redraw),
        Action::new(t, Actions::Redraw),
    ];
    let (_, to_redraw, _, _) = grid.on_actions(actions);
    assert_eq!(to_redraw.len(), 2);
    assert_eq!(to_redraw[0], RedrawRequest::new(t));
    assert_eq!(to_redraw[1], RedrawRequest::new(Target::new(1, 1, 0)));
}

#[test]
fn animated_redraw_clears_old_and_shifts_new() {
    let mut grid = Grid::new();
    let cur = Target::new(5, 5, 1);
    let old = Target::new(6, 5, 1);
    let actions = vec![Action::new(cur, Actions::RedrawAnim(19, 0, old))];
    let (_, to_redraw, _, _) = grid.on_actions(actions);
    assert_eq!(to_redraw.len(), 2);
    assert_eq!(to_redraw[0], RedrawRequest::new(old));
    assert_eq!(to_redraw[1], RedrawRequest::new_anim(cur, Pos::new(19, 0)));
}

#[test]
fn block_and_win_actions_set_flags() {
    let mut grid = Grid::new();
    let t = Target::new(0, 0, 0);
    let (_, _, block, is_win) =
        grid.on_actions(vec![Action::new(t, Actions::Block(false)), Action::new(t, Actions::Win)]);
    assert_eq!(block, Some(false));
    assert!(is_win);
}

#[test]
fn spell_cast_moves_staged_spell_next_to_actor() {
    let mut grid = Grid::new();
    grid.set_item(5, 5, wizard_at(5, 5));
    grid.set_item(0, 0, Spell::new(0, 0, 0, 54, vec![SpellCommands::Right]));

    let actions = vec![Action::new(
        Target::new(0, 0, 0),
        Actions::InitSpell(MoveDestination::Right),
    )];
    let (_, to_redraw, _, _) = grid.on_actions(actions);

    assert_eq!(to_redraw.len(), 1);
    assert_eq!(to_redraw[0], RedrawRequest::new(Target::new(6, 5, 1)));
    assert!(grid.take_item(0, 0, 0).is_none(), "staging slot must be empty after the cast");
    let placed = grid.take_item(6, 5, 1).expect("spell must sit next to the actor");
    assert_eq!(placed.kind, Kinds::Spell);
    assert_eq!((placed.x, placed.y, placed.z_order), (6, 5, 1));
}

#[test]
fn spell_cast_into_occupied_cell_changes_nothing() {
    let mut grid = Grid::new();
    grid.set_item(5, 5, wizard_at(5, 5));
    grid.set_item(6, 5, Item::new(Kinds::Sprite, 6, 5, 1, 50));
    grid.set_item(0, 0, Spell::new(0, 0, 0, 54, vec![SpellCommands::Right]));

    let actions = vec![Action::new(
        Target::new(0, 0, 0),
        Actions::InitSpell(MoveDestination::Right),
    )];
    let (_, to_redraw, _, _) = grid.on_actions(actions);

    assert!(to_redraw.is_empty(), "a failed cast emits no redraw");
    let staged = grid.take_item(0, 0, 0).expect("a failed cast leaves the spell staged");
    assert_eq!(staged.kind, Kinds::Spell);
    let blocker = grid.take_item(6, 5, 1).expect("the blocking occupant stays");
    assert_eq!(blocker.kind, Kinds::Sprite);
}

#[test]
fn spell_cast_off_the_board_changes_nothing() {
    let mut grid = Grid::new();
    grid.set_item(14, 5, wizard_at(14, 5));
    grid.set_item(0, 0, Spell::new(0, 0, 0, 54, vec![SpellCommands::Right]));
    let actions = vec![Action::new(
        Target::new(0, 0, 0),
        Actions::InitSpell(MoveDestination::Right),
    )];
    let (_, to_redraw, _, _) = grid.on_actions(actions);
    assert!(to_redraw.is_empty());
    assert!(grid.take_item(0, 0, 0).is_some());
}

#[test]
fn find_kind_reports_the_actor_slot() {
    let mut grid = Grid::new();
    assert_eq!(grid.find_kind(Kinds::Wizard), None);
    grid.set_item(10, 5, wizard_at(10, 5));
    assert_eq!(grid.find_kind(Kinds::Wizard), Some(Target::new(10, 5, 1)));
}

#[test]
fn transplant_preserves_positions_and_empties_source() {
    let mut a = Grid::new();
    a.set_item(5, 5, wizard_at(5, 5));
    a.set_item(2, 3, Item::new(Kinds::Sprite, 2, 3, 0, 2));
    let mut b = Grid::new_from(&mut a);
    assert!(a.find_kind(Kinds::Wizard).is_none());
    assert!(a.take_item(2, 3, 0).is_none());
    assert_eq!(b.find_kind(Kinds::Wizard), Some(Target::new(5, 5, 1)));
    assert_eq!(b.tile_id(2, 3), 2);
    assert!(b.take_item(2, 3, 0).is_some());
}

#[test]
fn layout_places_low_ids_on_background_and_high_on_foreground() {
    let mut layout = [[0usize; 15]; 10];
    layout[2][3] = 36; // a wall: foreground
    layout[4][7] = 2; // ground: background
    let mut grid = Grid::from_layout(layout);
    let wall = grid.take_item(3, 2, 1).expect("wall must sit on layer 1");
    assert_eq!(wall.tile_id(), 36);
    let ground = grid.take_item(7, 4, 0).expect("ground must sit on layer 0");
    assert_eq!(ground.tile_id(), 2);
    assert!(grid.take_item(3, 2, 0).is_none());
}

#[test]
fn tile_id_reports_topmost_occupant() {
    let mut grid = Grid::new();
    grid.set_item(1, 1, Item::new(Kinds::Sprite, 1, 1, 0, 2));
    assert_eq!(grid.tile_id(1, 1), 2);
    grid.set_item(1, 1, Item::new(Kinds::Sprite, 1, 1, 1, 50));
    assert_eq!(grid.tile_id(1, 1), 50);
    assert_eq!(grid.top_tile(0, 0), None);
}

#[test]
fn occupant_counts_per_cell() {
    let mut grid = Grid::new();
    assert_eq!(grid.get_cell_items_len(3, 3), 0);
    grid.set_item(3, 3, Item::new(Kinds::Sprite, 3, 3, 0, 2));
    assert_eq!(grid.get_cell_items_len(3, 3), 1);
    grid.set_item(3, 3, wizard_at(3, 3));
    assert_eq!(grid.get_cell_items_len(3, 3), 2);
    assert_eq!(grid.get_cell_items_len(99, 99), 0);
}

#[test]
fn moves_off_every_edge_are_rejected() {
    let mut grid = Grid::new();
    grid.set_item(0, 0, wizard_at(0, 0));
    assert_eq!(grid.move_item(Target::new(0, 0, 1), MoveDestination::Up), Err(MoveError::Invalid));
    assert_eq!(grid.move_item(Target::new(0, 0, 1), MoveDestination::Left), Err(MoveError::Invalid));
    let mut grid = Grid::new();
    grid.set_item(14, 9, wizard_at(14, 9));
    assert_eq!(grid.move_item(Target::new(14, 9, 1), MoveDestination::Down), Err(MoveError::Invalid));
    assert_eq!(
        grid.move_item(Target::new(14, 9, 1), MoveDestination::Right),
        Err(MoveError::Invalid)
    );
}

#[test]
fn undeliverable_reaction_is_reported() {
    let mut grid = Grid::new();
    let bad = vec![Action::new(
        Target::new(99, 99, 0),
        Actions::Move { dest: MoveDestination::Up, who: Who::Wizard },
    )];
    assert_eq!(grid.try_on_reactions(bad), Err(MoveError::Invalid));
}
