//! The whole game through the state machine: menu navigation, starting a
//! level, walking the actor into the exit and winning, the spell-cast
//! preview round trip, and the fatal defects a broken setup surfaces.
use koldun::events::{Buttons, Event, States};
use koldun::grid::Grid;
use koldun::items::{Item, Kinds};
use koldun::level::{Level, LevelError, Levels, TileDraw};
use koldun::start_menu::StartMenu;
use koldun::state_machine::{Effect, GameState, StateMachine};

fn press(b: fn(States) -> Buttons) -> Event {
    Event::Button(b(States::Pressed))
}

#[test]
fn menu_cursor_cycles_and_selects() {
    let mut m = StartMenu::new();
    assert_eq!(m.command, 0);
    m.on_up();
    assert_eq!(m.command, 1);
    m.on_up();
    assert_eq!(m.command, 2);
    m.on_up();
    assert_eq!(m.command, 0);
    m.on_down();
    assert_eq!(m.command, 2);
    assert_eq!(m.on_select(), None);
    m.on_down();
    m.on_down();
    assert_eq!(m.command, 0);
    assert_eq!(m.on_select(), Some(Levels::Level1));
}

#[test]
fn machine_boots_into_the_menu_and_starts_a_level() {
    let mut game = StateMachine::new();

    let effs = game.on_event(&Event::Tick(0)).unwrap();
    assert_eq!(effs.len(), 2);
    assert!(matches!(effs[0], Effect::ClearScreen));
    assert!(matches!(effs[1], Effect::DrawMenu { selected: 0 }));

    let effs = game.on_event(&press(Buttons::Right)).unwrap();
    assert_eq!(effs.len(), 2);
    match &effs[0] {
        Effect::LoadTiles(ids) => {
            assert_eq!(ids.len(), 27);
            assert!(ids.contains(&64), "the actor's idle frame must be cached");
        }
        other => panic!("expected a sprite load, got {:?}", effect_name(other)),
    }
    match &effs[1] {
        Effect::Draw(draws) => {
            // One draw per cell, in column-outer, row-inner order.
            assert_eq!(draws.len(), 150);
            assert_eq!(draws[0], TileDraw { tile_id: 0, px: 0, py: 0 });
            // The second visited cell is (0, 1): row 1 of column 0.
            assert_eq!(draws[1], TileDraw { tile_id: 0, px: 0, py: 32 });
            // The actor is the topmost occupant of its start cell.
            let wiz = draws.iter().find(|d| d.px == 320 && d.py == 160).unwrap();
            assert_eq!(wiz.tile_id, 64);
        }
        other => panic!("expected draws, got {:?}", effect_name(other)),
    }
    match &game.state {
        GameState::Level(lv) => {
            assert_eq!(lv.grid.find_kind(Kinds::Wizard), Some(koldun::actions::Target::new(10, 5, 1)));
            assert!(!lv.block);
        }
        _ => panic!("the machine must be in a level"),
    }
}

fn effect_name(e: &Effect) -> &'static str {
    match e {
        Effect::ClearScreen => "ClearScreen",
        Effect::DrawMenu { .. } => "DrawMenu",
        Effect::DrawSpellScreen => "DrawSpellScreen",
        Effect::LoadTiles(_) => "LoadTiles",
        Effect::Draw(_) => "Draw",
    }
}

fn start_level(game: &mut StateMachine) {
    game.on_event(&Event::Tick(0)).unwrap();
    game.on_event(&press(Buttons::Right)).unwrap();
}

#[test]
fn walking_into_the_exit_wins_and_resets_the_level() {
    let mut game = StateMachine::new();
    start_level(&mut game);

    // Move down from (10, 5) to (10, 6); input blocks during the animation.
    let effs = game.on_event(&press(Buttons::Down)).unwrap();
    assert_eq!(effs.len(), 1);
    match &game.state {
        GameState::Level(lv) => assert!(lv.block),
        _ => panic!("still in the level"),
    }

    // A blocked button press is swallowed whole.
    let effs = game.on_event(&press(Buttons::Down)).unwrap();
    match &effs[0] {
        Effect::Draw(ds) => assert!(ds.is_empty()),
        _ => panic!("a swallowed press draws nothing"),
    }

    // Run the animation out; one tick past its duration releases input.
    let mut t: u128 = 0;
    while t <= 11 {
        t += 1;
        game.on_event(&Event::Tick(t)).unwrap();
    }
    match &game.state {
        GameState::Level(lv) => {
            assert!(!lv.block, "animation completion must release input");
            assert_eq!(lv.grid.find_kind(Kinds::Wizard), Some(koldun::actions::Target::new(10, 6, 1)));
        }
        _ => panic!("still in the level"),
    }

    // Second step lands on the exit; its reaction marks the goal reached.
    game.on_event(&press(Buttons::Down)).unwrap();

    // The goal announces the win on the very next event, and the machine
    // swaps in a freshly constructed, freshly initialized level.
    let effs = game.on_event(&Event::Tick(12)).unwrap();
    assert_eq!(effs.len(), 2);
    assert!(matches!(effs[0], Effect::LoadTiles(_)));
    assert!(matches!(effs[1], Effect::Draw(_)));
    match &game.state {
        GameState::Level(lv) => {
            assert_eq!(lv.grid.find_kind(Kinds::Wizard), Some(koldun::actions::Target::new(10, 5, 1)));
            assert_eq!(lv.tiles.len(), 27);
            assert!(!lv.block);
        }
        _ => panic!("a win rebuilds the level"),
    }
}

#[test]
fn walls_block_movement_on_the_first_level() {
    let mut game = StateMachine::new();
    start_level(&mut game);
    // (9, 5) holds a brick wall on the actors' layer: moving left is
    // rejected, nothing changes, and input stays unblocked.
    let effs = game.on_event(&press(Buttons::Left)).unwrap();
    match &effs[0] {
        Effect::Draw(ds) => assert!(ds.is_empty(), "a rejected move draws nothing"),
        _ => panic!("expected an empty draw batch"),
    }
    match &game.state {
        GameState::Level(lv) => {
            assert!(!lv.block, "a rejected move must not block input");
            assert_eq!(
                lv.grid.find_kind(Kinds::Wizard),
                Some(koldun::actions::Target::new(10, 5, 1))
            );
        }
        _ => panic!("still in the level"),
    }
}

#[test]
fn spell_preview_round_trip_stages_and_casts_the_spell() {
    let mut game = StateMachine::new();
    start_level(&mut game);

    // Reset enters the preview; the board is transplanted, not copied.
    let effs = game.on_event(&press(Buttons::Reset)).unwrap();
    assert_eq!(effs.len(), 2);
    assert!(matches!(effs[0], Effect::ClearScreen));
    assert!(matches!(effs[1], Effect::DrawSpellScreen));
    match &game.state {
        GameState::Spell(sp) => {
            assert_eq!(sp.grid.find_kind(Kinds::Wizard), Some(koldun::actions::Target::new(10, 5, 1)));
            assert!(sp.commands.is_empty());
        }
        _ => panic!("reset must enter the preview"),
    }

    // Reset again resumes play with the composed spell staged at (0, 0, 0).
    let effs = game.on_event(&press(Buttons::Reset)).unwrap();
    assert_eq!(effs.len(), 2);
    assert!(matches!(effs[0], Effect::LoadTiles(_)));
    match &mut game.state {
        GameState::Level(lv) => {
            let staged = lv.grid.take_item(0, 0, 0).expect("the spell must be staged");
            assert_eq!(staged.kind, Kinds::Spell);
            assert_eq!(staged.commands, vec![koldun::items::SpellCommands::Right]);
            lv.grid.set_item(0, 0, staged);
        }
        _ => panic!("reset must resume the level"),
    }

    // The spell's first event casts it one cell right of the actor.
    game.on_event(&Event::Tick(1)).unwrap();
    match &mut game.state {
        GameState::Level(lv) => {
            assert!(lv.grid.take_item(0, 0, 0).is_none(), "staging must be empty after the cast");
            let cast = lv.grid.take_item(11, 5, 1).expect("the spell must land next to the actor");
            assert_eq!(cast.kind, Kinds::Spell);
        }
        _ => panic!("still in the level"),
    }
}

#[test]
fn menu_repaints_highlight_the_moved_cursor() {
    let mut game = StateMachine::new();
    game.on_event(&Event::Tick(0)).unwrap();
    let effs = game.on_event(&press(Buttons::Up)).unwrap();
    assert_eq!(effs.len(), 1);
    assert!(matches!(effs[0], Effect::DrawMenu { selected: 1 }));
    let effs = game.on_event(&press(Buttons::Down)).unwrap();
    assert!(matches!(effs[0], Effect::DrawMenu { selected: 0 }));
    // A release draws nothing and stays in the menu.
    let effs = game.on_event(&Event::Button(Buttons::Up(States::Released))).unwrap();
    assert!(effs.is_empty());
    assert!(matches!(game.state, GameState::StartMenu(_)));
}

#[test]
fn level_from_grid_takes_over_the_board() {
    let mut donor = Grid::new();
    donor.set_item(2, 2, Item::new(Kinds::Wizard, 2, 2, 1, 64));
    let lv = Level::from_grid(&mut donor, Levels::Level1);
    assert!(donor.find_kind(Kinds::Wizard).is_none());
    assert_eq!(
        lv.grid.find_kind(Kinds::Wizard),
        Some(koldun::actions::Target::new(2, 2, 1))
    );
    assert!(lv.tiles.is_empty());
    assert!(!lv.block);
}

#[test]
fn level_with_empty_cache_reports_unknown_tiles() {
    // A level that skipped initialization: the first repaint-producing
    // event hits the empty cache.
    let mut lv = Level::new(Levels::Level1);
    // Tick five: the idle actor toggles frames and asks for a repaint.
    let r = lv.on_event(&Event::Tick(5));
    assert_eq!(r.err(), Some(LevelError::UnknownTile));
}

#[test]
fn board_with_a_fully_empty_cell_reports_it() {
    let lv = Level {
        grid: Grid::new(),
        tiles: Vec::new(),
        block: false,
        level: Levels::Level1,
    };
    let mut lv = lv;
    let r = lv.on_init();
    assert_eq!(r.err(), Some(LevelError::EmptyCell));
}

#[test]
fn out_of_board_redraw_target_is_reported() {
    // An occupant whose recorded coordinates lie off the board is a
    // construction defect; the repaint it requests surfaces as an error.
    let mut grid = Grid::new();
    let mut stray = Item::new(Kinds::Wizard, 14, 9, 1, 64);
    stray.x = 20;
    stray.y = 20;
    grid.set_item(14, 9, stray);
    let mut lv = Level { grid, tiles: vec![64], block: false, level: Levels::Level1 };
    let r = lv.on_event(&Event::Tick(5));
    assert_eq!(r.err(), Some(LevelError::BadTarget));
}

#[test]
fn undeliverable_reaction_surfaces_as_bad_reaction() {
    // A second actor whose recorded coordinates sit on the board's edge
    // occupies the arrival cell's other layer; the confirmed move's
    // reaction would walk it off the board.
    let mut grid = Grid::new();
    grid.set_item(5, 5, Item::new(Kinds::Wizard, 5, 5, 1, 64));
    // Placed into cell (4, 5) while recording coordinates (0, 9): a
    // deliberately incoherent occupant.
    let stray = Item::new(Kinds::Wizard, 0, 9, 0, 64);
    grid.set_item(4, 5, stray);
    let mut lv = Level { grid, tiles: vec![64], block: false, level: Levels::Level1 };
    let r = lv.on_event(&press(Buttons::Left));
    assert_eq!(r.err(), Some(LevelError::BadReaction));
}
