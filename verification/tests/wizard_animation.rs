//! The actor's animation state machine on concrete ticks: idle breathing,
//! mid-move frames with their interpolated pixel shifts, completion, and
//! move requests; and the goal's win detection.
use koldun::actions::{Actions, MoveDestination, Target, Who, Action};
use koldun::events::{Buttons, Event, States};
use koldun::items::wizard::{
    IDLE1, IDLE2, MOVE_DOWN1, MOVE_LEFT1, MOVE_LEFT2, MOVE_RIGHT1, MOVE_UP1,
};
use koldun::items::{Item, Kinds};

fn wizard_at(x: usize, y: usize) -> Item {
    Item::new(Kinds::Wizard, x, y, 1, 64)
}

#[test]
fn idle_breathing_toggles_every_five_ticks() {
    let mut w = wizard_at(5, 5);
    let acts = w.on_event(&Event::Tick(3));
    assert!(acts.is_empty());
    assert_eq!(w.state, IDLE1);

    let acts = w.on_event(&Event::Tick(5));
    assert_eq!(w.state, IDLE2);
    assert_eq!(w.img_id, 64);
    assert_eq!(acts.len(), 1);
    assert_eq!(acts[0], Action::new(Target::new(5, 5, 1), Actions::Redraw));

    let acts = w.on_event(&Event::Tick(10));
    assert_eq!(w.state, IDLE1);
    assert_eq!(w.img_id, 65);
    assert_eq!(acts.len(), 1);
}

#[test]
fn button_press_requests_a_move_without_moving() {
    let mut w = wizard_at(5, 5);
    let acts = w.on_event(&Event::Button(Buttons::Right(States::Pressed)));
    assert_eq!(acts.len(), 1);
    assert_eq!(acts[0].target, Target::new(5, 5, 1));
    assert!(matches!(
        acts[0].action,
        Actions::Move { dest: MoveDestination::Right, who: Who::Wizard }
    ));
    assert_eq!((w.x, w.y), (5, 5));
    assert_eq!(w.state, IDLE1);

    let acts = w.on_event(&Event::Button(Buttons::Right(States::Released)));
    assert!(acts.is_empty());
}

#[test]
fn confirmed_move_changes_position_and_resets_the_clock() {
    let mut w = wizard_at(5, 5);
    w.on_event(&Event::Tick(7));
    let reaction = Action::new(
        Target::new(6, 5, 1),
        Actions::Move { dest: MoveDestination::Right, who: Who::Wizard },
    );
    w.on_reaction(&reaction);
    assert_eq!((w.x, w.y), (6, 5));
    assert_eq!(w.state, MOVE_RIGHT1);
    assert_eq!(w.start_animation, 7);
}

#[test]
fn mid_move_frame_carries_the_interpolated_shift() {
    // Moving left: four ticks into the ten-tick animation the sprite sits
    // (320 - 32 * 4) / 10 = 19 pixels right of its new tile.
    let mut w = wizard_at(5, 5);
    w.state = MOVE_LEFT1;
    let acts = w.on_event(&Event::Tick(4));
    assert_eq!(w.state, MOVE_LEFT2);
    assert_eq!(w.img_id, 70);
    assert_eq!(acts.len(), 1);
    assert_eq!(acts[0].target, Target::new(5, 5, 1));
    assert!(matches!(acts[0].action, Actions::RedrawAnim(19, 0, t) if t == Target::new(6, 5, 1)));

    // An odd tick emits nothing.
    let acts = w.on_event(&Event::Tick(5));
    assert!(acts.is_empty());

    // Later frames shrink the shift: (320 - 32 * 8) / 10 = 6.
    let acts = w.on_event(&Event::Tick(8));
    assert!(matches!(acts[0].action, Actions::RedrawAnim(6, 0, _)));
}

#[test]
fn rightward_and_downward_shifts_are_negative() {
    let mut w = wizard_at(5, 5);
    w.state = MOVE_RIGHT1;
    let acts = w.on_event(&Event::Tick(4));
    assert!(matches!(acts[0].action, Actions::RedrawAnim(-19, 0, t) if t == Target::new(4, 5, 1)));

    let mut w = wizard_at(5, 5);
    w.state = MOVE_DOWN1;
    let acts = w.on_event(&Event::Tick(2));
    assert!(matches!(acts[0].action, Actions::RedrawAnim(0, -25, t) if t == Target::new(5, 4, 1)));

    let mut w = wizard_at(5, 5);
    w.state = MOVE_UP1;
    let acts = w.on_event(&Event::Tick(2));
    assert!(matches!(acts[0].action, Actions::RedrawAnim(0, 25, t) if t == Target::new(5, 6, 1)));
}

#[test]
fn animation_completes_after_the_fixed_duration() {
    let mut w = wizard_at(5, 5);
    w.state = MOVE_RIGHT1;
    // Eleven ticks after the animation started: one past the duration.
    let acts = w.on_event(&Event::Tick(11));
    assert_eq!(w.state, IDLE1);
    assert_eq!(acts.len(), 3);
    let old = Target::new(4, 5, 1);
    assert_eq!(acts[0], Action::new(old, Actions::Redraw));
    assert_eq!(acts[1], Action::new(Target::new(5, 5, 1), Actions::Redraw));
    assert_eq!(acts[2], Action::new(old, Actions::Block(false)));
}

#[test]
fn exit_emits_exactly_one_win_after_the_actor_arrives() {
    let mut e = Item::new(Kinds::Exit, 10, 7, 0, 74);
    let acts = e.on_event(&Event::Tick(1));
    assert!(acts.is_empty(), "an unreached exit stays silent");

    e.on_reaction(&Action::new(
        Target::new(10, 7, 0),
        Actions::Move { dest: MoveDestination::Down, who: Who::Wizard },
    ));
    assert!(e.is_win);

    let acts = e.on_event(&Event::Tick(2));
    assert_eq!(acts.len(), 1);
    assert_eq!(acts[0], Action::new(Target::new(10, 7, 0), Actions::Win));
}

#[test]
fn spell_item_casts_once_from_its_first_command() {
    let mut s = koldun::items::spell::Spell::new(0, 0, 0, 54, vec![
        koldun::items::SpellCommands::Left,
        koldun::items::SpellCommands::Up,
    ]);
    let acts = s.on_event(&Event::Tick(1));
    assert_eq!(acts.len(), 1);
    assert_eq!(acts[0].target, Target::new(0, 0, 0));
    assert!(matches!(acts[0].action, Actions::InitSpell(MoveDestination::Left)));

    // Single-shot: later events are inert.
    let acts = s.on_event(&Event::Tick(2));
    assert!(acts.is_empty());
}

#[test]
fn depth_commands_cast_nothing() {
    let mut s = koldun::items::spell::Spell::new(0, 0, 0, 54, vec![
        koldun::items::SpellCommands::In,
    ]);
    let acts = s.on_event(&Event::Tick(1));
    assert!(acts.is_empty());
}

#[test]
fn static_sprites_are_inert() {
    let mut s = Item::new(Kinds::Sprite, 3, 3, 0, 2);
    assert!(s.on_event(&Event::Tick(5)).is_empty());
    s.on_reaction(&Action::new(
        Target::new(3, 3, 0),
        Actions::Move { dest: MoveDestination::Up, who: Who::Wizard },
    ));
    assert_eq!((s.x, s.y, s.state), (3, 3, 0));
}
