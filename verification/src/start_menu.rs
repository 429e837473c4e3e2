//! The start menu: a cursor over three entries, moved by the up and down
//! buttons and confirmed by the right button, which starts the first
//! level from the top entry.
use vstd::prelude::*;
use crate::events::{Buttons, Event, States};
use crate::level::Levels;

verus! {

/// Number of menu entries the cursor cycles through.
pub const MENU_ENTRIES: u16 = 3;

/// What a menu entry stands for.
#[derive(Clone, Copy, Debug, PartialEq, Eq, Structural)]
pub enum StartMenuCommands {
    NewGame,
    Options,
}

/// What one event did to the menu: whether it must be repainted, and the
/// level to start, if one was chosen.
pub struct MenuOutcome {
    pub redraw: bool,
    pub start: Option<Levels>,
}

/// The start menu: the index of the highlighted entry.
pub struct StartMenu {
    pub command: u16,
}

/// What one event does to the menu: the new cursor position, whether a
/// repaint is due, and the chosen level, if any.
pub open spec fn menu_step(command: u16, event: Event) -> (u16, bool, Option<Levels>) {
    match event {
        Event::Button(Buttons::Up(States::Pressed)) => (
            if command < MENU_ENTRIES - 1 {
                (command + 1) as u16
            } else {
                0u16
            },
            true,
            None,
        ),
        Event::Button(Buttons::Down(States::Pressed)) => (
            if command > 0 {
                (command - 1) as u16
            } else {
                (MENU_ENTRIES - 1) as u16
            },
            true,
            None,
        ),
        Event::Button(Buttons::Right(States::Pressed)) => (
            command,
            false,
            if command == 0 {
                Some(Levels::Level1)
            } else {
                None
            },
        ),
        _ => (command, false, None),
    }
}

impl StartMenu {
    /// A fresh menu with the first entry highlighted.
    pub fn new() -> (m: StartMenu)
        ensures
            m.command == 0,
    {
        StartMenu { command: 0 }
    }

    /// Moves the cursor one entry onward, wrapping past the last.
    pub fn on_up(&mut self)
        ensures
            final(self).command == if old(self).command < MENU_ENTRIES - 1 {
                (old(self).command + 1) as u16
            } else {
                0u16
            },
    {
        self.command = if self.command < MENU_ENTRIES - 1 {
            self.command + 1
        } else {
            0
        };
    }

    /// Moves the cursor one entry back, wrapping before the first.
    pub fn on_down(&mut self)
        ensures
            final(self).command == if old(self).command > 0 {
                (old(self).command - 1) as u16
            } else {
                (MENU_ENTRIES - 1) as u16
            },
    {
        self.command = if self.command > 0 {
            self.command - 1
        } else {
            MENU_ENTRIES - 1
        };
    }

    /// Confirms the highlighted entry: the first entry starts the first
    /// level, the others do nothing yet.
    pub fn on_select(&self) -> (r: Option<Levels>)
        ensures
            r == if self.command == 0 {
                Some(Levels::Level1)
            } else {
                None::<Levels>
            },
    {
        if self.command == 0 {
            Some(Levels::Level1)
        } else {
            None
        }
    }

    /// Handles one event: up and down move the cursor and ask for a
    /// repaint, right confirms, everything else is ignored.
    pub fn on_event(&mut self, event: &Event) -> (r: MenuOutcome)
        ensures
            (final(self).command, r.redraw, r.start) == menu_step(old(self).command, *event),
    {
        match event {
            Event::Button(Buttons::Up(States::Pressed)) => {
                self.on_up();
                MenuOutcome { redraw: true, start: None }
            }
            Event::Button(Buttons::Down(States::Pressed)) => {
                self.on_down();
                MenuOutcome { redraw: true, start: None }
            }
            Event::Button(Buttons::Right(States::Pressed)) => {
                MenuOutcome { redraw: false, start: self.on_select() }
            }
            _ => MenuOutcome { redraw: false, start: None },
        }
    }
}

} // verus!
