//! Dispatch: which operation a key stands for in each input mode, and what
//! one event of the render loop does to the dashboard.

use vstd::prelude::*;
use crate::app::App;
use crate::model::{AppModel, InputMode};
use crate::row::{ProcessRecord, distinct_pids};
use crate::table::{MAX_ROWS, is_sorted_snapshot, strictly_ascending};

verus! {

/// A key press, as far as the dashboard tells keys apart.
#[derive(Clone, Copy, PartialEq, Eq, Structural, Debug)]
pub enum Key {
    Char(char),
    Enter,
    Esc,
    Up,
    Down,
    Left,
    Right,
    Insert,
    Home,
    Other,
}

/// What the loop waits for: a key press, or a refresh tick that brings a
/// newly taken snapshot.
pub enum Event {
    Key(Key),
    Tick(Vec<ProcessRecord>),
}

/// The operation that a key stands for.
#[derive(Clone, Copy, PartialEq, Eq, Structural, Debug)]
pub enum Command {
    Quit,
    Next,
    Previous,
    NextPalette,
    PreviousPalette,
    EnterFilter,
    Clear,
    Submit,
    Insert(char),
    Cancel,
    Nothing,
}

/// What the loop does after an event.
#[derive(Clone, Copy, PartialEq, Eq, Structural, Debug)]
pub enum Action {
    Continue,
    Quit,
}

/// The key bindings while navigating.
pub open spec fn normal_command(key: Key) -> Command {
    match key {
        Key::Esc => Command::Quit,
        Key::Down => Command::Next,
        Key::Up => Command::Previous,
        Key::Right => Command::NextPalette,
        Key::Left => Command::PreviousPalette,
        Key::Insert => Command::EnterFilter,
        Key::Home => Command::Clear,
        Key::Char(c) => if c == 'q' {
            Command::Quit
        } else if c == 'j' {
            Command::Next
        } else if c == 'k' {
            Command::Previous
        } else if c == 'l' {
            Command::NextPalette
        } else if c == 'h' {
            Command::PreviousPalette
        } else if c == 'f' {
            Command::EnterFilter
        } else if c == 'c' {
            Command::Clear
        } else {
            Command::Nothing
        },
        _ => Command::Nothing,
    }
}

/// The key bindings while editing the filter.
pub open spec fn editing_command(key: Key) -> Command {
    match key {
        Key::Enter => Command::Submit,
        Key::Esc => Command::Cancel,
        Key::Char(c) => Command::Insert(c),
        _ => Command::Nothing,
    }
}

/// The operation that `key` stands for in `mode`. A key without a binding in
/// that mode stands for nothing.
pub open spec fn command_for(mode: InputMode, key: Key) -> Command {
    match mode {
        InputMode::Normal => normal_command(key),
        InputMode::Editing => editing_command(key),
    }
}

/// The state after `command`.
pub open spec fn apply(model: AppModel, command: Command) -> AppModel {
    match command {
        Command::Quit => model,
        Command::Next => model.next(),
        Command::Previous => model.previous(),
        Command::NextPalette => model.next_palette(),
        Command::PreviousPalette => model.previous_palette(),
        Command::EnterFilter => model.enter_filter_mode(),
        Command::Clear => model.clear(),
        Command::Submit => model.submit_message(),
        Command::Insert(c) => model.enter_char(c),
        Command::Cancel => model.cancel_filter(),
        Command::Nothing => model,
    }
}

/// What the loop does after `command`: it ends on `Quit` alone.
pub open spec fn action_after(command: Command) -> Action {
    if command == Command::Quit {
        Action::Quit
    } else {
        Action::Continue
    }
}

/// The operation that `key` stands for in `mode`.
pub fn command(mode: InputMode, key: Key) -> (command: Command)
    ensures
        command == command_for(mode, key),
{
    match mode {
        InputMode::Normal => match key {
            Key::Esc => Command::Quit,
            Key::Down => Command::Next,
            Key::Up => Command::Previous,
            Key::Right => Command::NextPalette,
            Key::Left => Command::PreviousPalette,
            Key::Insert => Command::EnterFilter,
            Key::Home => Command::Clear,
            Key::Char(c) => if c == 'q' {
                Command::Quit
            } else if c == 'j' {
                Command::Next
            } else if c == 'k' {
                Command::Previous
            } else if c == 'l' {
                Command::NextPalette
            } else if c == 'h' {
                Command::PreviousPalette
            } else if c == 'f' {
                Command::EnterFilter
            } else if c == 'c' {
                Command::Clear
            } else {
                Command::Nothing
            },
            _ => Command::Nothing,
        },
        InputMode::Editing => match key {
            Key::Enter => Command::Submit,
            Key::Esc => Command::Cancel,
            Key::Char(c) => Command::Insert(c),
            _ => Command::Nothing,
        },
    }
}

impl App {
    /// Carries out `command`.
    pub fn run(&mut self, command: Command) -> (action: Action)
        requires
            old(self).wf(),
        ensures
            final(self).wf(),
            final(self)@ == apply(old(self)@, command),
            action == action_after(command),
    {
        match command {
            Command::Quit => {
                return Action::Quit;
            },
            Command::Next => self.next(),
            Command::Previous => self.previous(),
            Command::NextPalette => self.next_palette(),
            Command::PreviousPalette => self.previous_palette(),
            Command::EnterFilter => self.enter_filter_mode(),
            Command::Clear => self.clear(),
            Command::Submit => self.submit_message(),
            Command::Insert(c) => self.enter_char(c),
            Command::Cancel => self.cancel_filter(),
            Command::Nothing => {},
        }
        Action::Continue
    }

    /// Handles a key press: carries out the operation that the key stands
    /// for in the current input mode, and says whether the loop goes on.
    pub fn handle_key(&mut self, key: Key) -> (action: Action)
        requires
            old(self).wf(),
        ensures
            final(self).wf(),
            final(self)@ == apply(old(self)@, command_for(old(self)@.input_mode, key)),
            action == action_after(command_for(old(self)@.input_mode, key)),
    {
        let chosen = command(self.state().input_mode, key);
        self.run(chosen)
    }

    /// Handles one event of the loop: a key press as `handle_key` does, a
    /// tick by a refresh from the snapshot that it brings.
    pub fn handle_event(&mut self, event: &Event) -> (action: Action)
        requires
            old(self).wf(),
            match event {
                Event::Key(_) => true,
                Event::Tick(snapshot) => snapshot@.len() <= MAX_ROWS,
            },
        ensures
            final(self).wf(),
            match event {
                Event::Key(key) => {
                    &&& final(self)@ == apply(old(self)@, command_for(old(self)@.input_mode, *key))
                    &&& action == action_after(command_for(old(self)@.input_mode, *key))
                },
                Event::Tick(snapshot) => {
                    &&& final(self)@ == old(self)@.refresh(final(self)@.rows)
                    &&& is_sorted_snapshot(final(self)@.rows, snapshot@)
                    &&& distinct_pids(snapshot@) ==> strictly_ascending(final(self)@.rows)
                    &&& action == Action::Continue
                },
            },
    {
        match event {
            Event::Key(key) => self.handle_key(*key),
            Event::Tick(snapshot) => {
                self.refresh(snapshot);
                Action::Continue
            },
        }
    }
}

} // verus!
