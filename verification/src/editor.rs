//! Editing of the input line, and what each key does.
//!
//! The cursor is a count of characters. It is kept within the line by every
//! movement, but nothing here relies on that: each operation is defined for
//! a cursor anywhere.

use crate::calculator::App;
use crate::state::AppView;
use crate::state::InputMode;
use vstd::prelude::*;

verus! {

/// A key as the calculator tells keys apart.
#[derive(Clone, Copy, Debug, PartialEq, Eq, Structural)]
pub enum Key {
    /// A character key.
    Char(char),
    /// The enter key.
    Enter,
    /// The backspace key.
    Backspace,
    /// The left arrow.
    Left,
    /// The right arrow.
    Right,
    /// The escape key.
    Esc,
    /// Any other key.
    Other,
}

/// What the caller has to do after a key.
#[derive(Clone, Copy, Debug, PartialEq, Eq, Structural)]
pub enum Signal {
    /// Nothing: wait for the next key.
    Continue,
    /// The line is complete: hand it to `process_input`.
    Submit,
    /// Leave the program.
    Quit,
}

/// The character that starts editing in normal mode.
pub const EDIT_KEY: char = 'e';

/// The character that quits in normal mode.
pub const QUIT_KEY: char = 'q';

impl AppView {
    /// `position` brought into the line: no further right than its end.
    pub open spec fn clamp(self, position: nat) -> nat {
        if position <= self.input.len() {
            position
        } else {
            self.input.len()
        }
    }

    /// The cursor one character to the left, if there is one.
    pub open spec fn cursor_left(self) -> AppView {
        let target: nat = if self.character_index == 0 {
            0
        } else {
            (self.character_index - 1) as nat
        };
        AppView { character_index: self.clamp(target), ..self }
    }

    /// The cursor one character to the right, if there is one.
    pub open spec fn cursor_right(self) -> AppView {
        AppView { character_index: self.clamp(self.character_index + 1), ..self }
    }

    /// `c` inserted at the cursor, or at the end of the line where the cursor
    /// is beyond it, and the cursor moved right past it.
    pub open spec fn enter(self, c: char) -> AppView {
        AppView {
            input: self.input.insert(self.clamp(self.character_index) as int, c),
            ..self
        }.cursor_right()
    }

    /// The character left of the cursor removed and the cursor moved left.
    /// With the cursor at the left end nothing changes; with the cursor
    /// beyond the end of the line only the cursor moves.
    pub open spec fn delete(self) -> AppView {
        if self.character_index == 0 {
            self
        } else if self.character_index <= self.input.len() {
            AppView { input: self.input.remove(self.character_index - 1), ..self }.cursor_left()
        } else {
            self.cursor_left()
        }
    }

    /// The state after a key. In normal mode the edit key opens the line for
    /// editing and nothing else changes anything, pressed or not. In editing
    /// mode only a pressed key counts: characters go into the line,
    /// backspace and the arrows edit it, escape goes back to normal mode.
    /// Enter itself changes nothing: see `signal`.
    pub open spec fn key(self, key: Key, pressed: bool) -> AppView {
        match self.input_mode {
            InputMode::Normal => if key == Key::Char(EDIT_KEY) {
                AppView { input_mode: InputMode::Editing, ..self }
            } else {
                self
            },
            InputMode::Editing => if !pressed {
                self
            } else {
                match key {
                    Key::Char(c) => self.enter(c),
                    Key::Backspace => self.delete(),
                    Key::Left => self.cursor_left(),
                    Key::Right => self.cursor_right(),
                    Key::Esc => AppView { input_mode: InputMode::Normal, ..self },
                    Key::Enter | Key::Other => self,
                }
            },
        }
    }

    /// What a key asks of the caller: to quit, for the quit key in normal
    /// mode; to submit the line, for a pressed enter in editing mode;
    /// nothing otherwise.
    pub open spec fn signal(self, key: Key, pressed: bool) -> Signal {
        match self.input_mode {
            InputMode::Normal => if key == Key::Char(QUIT_KEY) {
                Signal::Quit
            } else {
                Signal::Continue
            },
            InputMode::Editing => if pressed && key == Key::Enter {
                Signal::Submit
            } else {
                Signal::Continue
            },
        }
    }
}

impl App {
    /// `new_cursor_pos` brought into the line.
    pub fn clamp_cursor(&self, new_cursor_pos: usize) -> (position: usize)
        ensures
            position == self@.clamp(new_cursor_pos as nat),
    {
        let length: usize = self.input.len();
        if new_cursor_pos <= length {
            new_cursor_pos
        } else {
            length
        }
    }

    /// Moves the cursor one character to the left.
    pub fn move_cursor_left(&mut self)
        ensures
            final(self)@ == old(self)@.cursor_left(),
    {
        let cursor_moved_left: usize = self.character_index.saturating_sub(1);
        self.character_index = self.clamp_cursor(cursor_moved_left);
    }

    /// Moves the cursor one character to the right.
    pub fn move_cursor_right(&mut self)
        ensures
            final(self)@ == old(self)@.cursor_right(),
    {
        let cursor_moved_right: usize = self.character_index.saturating_add(1);
        assert(self.input.len() == self.input@.len());
        self.character_index = self.clamp_cursor(cursor_moved_right);
    }

    /// Inserts a character at the cursor and moves the cursor past it.
    pub fn enter_char(&mut self, new_char: char)
        ensures
            final(self)@ == old(self)@.enter(new_char),
    {
        let index: usize = self.clamp_cursor(self.character_index);
        self.input.insert(index, new_char);
        self.move_cursor_right();
    }

    /// Deletes the character left of the cursor and moves the cursor left.
    pub fn delete_char(&mut self)
        ensures
            final(self)@ == old(self)@.delete(),
    {
        let is_not_cursor_leftmost: bool = self.character_index != 0;
        if is_not_cursor_leftmost {
            let current_index: usize = self.character_index;
            if current_index <= self.input.len() {
                self.input.remove(current_index - 1);
            }
            self.move_cursor_left();
        }
    }

    /// Puts the cursor at the left end of the line.
    pub fn reset_cursor(&mut self)
        ensures
            final(self)@ == (AppView { character_index: 0, ..old(self)@ }),
    {
        self.character_index = 0;
    }

    /// Takes a key: edits the line or changes the mode as the key says, and
    /// tells the caller what is left for it to do. `pressed` says whether
    /// the event was the key going down, as opposed to a repeat or a
    /// release.
    pub fn handle_key(&mut self, key: Key, pressed: bool) -> (signal: Signal)
        ensures
            final(self)@ == old(self)@.key(key, pressed),
            signal == old(self)@.signal(key, pressed),
    {
        match self.input_mode {
            InputMode::Normal => match key {
                Key::Char(c) => {
                    if c == EDIT_KEY {
                        self.input_mode = InputMode::Editing;
                        Signal::Continue
                    } else if c == QUIT_KEY {
                        Signal::Quit
                    } else {
                        Signal::Continue
                    }
                },
                _ => Signal::Continue,
            },
            InputMode::Editing => {
                if !pressed {
                    return Signal::Continue;
                }
                match key {
                    Key::Enter => Signal::Submit,
                    Key::Char(to_insert) => {
                        self.enter_char(to_insert);
                        Signal::Continue
                    },
                    Key::Backspace => {
                        self.delete_char();
                        Signal::Continue
                    },
                    Key::Left => {
                        self.move_cursor_left();
                        Signal::Continue
                    },
                    Key::Right => {
                        self.move_cursor_right();
                        Signal::Continue
                    },
                    Key::Esc => {
                        self.input_mode = InputMode::Normal;
                        Signal::Continue
                    },
                    Key::Other => Signal::Continue,
                }
            },
        }
    }
}

} // verus!
