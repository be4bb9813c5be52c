//! The single-line command editor state.

use vstd::prelude::*;
use crossterm::event::{Event, KeyCode as TermKey, KeyEvent, KeyModifiers};
use tui_input::backend::crossterm::EventHandler;
use crate::keys::{KeyCode, Modifiers};

verus! {

/// The command line being edited: its text and the cursor position, counted
/// in characters (`cursor <= value@.len()`).
#[derive(Debug)]
pub struct InputLine {
    pub value: String,
    pub cursor: usize,
}

/// `tui_input::Input::new` followed by reading back the value and the cursor.
/// Claimed, as its source shows: the value is kept and the cursor is put at
/// the end, i.e. at the number of characters.
#[verifier::external_body]
fn input_new(value: String) -> (r: (String, usize))
    ensures
        r.0@ == value@,
        r.1 == value@.len(),
{
    let input = tui_input::Input::new(value);
    let cursor = input.cursor();
    (String::from(input), cursor)
}

/// `tui_input::Input::handle` with `InputRequest::InsertChar(c)` on an input
/// whose value and cursor are given (built with `Input::new(..).with_cursor(..)`).
/// Claimed, as its source shows: `c` is inserted before the character at the
/// cursor and the cursor moves one character right.
#[verifier::external_body]
fn input_insert_char(value: String, cursor: usize, c: char) -> (r: (String, usize))
    requires
        cursor <= value@.len(),
        cursor < usize::MAX,
    ensures
        r.0@ == value@.take(cursor as int) + seq![c] + value@.skip(cursor as int),
        r.1 == cursor + 1,
{
    let mut input = tui_input::Input::new(value).with_cursor(cursor);
    input.handle(tui_input::InputRequest::InsertChar(c));
    let cursor = input.cursor();
    (String::from(input), cursor)
}

/// The key codes that the line editor reads; every other key is `Ignored`.
#[derive(Debug, Clone, Copy, PartialEq, Eq, Structural)]
pub enum EditCode {
    Char(char),
    Left,
    Right,
    Home,
    End,
    Backspace,
    Delete,
    Ignored,
}

/// The editor's code of a key.
pub open spec fn edit_code_of(code: KeyCode) -> EditCode {
    match code {
        KeyCode::Char(c) => EditCode::Char(c),
        KeyCode::Left => EditCode::Left,
        KeyCode::Right => EditCode::Right,
        KeyCode::Home => EditCode::Home,
        KeyCode::End => EditCode::End,
        KeyCode::Backspace => EditCode::Backspace,
        KeyCode::Delete => EditCode::Delete,
        _ => EditCode::Ignored,
    }
}

/// The modifiers as bits in crossterm's layout: Shift 1, Control 2, Alt 4,
/// Super 8 (standing for `other`), Meta 32.
pub open spec fn modifier_bits_of(m: Modifiers) -> u8 {
    ((if m.shift { 1int } else { 0 }) + (if m.control { 2int } else { 0 }) + (if m.alt { 4int } else { 0 })
        + (if m.other { 8int } else { 0 }) + (if m.meta { 32int } else { 0 })) as u8
}

fn edit_code(code: KeyCode) -> (e: EditCode)
    ensures
        e == edit_code_of(code),
{
    match code {
        KeyCode::Char(c) => EditCode::Char(c),
        KeyCode::Left => EditCode::Left,
        KeyCode::Right => EditCode::Right,
        KeyCode::Home => EditCode::Home,
        KeyCode::End => EditCode::End,
        KeyCode::Backspace => EditCode::Backspace,
        KeyCode::Delete => EditCode::Delete,
        _ => EditCode::Ignored,
    }
}

fn modifier_bits(m: Modifiers) -> (b: u8)
    ensures
        b == modifier_bits_of(m),
{
    let mut b: u8 = 0;
    if m.shift {
        b = b + 1;
    }
    if m.control {
        b = b + 2;
    }
    if m.alt {
        b = b + 4;
    }
    if m.other {
        b = b + 8;
    }
    if m.meta {
        b = b + 32;
    }
    b
}

/// The text and cursor that tui-input's key handler (`Input::handle_event`
/// on a key press: its key table, then `Input::handle`) leaves on an input
/// holding `value` with the cursor at `cursor`, for a key with editor code
/// `code` and modifier bits `bits`.
pub uninterp spec fn line_after_key(value: Seq<char>, cursor: usize, code: EditCode, bits: u8) -> (Seq<char>, usize);

/// `tui_input::Input::handle_event` on a key press, on an input built with
/// `Input::new(value).with_cursor(cursor)`, reading back value and cursor.
/// `Ignored` is handed over as crossterm's `Null`, a key that tui-input's
/// key table does not read, like every key that maps to `Ignored`.
/// Claimed: the result is `line_after_key` of the arguments, and, as every
/// arm of `Input::handle` shows, the cursor stays within the text. What each
/// key does (word moves, kills) is tui-input's, left unstated here.
#[verifier::external_body]
fn input_handle_key(value: String, cursor: usize, code: EditCode, bits: u8) -> (r: (String, usize))
    requires
        cursor <= value@.len(),
        value@.len() < usize::MAX,
    ensures
        (r.0@, r.1) == line_after_key(value@, cursor, code, bits),
        r.1 <= r.0@.len(),
{
    let code = match code {
        EditCode::Char(c) => TermKey::Char(c),
        EditCode::Left => TermKey::Left,
        EditCode::Right => TermKey::Right,
        EditCode::Home => TermKey::Home,
        EditCode::End => TermKey::End,
        EditCode::Backspace => TermKey::Backspace,
        EditCode::Delete => TermKey::Delete,
        EditCode::Ignored => TermKey::Null,
    };
    let event = Event::Key(KeyEvent::new(code, KeyModifiers::from_bits_retain(bits)));
    let mut input = tui_input::Input::new(value).with_cursor(cursor);
    input.handle_event(&event);
    let cursor = input.cursor();
    (String::from(input), cursor)
}

/// The display width of the text before the cursor.
pub uninterp spec fn visual_cursor_of(value: Seq<char>, cursor: usize) -> usize;

/// How far the text scrolls to keep the cursor in a field `width` cells wide.
pub uninterp spec fn visual_scroll_of(value: Seq<char>, cursor: usize, width: usize) -> usize;

/// `tui_input::Input::visual_cursor` on `Input::new(value).with_cursor(cursor)`.
/// Claimed: the result is `visual_cursor_of` of the arguments (a display
/// width by the unicode-width tables, left unstated here).
#[verifier::external_body]
fn input_visual_cursor(value: &str, cursor: usize) -> (n: usize)
    ensures
        n == visual_cursor_of(value@, cursor),
{
    tui_input::Input::new(value.to_owned()).with_cursor(cursor).visual_cursor()
}

/// `tui_input::Input::visual_scroll` on `Input::new(value).with_cursor(cursor)`.
/// Claimed: the result is `visual_scroll_of` of the arguments.
#[verifier::external_body]
fn input_visual_scroll(value: &str, cursor: usize, width: usize) -> (n: usize)
    ensures
        n == visual_scroll_of(value@, cursor, width),
{
    tui_input::Input::new(value.to_owned()).with_cursor(cursor).visual_scroll(width)
}

impl InputLine {
    /// The cursor lies within the text.
    pub open spec fn wf(&self) -> bool {
        self.cursor <= self.value@.len()
    }

    /// A line holding `value`, with the cursor at its end.
    pub fn new(value: String) -> (line: InputLine)
        ensures
            line.value@ == value@,
            line.cursor == value@.len(),
            line.wf(),
    {
        let (value, cursor) = input_new(value);
        InputLine { value, cursor }
    }

    /// Inserts `c` at the cursor and moves the cursor past it.
    pub fn insert_char(&mut self, c: char)
        requires
            old(self).wf(),
            old(self).cursor < usize::MAX,
        ensures
            final(self).wf(),
            final(self).value@ == old(self).value@.take(old(self).cursor as int) + seq![c] + old(
                self,
            ).value@.skip(old(self).cursor as int),
            final(self).cursor == old(self).cursor + 1,
    {
        let mut value = String::new();
        std::mem::swap(&mut value, &mut self.value);
        let (value, cursor) = input_insert_char(value, self.cursor, c);
        self.value = value;
        self.cursor = cursor;
    }

    /// Hand a key press to the line editor (tui-input's readline-style key
    /// handler: character insertion, cursor and word moves, deletions).
    pub fn handle_key(&mut self, code: KeyCode, modifiers: Modifiers)
        requires
            old(self).wf(),
            old(self).value@.len() < usize::MAX,
        ensures
            final(self).wf(),
            (final(self).value@, final(self).cursor) == line_after_key(
                old(self).value@,
                old(self).cursor,
                edit_code_of(code),
                modifier_bits_of(modifiers),
            ),
    {
        let mut value = String::new();
        std::mem::swap(&mut value, &mut self.value);
        let (value, cursor) = input_handle_key(value, self.cursor, edit_code(code), modifier_bits(modifiers));
        self.value = value;
        self.cursor = cursor;
    }

    /// Where the line shows in a field `width` cells wide: how many cells it
    /// is scrolled by, and the cursor's cell within the field (its display
    /// column less the scroll, not below zero).
    pub fn view_columns(&self, width: usize) -> (r: (usize, usize))
        ensures
            r.0 == visual_scroll_of(self.value@, self.cursor, width),
            r.1 == (if visual_cursor_of(self.value@, self.cursor) >= r.0 {
                visual_cursor_of(self.value@, self.cursor) - r.0
            } else {
                0
            }),
    {
        let scroll = input_visual_scroll(self.value.as_str(), self.cursor, width);
        let col = input_visual_cursor(self.value.as_str(), self.cursor);
        (scroll, if col >= scroll { col - scroll } else { 0 })
    }
}

} // verus!
