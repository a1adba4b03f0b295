//! The line editor: an edit buffer, a caret, a submit flag and the buffer of
//! fragments that await their continuation.

use crate::shell::terminal::{effects, emit, Action, Effect};
use crate::shell::text::append;
use vstd::prelude::*;

verus! {

/// The key that was pressed.
#[derive(Debug, Clone, Copy, PartialEq, Eq)]
pub enum KeyCode {
    Char(char),
    Backspace,
    Delete,
    Tab,
    Enter,
    Home,
    End,
    Left,
    Right,
    /// Any key the editor has no use for.
    Other,
}

/// The modifier keys held down with a key. `other` stands for every
/// modifier besides Shift, Control and Alt.
#[derive(Debug, Clone, Copy, PartialEq, Eq)]
pub struct KeyModifiers {
    pub shift: bool,
    pub control: bool,
    pub alt: bool,
    pub other: bool,
}

impl KeyModifiers {
    /// No modifier is held.
    pub open spec fn is_none(&self) -> bool {
        !self.shift && !self.control && !self.alt && !self.other
    }

    /// Shift is held and nothing else.
    pub open spec fn is_shift(&self) -> bool {
        self.shift && !self.control && !self.alt && !self.other
    }

    /// Control is held and nothing else.
    pub open spec fn is_control(&self) -> bool {
        !self.shift && self.control && !self.alt && !self.other
    }

    /// No modifier.
    pub fn none() -> (m: KeyModifiers)
        ensures
            m.is_none(),
    {
        KeyModifiers { shift: false, control: false, alt: false, other: false }
    }

    /// Shift alone.
    pub fn shift() -> (m: KeyModifiers)
        ensures
            m.is_shift(),
    {
        KeyModifiers { shift: true, control: false, alt: false, other: false }
    }

    /// Control alone.
    pub fn control() -> (m: KeyModifiers)
        ensures
            m.is_control(),
    {
        KeyModifiers { shift: false, control: true, alt: false, other: false }
    }
}

/// One key event: a key and the modifiers held with it.
#[derive(Debug, Clone, Copy, PartialEq, Eq)]
pub struct KeyEvent {
    pub code: KeyCode,
    pub modifiers: KeyModifiers,
}

/// What a key event asks of the editor.
#[derive(Debug, Clone, Copy, PartialEq, Eq)]
pub enum Transition {
    /// Leave the shell.
    Exit,
    /// Insert the UTF-8 bytes of a character at the caret.
    Insert(char),
    /// Remove the byte before the caret.
    Backspace,
    /// Remove the byte at the caret.
    Delete,
    /// Insert four spaces at the caret.
    Tab,
    /// Submit the buffer.
    Submit,
    /// Move the caret to the start of the buffer.
    Home,
    /// Move the caret to the end of the buffer.
    End,
    /// Move the caret one byte left.
    Left,
    /// Move the caret one byte right.
    Right,
    /// Do nothing.
    Ignore,
}

impl KeyEvent {
    /// The transition that this event stands for.
    pub open spec fn spec_transition(&self) -> Transition {
        match self.code {
            KeyCode::Char(c) => {
                if c == 'd' && self.modifiers.is_control() {
                    Transition::Exit
                } else if self.modifiers.is_none() || self.modifiers.is_shift() {
                    Transition::Insert(c)
                } else {
                    Transition::Ignore
                }
            },
            KeyCode::Backspace => Transition::Backspace,
            KeyCode::Delete => Transition::Delete,
            KeyCode::Tab => Transition::Tab,
            KeyCode::Enter => if self.modifiers.is_none() {
                Transition::Submit
            } else {
                Transition::Ignore
            },
            KeyCode::Home => Transition::Home,
            KeyCode::End => Transition::End,
            KeyCode::Left => if self.modifiers.is_none() {
                Transition::Left
            } else {
                Transition::Ignore
            },
            KeyCode::Right => if self.modifiers.is_none() {
                Transition::Right
            } else {
                Transition::Ignore
            },
            KeyCode::Other => Transition::Ignore,
        }
    }

    /// Classifies the event by the editor's key table.
    pub fn transition(&self) -> (t: Transition)
        ensures
            t == self.spec_transition(),
    {
        let m = self.modifiers;
        let plain = !m.shift && !m.control && !m.alt && !m.other;
        let shift_only = m.shift && !m.control && !m.alt && !m.other;
        let control_only = !m.shift && m.control && !m.alt && !m.other;
        match self.code {
            KeyCode::Char(c) => {
                if c == 'd' && control_only {
                    Transition::Exit
                } else if plain || shift_only {
                    Transition::Insert(c)
                } else {
                    Transition::Ignore
                }
            },
            KeyCode::Backspace => Transition::Backspace,
            KeyCode::Delete => Transition::Delete,
            KeyCode::Tab => Transition::Tab,
            KeyCode::Enter => if plain {
                Transition::Submit
            } else {
                Transition::Ignore
            },
            KeyCode::Home => Transition::Home,
            KeyCode::End => Transition::End,
            KeyCode::Left => if plain {
                Transition::Left
            } else {
                Transition::Ignore
            },
            KeyCode::Right => if plain {
                Transition::Right
            } else {
                Transition::Ignore
            },
            KeyCode::Other => Transition::Ignore,
        }
    }
}

/// The prompt shown while a fragment awaits its continuation: `> `.
pub open spec fn continuation_prompt() -> Seq<u8> {
    seq![62u8, 32u8]
}

/// The four spaces that a Tab inserts.
pub open spec fn tab_spaces() -> Seq<u8> {
    seq![32u8, 32u8, 32u8, 32u8]
}

/// `buffer` with `bytes` placed at index `at`.
pub open spec fn inserted(buffer: Seq<u8>, at: int, bytes: Seq<u8>) -> Seq<u8> {
    buffer.subrange(0, at) + bytes + buffer.subrange(at, buffer.len() as int)
}

/// The mathematical value of a [`KeyHandler`].
pub struct Editor {
    pub buffer: Seq<u8>,
    pub index: int,
    pub execute: bool,
    pub incomplete: Seq<u8>,
    pub prompt: Seq<u8>,
}

impl Editor {
    /// The caret lies within the buffer or at its end.
    pub open spec fn wf(self) -> bool {
        0 <= self.index <= self.buffer.len()
    }

    /// The prompt on display: the continuation prompt while fragments are
    /// pending, the session prompt otherwise.
    pub open spec fn shown_prompt(self) -> Seq<u8> {
        if self.incomplete.len() > 0 {
            continuation_prompt()
        } else {
            self.prompt
        }
    }

    /// The editor with `bytes` inserted at the caret and the caret behind
    /// them.
    pub open spec fn insert(self, bytes: Seq<u8>) -> Editor {
        Editor {
            buffer: inserted(self.buffer, self.index, bytes),
            index: self.index + bytes.len(),
            ..self
        }
    }

    /// The editor after one transition. The submit flag is cleared first, so
    /// it is set afterwards exactly when the transition is a submission.
    pub open spec fn apply(self, t: Transition) -> Editor {
        let s = Editor { execute: false, ..self };
        match t {
            Transition::Exit => s,
            Transition::Insert(c) => s.insert(vstd::utf8::encode_scalar(c as u32)),
            Transition::Backspace => if s.index > 0 {
                Editor { buffer: s.buffer.remove(s.index - 1), index: s.index - 1, ..s }
            } else {
                s
            },
            Transition::Delete => if s.index < s.buffer.len() {
                Editor { buffer: s.buffer.remove(s.index), ..s }
            } else {
                s
            },
            Transition::Tab => s.insert(tab_spaces()),
            Transition::Submit => Editor { execute: true, index: 0, ..s },
            Transition::Home => Editor { index: 0, ..s },
            Transition::End => Editor { index: s.buffer.len() as int, ..s },
            Transition::Left => if s.index > 0 {
                Editor { index: s.index - 1, ..s }
            } else {
                s
            },
            Transition::Right => if s.index < s.buffer.len() {
                Editor { index: s.index + 1, ..s }
            } else {
                s
            },
            Transition::Ignore => s,
        }
    }

    /// The render of the editor: hide the caret, clear the line, go to
    /// column 0, print the prompt and the buffer, put the caret behind the
    /// prompt at its index, show the caret.
    pub open spec fn render(self) -> Seq<Effect> {
        seq![
            Effect::HideCaret,
            Effect::ClearToEndOfLine,
            Effect::MoveToColumn(0),
            Effect::Print(self.shown_prompt()),
            Effect::Print(self.buffer),
            Effect::MoveToColumn(self.shown_prompt().len() + self.index),
            Effect::ShowCaret,
        ]
    }

    /// What one transition sends to the terminal: nothing when it leaves the
    /// shell, else a newline if it submits, then the render of the new state.
    pub open spec fn output(self, t: Transition) -> Seq<Effect> {
        match t {
            Transition::Exit => Seq::empty(),
            Transition::Submit => seq![Effect::Print(seq![10u8])] + self.apply(t).render(),
            _ => self.apply(t).render(),
        }
    }
}

/// The line editor's state.
#[derive(Debug, Clone, PartialEq, Eq)]
pub struct KeyHandler {
    /// The edit buffer.
    pub buffer: Vec<u8>,
    /// The caret: a byte index into the buffer.
    pub index: usize,
    /// The submit flag.
    pub execute: bool,
    /// The continuation buffer.
    pub incomplete: Vec<u8>,
    /// The session prompt.
    pub prompt: Vec<u8>,
}

impl View for KeyHandler {
    type V = Editor;

    open spec fn view(&self) -> Editor {
        Editor {
            buffer: self.buffer@,
            index: self.index as int,
            execute: self.execute,
            incomplete: self.incomplete@,
            prompt: self.prompt@,
        }
    }
}

/// What `process` hands back: whether the shell goes on, and what to send to
/// the terminal.
#[derive(Debug, Clone, PartialEq, Eq)]
pub struct Processed {
    pub keep_going: bool,
    pub output: Vec<Action>,
}

/// The UTF-8 encoding of `c`, by `char::encode_utf8` of the standard
/// library: the one to four bytes that encode the scalar value of `c`.
#[verifier::external_body]
fn utf8_bytes(c: char) -> (r: Vec<u8>)
    ensures
        r@ == vstd::utf8::encode_scalar(c as u32),
{
    let mut buf = [0u8; 4];
    c.encode_utf8(&mut buf).as_bytes().to_vec()
}

/// Places `bytes` into `buffer` at index `at`.
pub fn insert_at(buffer: &mut Vec<u8>, at: usize, bytes: &[u8])
    requires
        at <= old(buffer)@.len(),
    ensures
        final(buffer)@ == inserted(old(buffer)@, at as int, bytes@),
{
    let n: usize = bytes.len();
    let mut k: usize = 0;
    assert(buffer@ =~= inserted(old(buffer)@, at as int, bytes@.subrange(0, 0)));
    while k < n
        invariant
            n == bytes@.len(),
            k <= n,
            at <= old(buffer)@.len(),
            buffer@ == inserted(old(buffer)@, at as int, bytes@.subrange(0, k as int)),
        decreases n - k,
    {
        let len: usize = buffer.len();
        assert(len == old(buffer)@.len() + k);
        buffer.insert(at + k, bytes[k]);
        k += 1;
        assert(buffer@ =~= inserted(old(buffer)@, at as int, bytes@.subrange(0, k as int)));
    }
    assert(bytes@.subrange(0, n as int) =~= bytes@);
}

impl Default for KeyHandler {
    fn default() -> (h: KeyHandler)
        ensures
            h@.buffer.len() == 0,
            h@.index == 0,
            !h@.execute,
            h@.incomplete.len() == 0,
            h@.prompt.len() == 0,
    {
        KeyHandler::new()
    }
}

impl KeyHandler {
    /// An editor with empty buffers, the caret at 0 and an empty prompt.
    pub fn new() -> (h: KeyHandler)
        ensures
            h@.buffer.len() == 0,
            h@.index == 0,
            !h@.execute,
            h@.incomplete.len() == 0,
            h@.prompt.len() == 0,
            h@.wf(),
    {
        KeyHandler {
            buffer: Vec::new(),
            index: 0,
            execute: false,
            incomplete: Vec::new(),
            prompt: Vec::new(),
        }
    }

    /// The prompt on display.
    pub fn shown_prompt(&self) -> (p: Vec<u8>)
        ensures
            p@ == self@.shown_prompt(),
    {
        let mut p: Vec<u8> = Vec::new();
        if self.incomplete.len() > 0 {
            p.push(62u8);
            p.push(32u8);
            assert(p@ =~= continuation_prompt());
        } else {
            append(&mut p, self.prompt.as_slice());
            assert(p@ =~= self.prompt@);
        }
        p
    }

    /// The actions that redraw the prompt, the buffer and the caret.
    pub fn render(&self) -> (r: Vec<Action>)
        ensures
            effects(r@) == self@.render(),
    {
        let prompt = self.shown_prompt();
        let column: u128 = (prompt.len() as u128) + (self.index as u128);
        let mut shown: Vec<u8> = Vec::new();
        append(&mut shown, self.buffer.as_slice());
        assert(shown@ =~= self.buffer@);
        let mut r: Vec<Action> = Vec::new();
        emit(&mut r, Action::HideCaret);
        emit(&mut r, Action::ClearToEndOfLine);
        emit(&mut r, Action::MoveToColumn(0));
        emit(&mut r, Action::Print(prompt));
        emit(&mut r, Action::Print(shown));
        emit(&mut r, Action::MoveToColumn(column));
        emit(&mut r, Action::ShowCaret);
        assert(effects(r@) =~= self@.render());
        r
    }

    /// Applies one key event: clears the submit flag, performs the event's
    /// transition, and says what to send to the terminal. The caret stays
    /// within the buffer.
    pub fn process(&mut self, key: KeyEvent) -> (r: Processed)
        requires
            old(self)@.wf(),
        ensures
            final(self)@ == old(self)@.apply(key.spec_transition()),
            final(self)@.wf(),
            r.keep_going == (key.spec_transition() != Transition::Exit),
            effects(r.output@) == old(self)@.output(key.spec_transition()),
    {
        self.execute = false;
        let t = key.transition();
        let mut output: Vec<Action> = Vec::new();
        match t {
            Transition::Exit => {
                return Processed { keep_going: false, output };
            },
            Transition::Insert(c) => {
                let bytes = utf8_bytes(c);
                insert_at(&mut self.buffer, self.index, bytes.as_slice());
                let len: usize = self.buffer.len();
                assert(len == old(self)@.buffer.len() + bytes@.len());
                self.index = self.index + bytes.len();
            },
            Transition::Backspace => {
                if self.index > 0 {
                    self.index = self.index - 1;
                    self.buffer.remove(self.index);
                }
            },
            Transition::Delete => {
                if self.index < self.buffer.len() {
                    self.buffer.remove(self.index);
                }
            },
            Transition::Tab => {
                let mut spaces: Vec<u8> = Vec::new();
                spaces.push(32u8);
                spaces.push(32u8);
                spaces.push(32u8);
                spaces.push(32u8);
                assert(spaces@ =~= tab_spaces());
                insert_at(&mut self.buffer, self.index, spaces.as_slice());
                let len: usize = self.buffer.len();
                assert(len == old(self)@.buffer.len() + 4);
                self.index = self.index + 4;
            },
            Transition::Submit => {
                self.index = 0;
                self.execute = true;
                let mut newline: Vec<u8> = Vec::new();
                newline.push(10u8);
                assert(newline@ =~= seq![10u8]);
                emit(&mut output, Action::Print(newline));
            },
            Transition::Home => {
                self.index = 0;
            },
            Transition::End => {
                self.index = self.buffer.len();
            },
            Transition::Left => {
                if self.index > 0 {
                    self.index = self.index - 1;
                }
            },
            Transition::Right => {
                if self.index < self.buffer.len() {
                    self.index = self.index + 1;
                }
            },
            Transition::Ignore => {},
        }
        let mut drawn = self.render();
        let ghost before = effects(output@);
        output.append(&mut drawn);
        assert(effects(output@) =~= before + self@.render());
        assert(effects(output@) =~= old(self)@.output(key.spec_transition()));
        Processed { keep_going: true, output }
    }
}

/// Every transition leaves the caret within the buffer or at its end.
pub proof fn lemma_caret_stays_in_buffer(s: Editor, t: Transition)
    requires
        s.wf(),
    ensures
        s.apply(t).wf(),
{
}

/// Inserting a character that takes one byte and then pressing Backspace
/// gives back the buffer and the caret.
pub proof fn lemma_insert_then_backspace(s: Editor, c: char)
    requires
        s.wf(),
        vstd::utf8::has_width_1_encoding(c as u32),
    ensures
        s.apply(Transition::Insert(c)).apply(Transition::Backspace).buffer == s.buffer,
        s.apply(Transition::Insert(c)).apply(Transition::Backspace).index == s.index,
{
    let after = s.apply(Transition::Insert(c)).apply(Transition::Backspace);
    assert(after.buffer =~= s.buffer);
}

/// Home and then End leaves the buffer as it was and the caret at its end.
pub proof fn lemma_home_then_end(s: Editor)
    ensures
        s.apply(Transition::Home).apply(Transition::End).buffer == s.buffer,
        s.apply(Transition::Home).apply(Transition::End).index == s.buffer.len(),
{
}

/// Backspace with the caret at 0 changes neither buffer nor caret.
pub proof fn lemma_backspace_at_start(s: Editor)
    requires
        s.index == 0,
    ensures
        s.apply(Transition::Backspace).buffer == s.buffer,
        s.apply(Transition::Backspace).index == 0,
{
}

/// Delete with the caret at the end of the buffer changes neither buffer
/// nor caret.
pub proof fn lemma_delete_at_end(s: Editor)
    requires
        s.index == s.buffer.len(),
    ensures
        s.apply(Transition::Delete).buffer == s.buffer,
        s.apply(Transition::Delete).index == s.index,
{
}

} // verus!
