//! The modal prompt: a message, labelled fields, action buttons and one
//! cursor that runs over the fields first and the buttons after them.

use crate::editable::{Editable, EvtResult, Field, Key};
use crate::focus::{apply_offset, in_bounds, lemma_shift_stays_in_bounds, shifted};
use vstd::prelude::*;

verus! {

/// What a view did with an event.
#[derive(Clone, Copy, Debug, PartialEq, Eq, Structural)]
pub enum HandleRes {
    /// The view wants to bail out
    Exit(bool),
    /// The event was handled and nothing changed
    Handled,
    /// The event was handled and the ui needs redrawing
    ReDraw,
    /// The event was not handled
    Ignored,
}

/// The actions a prompt can end with.
#[derive(Clone, Copy, Debug, PartialEq, Eq, Structural)]
pub enum PromptButton {
    Yes,
    No,
    Okay,
    Cancel,
    Exit,
}

impl PromptButton {
    /// Whether the action asks to go ahead, as opposed to backing out.
    pub open spec fn affirmative(self) -> bool {
        self is Yes || self is Okay
    }

    /// Whether the action asks to go ahead, as opposed to backing out.
    pub fn is_affirmative(&self) -> (r: bool)
        ensures
            r == self.affirmative(),
    {
        match self {
            PromptButton::Yes => true,
            PromptButton::Okay => true,
            _ => false,
        }
    }

    /// The text shown for the button.
    pub open spec fn text(self) -> Seq<char> {
        match self {
            PromptButton::Yes => "[Yes]"@,
            PromptButton::No => "[No]"@,
            PromptButton::Okay => "[Ok]"@,
            PromptButton::Cancel => "[Cancel]"@,
            PromptButton::Exit => "[Exit]"@,
        }
    }

    /// The text shown for the button.
    pub fn label(&self) -> (r: &'static str)
        ensures
            r@ == self.text(),
    {
        match self {
            PromptButton::Yes => "[Yes]",
            PromptButton::No => "[No]",
            PromptButton::Okay => "[Ok]",
            PromptButton::Cancel => "[Cancel]",
            PromptButton::Exit => "[Exit]",
        }
    }
}

/// A modal form. Cursor positions below `fields.len()` select a field, the
/// positions from there on select a button.
pub struct Prompt {
    pub msg: String,
    pub error: String,
    pub fields: Vec<(String, Editable)>,
    pub buttons: Vec<PromptButton>,
    pub cursor: usize,
    pub action: Option<PromptButton>,
}

/// A prompt as contracts see it.
pub struct Overlay {
    pub msg: Seq<char>,
    pub error: Seq<char>,
    /// Each field with its label.
    pub fields: Seq<(Seq<char>, Field)>,
    pub buttons: Seq<PromptButton>,
    pub cursor: int,
    /// The action the prompt ended with, once it has ended.
    pub action: Option<PromptButton>,
}

/// How far each navigation key moves the prompt cursor.
pub open spec fn prompt_step(key: Key) -> int {
    match key {
        Key::Down => 1,
        Key::Up => -1,
        Key::PageDown => 5,
        Key::PageUp => -5,
        _ => 0,
    }
}

impl Overlay {
    /// A prompt with nothing in it.
    pub open spec fn empty() -> Overlay {
        Overlay {
            msg: seq![],
            error: seq![],
            fields: seq![],
            buttons: seq![],
            cursor: 0,
            action: None,
        }
    }

    /// The number of cursor positions: fields and buttons together, as far
    /// as a cursor can count them.
    pub open spec fn entries(self) -> int {
        let n = (self.fields.len() + self.buttons.len()) as int;
        if n > usize::MAX {
            usize::MAX as int
        } else {
            n
        }
    }

    /// The field under the cursor, if the cursor selects one.
    pub open spec fn focused_field(self) -> Option<Field> {
        if 0 <= self.cursor < self.fields.len() {
            Some(self.fields[self.cursor].1)
        } else {
            None
        }
    }

    /// The button under the cursor, if the cursor selects one.
    pub open spec fn focused_button(self) -> Option<PromptButton> {
        if self.fields.len() <= self.cursor < self.fields.len() + self.buttons.len() {
            Some(self.buttons[self.cursor - self.fields.len()])
        } else {
            None
        }
    }

    /// Whether the cursor selects a field that consumes `key`.
    pub open spec fn field_consumes(self, key: Key) -> bool {
        self.focused_field() matches Some(f) && f.key_result(key) == EvtResult::Continue
    }

    /// The action that Enter chooses: the button under the cursor, else the
    /// first button, else `Okay`.
    pub open spec fn enter_action(self) -> PromptButton {
        match self.focused_button() {
            Some(b) => b,
            None => if self.buttons.len() > 0 {
                self.buttons[0]
            } else {
                PromptButton::Okay
            },
        }
    }

    /// The fields once the field under the cursor, if any, was handed `key`.
    pub open spec fn fields_after(self, key: Key) -> Seq<(Seq<char>, Field)> {
        match self.focused_field() {
            Some(f) => self.fields.update(
                self.cursor,
                (self.fields[self.cursor].0, f.after_key(key)),
            ),
            None => self.fields,
        }
    }

    /// The prompt after `key`. The field under the cursor sees the key
    /// first; unless it consumes the key, the arrow and page keys move the
    /// cursor, Enter chooses an action and Escape chooses `Exit`.
    pub open spec fn after_key(self, key: Key) -> Overlay {
        let fields = self.fields_after(key);
        if self.field_consumes(key) {
            Overlay { fields, ..self }
        } else {
            match key {
                Key::Enter => Overlay { fields, action: Some(self.enter_action()), ..self },
                Key::Esc => Overlay { fields, action: Some(PromptButton::Exit), ..self },
                _ => Overlay {
                    fields,
                    cursor: shifted(self.cursor, prompt_step(key), self.entries()),
                    ..self
                },
            }
        }
    }

    /// What the prompt answers to `key`: a redraw where something changed on
    /// screen, `Exit` where the prompt ends, with whether the chosen action
    /// goes ahead.
    pub open spec fn result_of(self, key: Key) -> HandleRes {
        if self.field_consumes(key) {
            HandleRes::ReDraw
        } else {
            match key {
                Key::Down | Key::Up | Key::PageDown | Key::PageUp => if self.after_key(key).cursor
                    != self.cursor {
                    HandleRes::ReDraw
                } else {
                    HandleRes::Handled
                },
                Key::Enter => HandleRes::Exit(self.enter_action().affirmative()),
                Key::Esc => HandleRes::Exit(false),
                _ => HandleRes::Ignored,
            }
        }
    }

    /// Whether `key` ends the prompt.
    pub open spec fn dismissed_by(self, key: Key) -> bool {
        self.result_of(key) is Exit
    }
}

/// Each field with its label, as contracts see them.
pub open spec fn field_models(fields: Seq<(String, Editable)>) -> Seq<(Seq<char>, Field)> {
    fields.map_values(|e: (String, Editable)| (e.0@, e.1@))
}

impl View for Prompt {
    type V = Overlay;

    open spec fn view(&self) -> Overlay {
        Overlay {
            msg: self.msg@,
            error: self.error@,
            fields: field_models(self.fields@),
            buttons: self.buttons@,
            cursor: self.cursor as int,
            action: self.action,
        }
    }
}

impl Default for Prompt {
    /// A prompt with nothing in it.
    fn default() -> (r: Self)
        ensures
            r@ == Overlay::empty(),
    {
        Prompt::new(None, None, None, None, 0)
    }
}

impl Prompt {
    /// The display value of this view
    pub fn title(&self) -> (r: &'static str)
        ensures
            r@ == "Prompt"@,
    {
        "Prompt"
    }

    /// A prompt from the parts given; what is left out is empty.
    pub fn new(
        msg: Option<&str>,
        error: Option<&str>,
        fields: Option<Vec<(String, Editable)>>,
        buttons: Option<Vec<PromptButton>>,
        cursor: usize,
    ) -> (r: Self)
        ensures
            r@ == (Overlay {
                msg: match msg {
                    Some(m) => m@,
                    None => seq![],
                },
                error: match error {
                    Some(e) => e@,
                    None => seq![],
                },
                fields: match fields {
                    Some(f) => field_models(f@),
                    None => seq![],
                },
                buttons: match buttons {
                    Some(b) => b@,
                    None => seq![],
                },
                cursor: cursor as int,
                action: None,
            }),
    {
        let r = Prompt {
            msg: match msg {
                Some(m) => m.to_owned(),
                None => String::new(),
            },
            error: match error {
                Some(e) => e.to_owned(),
                None => String::new(),
            },
            fields: match fields {
                Some(f) => f,
                None => Vec::new(),
            },
            buttons: match buttons {
                Some(b) => b,
                None => Vec::new(),
            },
            cursor,
            action: None,
        };
        assert(r@.msg =~= match msg {
            Some(m) => m@,
            None => seq![],
        });
        assert(r@.error =~= match error {
            Some(e) => e@,
            None => seq![],
        });
        assert(r@.fields =~= match fields {
            Some(f) => field_models(f@),
            None => seq![],
        });
        assert(r@.buttons =~= match buttons {
            Some(b) => b@,
            None => seq![],
        });
        r
    }

    /// Empties the prompt.
    pub fn clear(&mut self)
        ensures
            final(self)@ == Overlay::empty(),
    {
        self.msg = String::new();
        self.error = String::new();
        self.fields = Vec::new();
        self.buttons = Vec::new();
        self.cursor = 0;
        self.action = None;
        assert(self@.msg =~= seq![]);
        assert(self@.error =~= seq![]);
        assert(self@.fields =~= seq![]);
        assert(self@.buttons =~= seq![]);
    }

    /// The number of cursor positions.
    pub fn num_entries(&self) -> (n: usize)
        ensures
            n == self@.entries(),
    {
        self.fields.len().saturating_add(self.buttons.len())
    }

    /// The field under the cursor, if the cursor selects one.
    pub fn cur_field(&self) -> (r: Option<&Editable>)
        ensures
            match r {
                Some(f) => self@.focused_field() == Some(f@),
                None => self@.focused_field() is None,
            },
    {
        if self.cursor < self.fields.len() {
            Some(&self.fields[self.cursor].1)
        } else {
            None
        }
    }

    /// The button under the cursor, if the cursor selects one.
    pub fn cur_button(&self) -> (r: Option<PromptButton>)
        ensures
            r == self@.focused_button(),
    {
        if self.cursor < self.fields.len() {
            return None;
        }
        let button_idx: usize = self.cursor - self.fields.len();
        if button_idx < self.buttons.len() {
            Some(self.buttons[button_idx])
        } else {
            None
        }
    }

    /// Performs the required logic based on incoming key events.
    ///
    /// The field under the cursor sees the key first. Unless it consumes the
    /// key, the arrow and page keys move the cursor over fields and buttons,
    /// Enter chooses an action and Escape chooses `Exit`; both end the
    /// prompt.
    pub fn handle_event(&mut self, key: &Key) -> (r: HandleRes)
        ensures
            final(self)@ == old(self)@.after_key(*key),
            r == old(self)@.result_of(*key),
    {
        if self.cursor < self.fields.len() {
            let r = self.fields[self.cursor].1.handle_event(key);
            assert(self@.fields =~= old(self)@.fields_after(*key));
            if r == EvtResult::Continue {
                return HandleRes::ReDraw;
            }
        }
        assert(self@.fields =~= old(self)@.fields_after(*key));
        let amount: isize = match key {
            Key::Down => 1,
            Key::Up => -1,
            Key::PageDown => 5,
            Key::PageUp => -5,
            Key::Enter => {
                let action = match self.cur_button() {
                    Some(b) => b,
                    None => if self.buttons.len() > 0 {
                        self.buttons[0]
                    } else {
                        PromptButton::Okay
                    },
                };
                self.action = Some(action);
                return HandleRes::Exit(action.is_affirmative());
            },
            Key::Esc => {
                self.action = Some(PromptButton::Exit);
                return HandleRes::Exit(false);
            },
            _ => {
                return HandleRes::Ignored;
            },
        };
        let old_cursor: usize = self.cursor;
        let max: usize = self.num_entries();
        let _ = apply_offset(&mut self.cursor, amount, max);
        if old_cursor != self.cursor {
            HandleRes::ReDraw
        } else {
            HandleRes::Handled
        }
    }
}

/// A cursor that is on a field or a button stays on one, whatever key the
/// prompt is handed; and a key that moves the cursor forward brings it onto
/// one from wherever it was.
pub proof fn lemma_prompt_cursor_stays_inside(prompt: Overlay, key: Key)
    requires
        prompt.cursor >= 0,
        in_bounds(prompt.cursor, prompt.entries()) || (prompt_step(key) > 0
            && !prompt.field_consumes(key)),
    ensures
        in_bounds(prompt.after_key(key).cursor, prompt.after_key(key).entries()),
{
    assert(prompt.after_key(key).fields.len() == prompt.fields.len());
    if !prompt.field_consumes(key) && key != Key::Enter && key != Key::Esc {
        lemma_shift_stays_in_bounds(prompt.cursor, prompt_step(key), prompt.entries());
    }
}

/// Escape ends the prompt with `Exit` wherever the cursor is, and Enter ends
/// it with the button under the cursor unless a flag under the cursor takes
/// the key for itself.
pub proof fn lemma_prompt_dismissal(prompt: Overlay)
    ensures
        prompt.after_key(Key::Esc).action == Some(PromptButton::Exit),
        prompt.result_of(Key::Esc) == HandleRes::Exit(false),
        prompt.focused_button() matches Some(b) ==> prompt.after_key(Key::Enter).action == Some(b)
            && prompt.result_of(Key::Enter) == HandleRes::Exit(b.affirmative()),
{
}

} // verus!
