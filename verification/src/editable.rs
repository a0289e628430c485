//! Editable fields: read-only and mutable text and flags, with a text cursor
//! that always sits on a character boundary, a lazily captured baseline, and
//! single-level revert.

use crate::text::{
    byte_len, byte_offset, char_index, decode_char, lemma_boundary, lemma_boundary_iff,
    lemma_encode_injective, lemma_insert_offsets, lemma_offset_ends, lemma_offset_is_boundary,
    lemma_offset_step, lemma_position, lemma_remove_offsets, lemma_split_encoding,
    lemma_window_at_char, next_boundary, on_boundary, prev_boundary, str_byte_len, string_insert,
    string_remove,
};
use vstd::prelude::*;
use vstd::string::StringSliceAdditionalSpecFns;
use vstd::utf8::{encode_utf8, is_char_boundary};

verus! {

/// A key press, as far as this library tells keys apart.
#[derive(Clone, Copy, Debug, PartialEq, Eq, Structural)]
pub enum Key {
    Char(char),
    Enter,
    Esc,
    Backspace,
    Delete,
    Left,
    Right,
    Up,
    Down,
    Home,
    End,
    PageUp,
    PageDown,
    Tab,
    BackTab,
    F(u8),
    Other,
}

/// What a field did with a key.
#[derive(Clone, Copy, Debug, PartialEq, Eq, Structural)]
pub enum EvtResult {
    /// The key was consumed and editing goes on.
    Continue,
    /// Editing of this field is over.
    Stop,
    /// The key is not for this field.
    Pass,
}

/// How a piece of a rendered field is to be shown.
#[derive(Clone, Copy, Debug, PartialEq, Eq, Structural)]
pub enum SegmentStyle {
    /// No styling of its own.
    Plain,
    /// The value or character under edit.
    Active,
    /// Stands for the cursor where no character is under it.
    Placeholder,
}

/// A run of whole characters with one style.
#[derive(Clone, Copy, Debug, PartialEq, Eq)]
pub struct Segment<'a> {
    pub text: &'a str,
    pub style: SegmentStyle,
}

/// A text under edit: its characters, the baseline captured before the first
/// change, and the number of characters before the cursor.
pub struct Draft {
    pub text: Seq<char>,
    pub baseline: Option<Seq<char>>,
    pub pos: int,
}

/// What a first change leaves as the baseline: the earlier baseline if there
/// was one, else the text as it was before the change.
pub open spec fn snapshot<T>(baseline: Option<T>, current: T) -> Option<T> {
    match baseline {
        Some(o) => Some(o),
        None => Some(current),
    }
}

impl Draft {
    /// The cursor is at a character position of the text.
    pub open spec fn wf(self) -> bool {
        0 <= self.pos <= self.text.len()
    }

    /// A fresh text with the cursor after its last character.
    pub open spec fn fresh(text: Seq<char>) -> Draft {
        Draft { text, baseline: None, pos: text.len() as int }
    }

    /// Whether a baseline exists and differs from the text.
    pub open spec fn dirty(self) -> bool {
        self.baseline matches Some(o) && o != self.text
    }

    /// The same draft with the baseline captured, if it was not yet.
    pub open spec fn saved(self) -> Draft {
        Draft { baseline: snapshot(self.baseline, self.text), ..self }
    }

    /// `c` typed at the cursor.
    pub open spec fn inserted(self, c: char) -> Draft {
        Draft {
            text: self.text.insert(self.pos, c),
            baseline: snapshot(self.baseline, self.text),
            pos: self.pos + 1,
        }
    }

    /// The character at the cursor removed, if there is one.
    pub open spec fn deleted(self) -> Draft {
        if self.pos < self.text.len() {
            Draft {
                text: self.text.remove(self.pos),
                baseline: snapshot(self.baseline, self.text),
                pos: self.pos,
            }
        } else {
            self
        }
    }

    /// The character before the cursor removed, if there is one.
    pub open spec fn backspaced(self) -> Draft {
        if self.pos > 0 {
            Draft {
                text: self.text.remove(self.pos - 1),
                baseline: snapshot(self.baseline, self.text),
                pos: self.pos - 1,
            }
        } else {
            self
        }
    }

    /// The cursor one character back, if it is not at the start.
    pub open spec fn moved_left(self) -> Draft {
        if self.pos > 0 {
            Draft { pos: self.pos - 1, ..self }
        } else {
            self
        }
    }

    /// The cursor one character forward, if it is not at the end.
    pub open spec fn moved_right(self) -> Draft {
        if self.pos < self.text.len() {
            Draft { pos: self.pos + 1, ..self }
        } else {
            self
        }
    }

    /// The cursor before the first character.
    pub open spec fn at_home(self) -> Draft {
        Draft { pos: 0, ..self }
    }

    /// The cursor after the last character.
    pub open spec fn at_end(self) -> Draft {
        Draft { pos: self.text.len() as int, ..self }
    }

    /// The baseline back in place as the text, with the cursor at its end;
    /// unchanged where there is no baseline. The baseline stays.
    pub open spec fn restored(self) -> Draft {
        match self.baseline {
            Some(o) => Draft { text: o, baseline: self.baseline, pos: o.len() as int },
            None => self,
        }
    }

    /// The baseline dropped.
    pub open spec fn forgotten(self) -> Draft {
        Draft { baseline: None, ..self }
    }
}

/// A mutable text with its editing cursor and its baseline.
pub struct MutStr {
    cur: String,
    orig: Option<String>,
    cursor: usize,
}

impl View for MutStr {
    type V = Draft;

    closed spec fn view(&self) -> Draft {
        Draft {
            text: self.cur@,
            baseline: match self.orig {
                Some(o) => Some(o@),
                None => None,
            },
            pos: char_index(self.cur@, self.cursor as int),
        }
    }
}

impl MutStr {
    /// The cursor is a byte offset on a character boundary of the text.
    #[verifier::type_invariant]
    pub closed spec fn valid(&self) -> bool {
        on_boundary(self.cur@, self.cursor as int)
    }

    /// A text without baseline, with the cursor after its last character.
    pub fn new(s: &str) -> (r: MutStr)
        ensures
            r@ == Draft::fresh(s@),
    {
        let cursor: usize = str_byte_len(s);
        proof {
            lemma_offset_ends(s@);
            lemma_position(s@, s@.len() as int);
        }
        MutStr { cur: s.to_owned(), orig: None, cursor }
    }

    /// Does nothing when run; tells the caller's proof that the cursor of a
    /// text that exists is at a character position.
    pub fn note_wf(&self)
        ensures
            self@.wf(),
    {
        proof {
            use_type_invariant(self);
            lemma_boundary(self.cur@, self.cursor as int);
        }
    }

    /// The cursor as a byte offset into the text: the encoded length of the
    /// characters before it, which is always a character boundary.
    pub fn cursor(&self) -> (r: usize)
        ensures
            self@.wf(),
            r == byte_offset(self@.text, self@.pos),
            on_boundary(self@.text, r as int),
    {
        proof {
            use_type_invariant(self);
            lemma_boundary(self.cur@, self.cursor as int);
        }
        self.cursor
    }

    /// The current text.
    pub fn as_str(&self) -> (r: &str)
        ensures
            r@ == self@.text,
    {
        self.cur.as_str()
    }

    /// Whether a baseline exists and differs from the current text.
    pub fn is_changed(&self) -> (r: bool)
        ensures
            r == self@.dirty(),
    {
        match &self.orig {
            Some(o) => !(self.cur == *o),
            None => false,
        }
    }

    /// Saves the current value if nothing is already saved.
    pub fn save_cur(&mut self)
        ensures
            final(self)@ == old(self)@.saved(),
    {
        proof {
            use_type_invariant(&*self);
        }
        if self.orig.is_none() {
            self.orig = Some(self.cur.clone());
        }
    }

    /// Takes the text out for a change, leaving an empty text with the
    /// cursor at its start in its place.
    fn take_text(&mut self) -> (text: String)
        ensures
            text@ == old(self).cur@,
            final(self).cur@.len() == 0,
            final(self).cursor == 0,
            final(self).orig == old(self).orig,
    {
        proof {
            lemma_offset_ends(self.cur@);
            lemma_offset_ends(Seq::<char>::empty());
        }
        self.cursor = 0;
        let mut text = String::new();
        core::mem::swap(&mut self.cur, &mut text);
        text
    }

    /// Puts a text in place of the empty one, with the cursor at `cursor`.
    fn put_text(&mut self, text: String, cursor: usize)
        requires
            old(self).cursor == 0,
            on_boundary(text@, cursor as int),
        ensures
            final(self).cur@ == text@,
            final(self).cursor == cursor,
            final(self).orig == old(self).orig,
    {
        proof {
            lemma_offset_ends(text@);
        }
        let mut text = text;
        core::mem::swap(&mut self.cur, &mut text);
        self.cursor = cursor;
    }

    /// Inserts `c` at the cursor and moves the cursor past it.
    pub fn insert(&mut self, c: char)
        ensures
            old(self)@.wf(),
            final(self)@ == old(self)@.inserted(c),
    {
        self.save_cur();
        let ghost before = self.cur@;
        let ghost pos = char_index(self.cur@, self.cursor as int);
        proof {
            use_type_invariant(&*self);
            lemma_boundary(before, self.cursor as int);
            lemma_insert_offsets(before, pos, c);
            lemma_position(before.insert(pos, c), pos + 1);
        }
        let cursor: usize = self.cursor;
        let mut text = self.take_text();
        let behind: usize = str_byte_len(text.as_str()) - cursor;
        string_insert(&mut text, cursor, c);
        let moved: usize = str_byte_len(text.as_str()) - behind;
        self.put_text(text, moved);
    }

    /// Removes the character at the cursor, if the cursor is not at the end.
    /// Returns whether a character was removed.
    pub fn delete(&mut self) -> (removed: bool)
        ensures
            old(self)@.wf(),
            removed == (old(self)@.pos < old(self)@.text.len()),
            final(self)@ == old(self)@.deleted(),
    {
        proof {
            use_type_invariant(&*self);
            lemma_boundary(self.cur@, self.cursor as int);
        }
        if self.cursor < str_byte_len(self.cur.as_str()) {
            self.save_cur();
            let ghost before = self.cur@;
            let ghost pos = char_index(self.cur@, self.cursor as int);
            proof {
                use_type_invariant(&*self);
                lemma_boundary(before, self.cursor as int);
                lemma_remove_offsets(before, pos);
                lemma_position(before.remove(pos), pos);
            }
            let cursor: usize = self.cursor;
            let mut text = self.take_text();
            let _ = string_remove(&mut text, cursor);
            self.put_text(text, cursor);
            true
        } else {
            false
        }
    }

    /// Removes the character before the cursor, if there is one, and moves
    /// the cursor back by it. Returns whether a character was removed.
    pub fn backspace(&mut self) -> (removed: bool)
        ensures
            old(self)@.wf(),
            removed == (old(self)@.pos > 0),
            final(self)@ == old(self)@.backspaced(),
    {
        proof {
            use_type_invariant(&*self);
            lemma_boundary(self.cur@, self.cursor as int);
        }
        if self.cursor > 0 {
            self.save_cur();
            let ghost before = self.cur@;
            let ghost pos = char_index(self.cur@, self.cursor as int);
            proof {
                use_type_invariant(&*self);
                lemma_boundary(before, self.cursor as int);
                lemma_position(before, pos - 1);
                lemma_remove_offsets(before, pos - 1);
                lemma_position(before.remove(pos - 1), pos - 1);
            }
            let start: usize = prev_boundary(self.cur.as_str(), self.cursor);
            let mut text = self.take_text();
            let _ = string_remove(&mut text, start);
            self.put_text(text, start);
            true
        } else {
            false
        }
    }

    /// Moves the cursor one character back, if it is not at the start.
    /// Returns whether it moved.
    pub fn left(&mut self) -> (moved: bool)
        ensures
            old(self)@.wf(),
            moved == (old(self)@.pos > 0),
            final(self)@ == old(self)@.moved_left(),
    {
        proof {
            use_type_invariant(&*self);
            lemma_boundary(self.cur@, self.cursor as int);
        }
        if self.cursor > 0 {
            proof {
                lemma_position(self.cur@, char_index(self.cur@, self.cursor as int) - 1);
            }
            self.cursor = prev_boundary(self.cur.as_str(), self.cursor);
            true
        } else {
            false
        }
    }

    /// Moves the cursor one character forward, if it is not at the end.
    /// Returns whether it moved.
    pub fn right(&mut self) -> (moved: bool)
        ensures
            old(self)@.wf(),
            moved == (old(self)@.pos < old(self)@.text.len()),
            final(self)@ == old(self)@.moved_right(),
    {
        proof {
            use_type_invariant(&*self);
            lemma_boundary(self.cur@, self.cursor as int);
        }
        if self.cursor < str_byte_len(self.cur.as_str()) {
            proof {
                lemma_position(self.cur@, char_index(self.cur@, self.cursor as int) + 1);
            }
            self.cursor = next_boundary(self.cur.as_str(), self.cursor);
            true
        } else {
            false
        }
    }

    /// Moves the cursor before the first character.
    pub fn home(&mut self)
        ensures
            final(self)@ == old(self)@.at_home(),
    {
        proof {
            lemma_position(self.cur@, 0);
            lemma_offset_ends(self.cur@);
        }
        self.cursor = 0;
    }

    /// Moves the cursor after the last character.
    pub fn end(&mut self)
        ensures
            final(self)@ == old(self)@.at_end(),
    {
        proof {
            lemma_position(self.cur@, self.cur@.len() as int);
            lemma_offset_ends(self.cur@);
        }
        self.cursor = str_byte_len(self.cur.as_str());
    }

    /// The text cut at the cursor: what stands before the cursor, the
    /// character under it unless the cursor is at the end, and what follows
    /// that character. Every cut falls between two characters.
    pub fn parts(&self) -> (r: (&str, Option<&str>, &str))
        ensures
            self@.wf(),
            r.0@ == self@.text.take(self@.pos),
            r.1 is Some <==> self@.pos < self@.text.len(),
            r.1 matches Some(under) ==> under@ == seq![self@.text[self@.pos]],
            r.2@ == Field::after_cursor(self@),
    {
        let cur = self.cur.as_str();
        let ghost text = self.cur@;
        let ghost pos = char_index(text, self.cursor as int);
        proof {
            use_type_invariant(self);
            lemma_boundary(text, self.cursor as int);
            lemma_boundary_iff(text, self.cursor as int);
            lemma_split_encoding(text, pos);
        }
        let (before, rest) = cur.split_at(self.cursor);
        proof {
            lemma_encode_injective(before@, text.take(pos));
            lemma_encode_injective(rest@, text.skip(pos));
        }
        if self.cursor < str_byte_len(cur) {
            let under = decode_char(cur.as_bytes(), self.cursor);
            proof {
                lemma_window_at_char(text, pos);
                lemma_offset_step(text, pos);
                lemma_encode_injective(under@, seq![text[pos]]);
                lemma_offset_step(rest@, 0);
                lemma_offset_ends(rest@);
                lemma_offset_is_boundary(rest@, 1);
                lemma_split_encoding(rest@, 1);
            }
            let (_, after) = rest.split_at(str_byte_len(under));
            proof {
                lemma_encode_injective(after@, rest@.skip(1));
                assert(rest@.skip(1) =~= text.skip(pos + 1));
            }
            (before, Some(under), after)
        } else {
            proof {
                assert(rest@ =~= Seq::<char>::empty());
            }
            (before, None, rest)
        }
    }

    /// Puts the baseline back as the text, where there is one, with the
    /// cursor after its last character. The baseline is kept.
    pub fn restore_orig(&mut self)
        ensures
            final(self)@ == old(self)@.restored(),
    {
        let restored = match &self.orig {
            Some(o) => Some(o.clone()),
            None => None,
        };
        match restored {
            Some(text) => {
                proof {
                    lemma_position(self.cur@, 0);
                    lemma_offset_ends(self.cur@);
                    lemma_position(text@, 0);
                    lemma_offset_ends(text@);
                    lemma_position(text@, text@.len() as int);
                }
                self.cursor = 0;
                self.cur = text;
                self.cursor = str_byte_len(self.cur.as_str());
            },
            None => {},
        }
    }

    /// Drops the baseline, so that the current text counts as unchanged.
    pub fn forget_orig(&mut self)
        ensures
            final(self)@ == old(self)@.forgotten(),
    {
        proof {
            use_type_invariant(&*self);
        }
        self.orig = None;
    }
}

/// A field as contracts see it.
pub enum Field {
    /// A text that cannot be edited.
    ConstStr(Seq<char>),
    /// A flag that cannot be edited.
    ConstBool(bool),
    /// A text under edit.
    Str(Draft),
    /// A flag and the value it had before its first toggle, if it was toggled.
    Bool(bool, Option<bool>),
}

/// The text that stands for a flag.
pub open spec fn flag_text(b: bool) -> Seq<char> {
    if b {
        "true"@
    } else {
        "false"@
    }
}

impl Field {
    /// A text field has its cursor at a character position.
    pub open spec fn wf(self) -> bool {
        self matches Field::Str(d) ==> d.wf()
    }

    /// The canonical text of the field.
    pub open spec fn as_text(self) -> Seq<char> {
        match self {
            Field::ConstStr(s) => s,
            Field::ConstBool(b) => flag_text(b),
            Field::Str(d) => d.text,
            Field::Bool(b, _) => flag_text(b),
        }
    }

    /// Whether the field has a baseline that differs from its value.
    pub open spec fn dirty(self) -> bool {
        match self {
            Field::Str(d) => d.dirty(),
            Field::Bool(cur, Some(o)) => cur != o,
            _ => false,
        }
    }

    /// Whether the field can be edited at all.
    pub open spec fn editable(self) -> bool {
        self is Str || self is Bool
    }

    /// The field with its baseline put back as its value. The baseline stays.
    pub open spec fn restored(self) -> Field {
        match self {
            Field::Str(d) => Field::Str(d.restored()),
            Field::Bool(_, Some(o)) => Field::Bool(o, Some(o)),
            _ => self,
        }
    }

    /// The field with its baseline dropped.
    pub open spec fn forgotten(self) -> Field {
        match self {
            Field::Str(d) => Field::Str(d.forgotten()),
            Field::Bool(cur, _) => Field::Bool(cur, None),
            _ => self,
        }
    }

    /// The field after it was handed `key`.
    pub open spec fn after_key(self, key: Key) -> Field {
        match self {
            Field::Str(d) => match key {
                Key::Char(c) => Field::Str(d.inserted(c)),
                Key::Delete => Field::Str(d.deleted()),
                Key::Backspace => Field::Str(d.backspaced()),
                Key::Left => Field::Str(d.moved_left()),
                Key::Right => Field::Str(d.moved_right()),
                Key::Home => Field::Str(d.at_home()),
                Key::End => Field::Str(d.at_end()),
                Key::Esc => Field::Str(d.restored()),
                _ => self,
            },
            Field::Bool(cur, orig) => match key {
                Key::Enter => Field::Bool(!cur, snapshot(orig, cur)),
                _ => self,
            },
            _ => self,
        }
    }

    /// What the field answers when it is handed `key`.
    pub open spec fn key_result(self, key: Key) -> EvtResult {
        match self {
            Field::Str(_) => match key {
                Key::Char(_)
                | Key::Delete
                | Key::Backspace
                | Key::Left
                | Key::Right
                | Key::Home
                | Key::End => EvtResult::Continue,
                Key::Esc | Key::Enter => EvtResult::Stop,
                _ => EvtResult::Pass,
            },
            Field::Bool(_, _) => match key {
                Key::Enter => EvtResult::Continue,
                _ => EvtResult::Pass,
            },
            _ => EvtResult::Pass,
        }
    }

    /// The character under the cursor as the active piece, or a placeholder
    /// blank where the cursor is at the end of the text.
    pub open spec fn cursor_piece(d: Draft) -> (Seq<char>, SegmentStyle) {
        if d.pos < d.text.len() {
            (seq![d.text[d.pos]], SegmentStyle::Active)
        } else {
            (" "@, SegmentStyle::Placeholder)
        }
    }

    /// What follows the character under the cursor.
    pub open spec fn after_cursor(d: Draft) -> Seq<char> {
        if d.pos < d.text.len() {
            d.text.skip(d.pos + 1)
        } else {
            seq![]
        }
    }

    /// The styled pieces that show the field. Outside editing the whole value
    /// is one plain piece. A text under edit always shows three pieces: what
    /// is before the cursor, then the character under the cursor as the
    /// active piece (a placeholder blank where the cursor is at the end of
    /// the text), then what follows that character. The first and the last
    /// piece are empty where nothing stands there. A flag under edit is one
    /// active piece.
    pub open spec fn segments(self, is_editing: bool) -> Seq<(Seq<char>, SegmentStyle)> {
        if !is_editing {
            seq![(self.as_text(), SegmentStyle::Plain)]
        } else {
            match self {
                Field::Str(d) => seq![
                    (d.text.take(d.pos), SegmentStyle::Plain),
                    Field::cursor_piece(d),
                    (Field::after_cursor(d), SegmentStyle::Plain),
                ],
                _ => seq![(self.as_text(), SegmentStyle::Active)],
            }
        }
    }
}

/// The text and style of each segment.
pub open spec fn rendered(segments: Seq<Segment>) -> Seq<(Seq<char>, SegmentStyle)> {
    segments.map_values(|s: Segment| (s.text@, s.style))
}

/// One unit of data on screen: a text or a flag, read-only or editable.
pub enum Editable {
    ConstStr(String),
    ConstBool(bool),
    Str(MutStr),
    Bool(bool, Option<bool>),
}

impl View for Editable {
    type V = Field;

    open spec fn view(&self) -> Field {
        match self {
            Editable::ConstStr(s) => Field::ConstStr(s@),
            Editable::ConstBool(b) => Field::ConstBool(*b),
            Editable::Str(m) => Field::Str(m@),
            Editable::Bool(cur, orig) => Field::Bool(*cur, *orig),
        }
    }
}

impl Editable {
    /// Constructs a read only string
    pub fn ro_string(s: &str) -> (r: Self)
        ensures
            r@ == Field::ConstStr(s@),
    {
        Editable::ConstStr(s.to_owned())
    }

    /// Constructs a read only bool
    pub fn ro_bool(b: bool) -> (r: Self)
        ensures
            r@ == Field::ConstBool(b),
    {
        Editable::ConstBool(b)
    }

    /// Constructs an editable string
    pub fn string(s: &str) -> (r: Self)
        ensures
            r@ == Field::Str(Draft::fresh(s@)),
    {
        Editable::Str(MutStr::new(s))
    }

    /// Constructs an editable bool
    pub fn bool(b: bool) -> (r: Self)
        ensures
            r@ == Field::Bool(b, None),
    {
        Editable::Bool(b, None)
    }

    /// Returns the contents of the field as a string
    pub fn as_str(&self) -> (r: &str)
        ensures
            r@ == self@.as_text(),
    {
        match self {
            Editable::ConstStr(s) => s.as_str(),
            Editable::Str(m) => m.as_str(),
            Editable::Bool(b, _) => if *b {
                "true"
            } else {
                "false"
            },
            Editable::ConstBool(b) => if *b {
                "true"
            } else {
                "false"
            },
        }
    }

    /// The byte offset of the cursor, for a text under edit. It is always a
    /// character boundary of the text.
    pub fn cursor(&self) -> (r: Option<usize>)
        ensures
            self@.wf(),
            match self@ {
                Field::Str(d) => r == Some(byte_offset(d.text, d.pos) as usize) && on_boundary(
                    d.text,
                    byte_offset(d.text, d.pos),
                ) && byte_offset(d.text, d.pos) <= usize::MAX,
                _ => r is None,
            },
    {
        match self {
            Editable::Str(m) => Some(m.cursor()),
            _ => None,
        }
    }

    /// Returns the contents of the field as styled segments
    pub fn as_spans<'a>(&'a self, is_editing: bool) -> (r: Vec<Segment<'a>>)
        ensures
            self@.wf(),
            rendered(r@) == self@.segments(is_editing),
    {
        self.note_wf();
        let mut r: Vec<Segment<'a>> = Vec::new();
        if !is_editing {
            r.push(Segment { text: self.as_str(), style: SegmentStyle::Plain });
            proof {
                assert(rendered(r@) =~= self@.segments(is_editing));
            }
            return r;
        }
        match self {
            Editable::Str(m) => {
                let (before, under, after) = m.parts();
                r.push(Segment { text: before, style: SegmentStyle::Plain });
                match under {
                    Some(c) => {
                        r.push(Segment { text: c, style: SegmentStyle::Active });
                    },
                    None => {
                        r.push(Segment { text: " ", style: SegmentStyle::Placeholder });
                    },
                }
                r.push(Segment { text: after, style: SegmentStyle::Plain });
                proof {
                    assert(rendered(r@) =~= self@.segments(is_editing));
                }
            },
            _ => {
                r.push(Segment { text: self.as_str(), style: SegmentStyle::Active });
                proof {
                    assert(rendered(r@) =~= self@.segments(is_editing));
                }
            },
        }
        r
    }

    /// Key events forwarded while the field is under edit.
    ///
    /// A flag toggles on Enter. A text takes typed characters at the cursor,
    /// removes with Delete and Backspace, moves the cursor by whole
    /// characters with Left, Right, Home and End, goes back to its baseline
    /// on Escape, and ends editing on Escape and Enter. Every other key is
    /// passed on.
    pub fn handle_event(&mut self, key: &Key) -> (r: EvtResult)
        ensures
            old(self)@.wf(),
            final(self)@.wf(),
            final(self)@ == old(self)@.after_key(*key),
            r == old(self)@.key_result(*key),
    {
        self.note_wf();
        match self {
            Editable::Bool(cur, orig) => {
                match key {
                    Key::Enter => {
                        if orig.is_none() {
                            *orig = Some(*cur);
                        }
                        *cur = !*cur;
                        EvtResult::Continue
                    },
                    _ => EvtResult::Pass,
                }
            },
            Editable::Str(s) => {
                match key {
                    Key::Char(c) => {
                        s.insert(*c);
                        EvtResult::Continue
                    },
                    Key::Delete => {
                        let _ = s.delete();
                        EvtResult::Continue
                    },
                    Key::Backspace => {
                        let _ = s.backspace();
                        EvtResult::Continue
                    },
                    Key::Left => {
                        let _ = s.left();
                        EvtResult::Continue
                    },
                    Key::Right => {
                        let _ = s.right();
                        EvtResult::Continue
                    },
                    Key::End => {
                        s.end();
                        EvtResult::Continue
                    },
                    Key::Home => {
                        s.home();
                        EvtResult::Continue
                    },
                    Key::Esc => {
                        s.restore_orig();
                        EvtResult::Stop
                    },
                    Key::Enter => EvtResult::Stop,
                    _ => EvtResult::Pass,
                }
            },
            _ => EvtResult::Pass,
        }
    }

    /// If the contents have been modified
    pub fn is_changed(&self) -> (r: bool)
        ensures
            r == self@.dirty(),
    {
        match self {
            Editable::ConstBool(_) => false,
            Editable::ConstStr(_) => false,
            Editable::Bool(cur, orig) => match orig {
                Some(o) => *cur != *o,
                None => false,
            },
            Editable::Str(s) => s.is_changed(),
        }
    }

    /// Whether this field can be edited
    pub fn is_editable(&self) -> (r: bool)
        ensures
            r == self@.editable(),
    {
        match self {
            Editable::ConstStr(_) => false,
            Editable::ConstBool(_) => false,
            _ => true,
        }
    }

    /// Puts the baseline back as the value, where there is one. The baseline
    /// is kept, so the field is clean afterwards and a second call changes
    /// nothing more.
    pub fn restore_orig(&mut self)
        ensures
            final(self)@ == old(self)@.restored(),
    {
        match self {
            Editable::Str(s) => {
                s.restore_orig();
            },
            Editable::Bool(cur, orig) => {
                match orig {
                    Some(v) => {
                        *cur = *v;
                    },
                    None => {},
                }
            },
            _ => {},
        }
    }

    /// Drops the baseline, so that the current value counts as unchanged.
    pub fn forget_orig(&mut self)
        ensures
            final(self)@ == old(self)@.forgotten(),
    {
        match self {
            Editable::Str(s) => {
                s.forget_orig();
            },
            Editable::Bool(_cur, orig) => {
                *orig = None;
            },
            _ => {},
        }
    }

    /// Does nothing when run; tells the caller's proof that a field that
    /// exists has its cursor at a character position.
    pub fn note_wf(&self)
        ensures
            self@.wf(),
    {
        match self {
            Editable::Str(m) => {
                m.note_wf();
            },
            _ => {},
        }
    }
}

impl From<&str> for Editable {
    /// A read-only text.
    fn from(v: &str) -> (r: Self)
        ensures
            r@ == Field::ConstStr(v@),
    {
        Editable::ConstStr(v.to_owned())
    }
}

impl vstd::std_specs::convert::FromSpecImpl<&str> for Editable {
    open spec fn obeys_from_spec() -> bool {
        false
    }

    open spec fn from_spec(v: &str) -> Self {
        arbitrary()
    }
}

impl From<String> for Editable {
    /// A text that can be edited, with the cursor after its last character.
    fn from(v: String) -> (r: Self)
        ensures
            r@ == Field::Str(Draft::fresh(v@)),
    {
        let cursor: usize = str_byte_len(v.as_str());
        proof {
            lemma_offset_ends(v@);
            lemma_position(v@, v@.len() as int);
        }
        Editable::Str(MutStr { cur: v, orig: None, cursor })
    }
}

impl vstd::std_specs::convert::FromSpecImpl<String> for Editable {
    open spec fn obeys_from_spec() -> bool {
        true
    }

    closed spec fn from_spec(v: String) -> Self {
        Editable::Str(MutStr { cur: v, orig: None, cursor: byte_len(v@) as usize })
    }
}

impl From<&bool> for Editable {
    /// A read-only flag.
    fn from(v: &bool) -> (r: Self)
        ensures
            r@ == Field::ConstBool(*v),
    {
        Editable::ConstBool(*v)
    }
}

impl vstd::std_specs::convert::FromSpecImpl<&bool> for Editable {
    open spec fn obeys_from_spec() -> bool {
        true
    }

    open spec fn from_spec(v: &bool) -> Self {
        Editable::ConstBool(*v)
    }
}

impl From<&mut bool> for Editable {
    /// A flag that can be edited.
    fn from(v: &mut bool) -> (r: Self)
        ensures
            r@ == Field::Bool(*old(v), None),
            *final(v) == *old(v),
    {
        Editable::Bool(*v, None)
    }
}

impl vstd::std_specs::convert::FromSpecImpl<&mut bool> for Editable {
    open spec fn obeys_from_spec() -> bool {
        true
    }

    open spec fn from_spec(v: &mut bool) -> Self {
        Editable::Bool(*v, None)
    }
}

impl Field {
    /// The value the field goes back to on revert: its baseline, or its
    /// current value where nothing was changed yet.
    pub open spec fn pre_edit_text(self) -> Seq<char> {
        match self {
            Field::Str(d) => match d.baseline {
                Some(o) => o,
                None => d.text,
            },
            Field::Bool(_, Some(o)) => flag_text(o),
            _ => self.as_text(),
        }
    }

    /// The field after it was handed each of `keys`, first to last.
    pub open spec fn after_keys(self, keys: Seq<Key>) -> Field
        decreases keys.len(),
    {
        if keys.len() == 0 {
            self
        } else {
            self.after_keys(keys.drop_last()).after_key(keys.last())
        }
    }
}

/// The text that a rendering shows, the cursor placeholder left out.
pub open spec fn shown_text(segments: Seq<(Seq<char>, SegmentStyle)>) -> Seq<char>
    decreases segments.len(),
{
    if segments.len() == 0 {
        seq![]
    } else if segments.last().1 == SegmentStyle::Placeholder {
        shown_text(segments.drop_last())
    } else {
        shown_text(segments.drop_last()) + segments.last().0
    }
}

/// Whatever keys a text field is handed, its cursor stays at a character
/// position, and the byte offset of that position is a character boundary
/// of the text's UTF-8 encoding.
pub proof fn lemma_cursor_stays_on_boundary(field: Field, keys: Seq<Key>)
    requires
        field.wf(),
    ensures
        field.after_keys(keys).wf(),
        field.after_keys(keys) matches Field::Str(d) ==> on_boundary(
            d.text,
            byte_offset(d.text, d.pos),
        ) && is_char_boundary(encode_utf8(d.text), byte_offset(d.text, d.pos)),
    decreases keys.len(),
{
    if keys.len() > 0 {
        lemma_cursor_stays_on_boundary(field, keys.drop_last());
    }
    match field.after_keys(keys) {
        Field::Str(d) => {
            lemma_position(d.text, d.pos);
            lemma_offset_is_boundary(d.text, d.pos);
        },
        _ => {},
    }
}

/// A rendering shows the text of the field, cut only between characters:
/// its pieces, put together again, are the field's text.
pub proof fn lemma_segments_show_text(field: Field, is_editing: bool)
    requires
        field.wf(),
    ensures
        shown_text(field.segments(is_editing)) == field.as_text(),
{
    reveal_with_fuel(shown_text, 4);
    let segments = field.segments(is_editing);
    if is_editing && field is Str {
        let d = field->Str_0;
        assert(segments.drop_last().drop_last().drop_last() =~= seq![]);
        if d.pos < d.text.len() {
            assert(shown_text(segments) =~= d.text.take(d.pos) + seq![d.text[d.pos]]
                + d.text.skip(d.pos + 1));
        } else {
            assert(shown_text(segments) =~= d.text.take(d.pos) + Seq::<char>::empty());
        }
        assert(shown_text(segments) =~= d.text);
    } else {
        assert(segments.drop_last() =~= seq![]);
        assert(shown_text(segments) =~= field.as_text());
    }
}

/// No key changes the value that a field goes back to on revert.
pub proof fn lemma_keys_keep_pre_edit_text(field: Field, keys: Seq<Key>)
    ensures
        field.after_keys(keys).pre_edit_text() == field.pre_edit_text(),
    decreases keys.len(),
{
    if keys.len() > 0 {
        lemma_keys_keep_pre_edit_text(field, keys.drop_last());
    }
}

/// Editing and then reverting gives back the value from before the edit,
/// and leaves the field clean.
pub proof fn lemma_edit_revert(field: Field, keys: Seq<Key>)
    ensures
        field.after_keys(keys).restored().as_text() == field.pre_edit_text(),
        !field.after_keys(keys).restored().dirty(),
        !field.dirty() ==> field.after_keys(keys).restored().as_text() == field.as_text(),
{
    lemma_keys_keep_pre_edit_text(field, keys);
}

/// Once the baseline is forgotten there is nothing to go back to: a revert
/// changes nothing, and the field counts as clean.
pub proof fn lemma_forget_then_revert(field: Field, keys: Seq<Key>)
    ensures
        field.after_keys(keys).forgotten().restored() == field.after_keys(keys).forgotten(),
        !field.after_keys(keys).forgotten().dirty(),
{
}

} // verus!
