//! What is to be drawn, worked out from the state: the hints of the info
//! strip, the sections of a prompt, and the look and the widths of the
//! table's cells. Drawing itself is left to the caller.

use crate::editable::{Editable, Field, Segment, SegmentStyle, rendered};
use crate::metrics::{
    display_width, line_count, measured_height, screen_measure, span_width, to_measure,
};
use crate::prompt::{Overlay, Prompt, PromptButton};
use crate::text::chars_of;
use crate::state::{Screen, State, View};
use crate::users::{dirty_total, CurPrompt, Table, UsersView, USER_COLUMNS};
use vstd::prelude::*;
use vstd::string::StrSliceExecFns;
use vstd::view::View as _;

verus! {

/// One entry of the info strip.
#[derive(Clone, Copy, Debug, PartialEq, Eq, Structural)]
pub enum Hint {
    ShowHelp,
    Quit,
    SwitchTabs,
    Back,
    UnderEdit,
    Restore,
    Save,
    StopEditing,
    Toggle,
    Refresh,
    /// Apply the given number of pending changes.
    Apply(usize),
    Edit,
    /// Enter chooses the given action.
    Enter(PromptButton),
}

impl Hint {
    /// The text of the hint. `Apply` and `Enter` show their argument after
    /// this text.
    pub fn label(&self) -> (r: &'static str)
        ensures
            r@ == match *self {
                Hint::ShowHelp => "[F1] Show Help"@,
                Hint::Quit => "[Esc/Q] Exit"@,
                Hint::SwitchTabs => "[Tab/Shift+Tab] Switch Tabs"@,
                Hint::Back => "[Esc] Back"@,
                Hint::UnderEdit => "[EDITING]"@,
                Hint::Restore => "[Esc] Restore"@,
                Hint::Save => "[Enter] Save"@,
                Hint::StopEditing => "[Esc] Stop editing"@,
                Hint::Toggle => "[Enter] Toggle"@,
                Hint::Refresh => "[F5] Refresh"@,
                Hint::Apply(_) => "[F2] Apply"@,
                Hint::Edit => "[Enter] Edit"@,
                Hint::Enter(_) => "[Enter]"@,
            },
    {
        match self {
            Hint::ShowHelp => "[F1] Show Help",
            Hint::Quit => "[Esc/Q] Exit",
            Hint::SwitchTabs => "[Tab/Shift+Tab] Switch Tabs",
            Hint::Back => "[Esc] Back",
            Hint::UnderEdit => "[EDITING]",
            Hint::Restore => "[Esc] Restore",
            Hint::Save => "[Enter] Save",
            Hint::StopEditing => "[Esc] Stop editing",
            Hint::Toggle => "[Enter] Toggle",
            Hint::Refresh => "[F5] Refresh",
            Hint::Apply(_) => "[F2] Apply",
            Hint::Edit => "[Enter] Edit",
            Hint::Enter(_) => "[Enter]",
        }
    }
}

/// The position of the first `]` in `text`, or its length where there is
/// none.
pub open spec fn closing_bracket(text: Seq<char>) -> int
    decreases text.len(),
{
    if text.len() == 0 {
        0
    } else if text[0] == ']' {
        0
    } else {
        1 + closing_bracket(text.drop_first())
    }
}

/// Where the key part of a hint ends: after the first `]` of a text that
/// starts with `[`, else at the start.
pub open spec fn key_end(text: Seq<char>) -> int {
    if text.len() > 0 && text[0] == '[' && closing_bracket(text) < text.len() {
        closing_bracket(text) + 1
    } else {
        0
    }
}

/// `closing_bracket` is a position of the text or its length; no character
/// before it is `]`, and the one at it is.
pub proof fn lemma_closing_bracket(text: Seq<char>)
    ensures
        0 <= closing_bracket(text) <= text.len(),
        forall|i: int| 0 <= i < closing_bracket(text) ==> text[i] != ']',
        closing_bracket(text) < text.len() ==> text[closing_bracket(text)] == ']',
    decreases text.len(),
{
    if text.len() > 0 && text[0] != ']' {
        let rest = text.drop_first();
        lemma_closing_bracket(rest);
        assert forall|i: int| 0 <= i < closing_bracket(text) implies text[i] != ']' by {
            if i > 0 {
                assert(text[i] == rest[i - 1]);
            }
        }
    }
}

/// Cuts a hint into its key part, which is shown in colour, and the rest.
/// The key part is what stands in square brackets at the start, brackets
/// included; a text that does not start with a bracketed part has an empty
/// one.
pub fn split_hint(s: &str) -> (r: (&str, &str))
    ensures
        r.0@ == s@.take(key_end(s@)),
        r.1@ == s@.skip(key_end(s@)),
{
    let chars = chars_of(s);
    let len: usize = chars.len();
    proof {
        lemma_closing_bracket(s@);
    }
    if len > 0 && chars[0] == '[' {
        let mut i: usize = 0;
        while i < len
            invariant
                chars@ == s@,
                len == chars@.len(),
                i <= len,
                len > 0 && s@[0] == '[',
                forall|k: int| 0 <= k < i ==> s@[k] != ']',
            decreases len - i,
        {
            proof {
                lemma_closing_bracket(s@);
            }
            if chars[i] == ']' {
                let key = s.substring_char(0, i + 1);
                let rest = s.substring_char(i + 1, len);
                assert(key@ =~= s@.take(key_end(s@)));
                assert(rest@ =~= s@.skip(key_end(s@)));
                return (key, rest);
            }
            i = i + 1;
        }
        proof {
            lemma_closing_bracket(s@);
        }
    }
    let key = s.substring_char(0, 0);
    assert(key@ =~= s@.take(0));
    assert(s@ =~= s@.skip(0));
    (key, s)
}

/// The hints shown when no view has hints of its own.
pub fn default_info() -> (r: Vec<Hint>)
    ensures
        r@ == seq![Hint::ShowHelp, Hint::Quit, Hint::SwitchTabs],
{
    let mut r: Vec<Hint> = Vec::new();
    r.push(Hint::ShowHelp);
    r.push(Hint::Quit);
    r.push(Hint::SwitchTabs);
    r
}

/// The hints for a field under edit.
pub open spec fn editing_hints(field: Field) -> Seq<Hint> {
    match field {
        Field::Str(_) => seq![Hint::Restore, Hint::Save],
        Field::Bool(_, _) => seq![Hint::StopEditing, Hint::Toggle],
        _ => seq![],
    }
}

/// Returns footer information for when the field is in edit mode
pub fn editing_footer(field: &Editable) -> (r: Vec<Hint>)
    ensures
        r@ == editing_hints(field@),
{
    let mut r: Vec<Hint> = Vec::new();
    match field {
        Editable::Str(_) => {
            r.push(Hint::Restore);
            r.push(Hint::Save);
        },
        Editable::Bool(_, _) => {
            r.push(Hint::StopEditing);
            r.push(Hint::Toggle);
        },
        _ => {},
    }
    r
}

/// The hints of a prompt: Enter chooses what the first button stands for,
/// or `Okay` where there is no button.
pub open spec fn prompt_hints(p: Overlay) -> Seq<Hint> {
    seq![
        Hint::ShowHelp,
        Hint::Back,
        Hint::Enter(
            if p.buttons.len() > 0 {
                p.buttons[0]
            } else {
                PromptButton::Okay
            },
        ),
    ]
}

/// The hints shown with a prompt.
pub fn prompt_info(p: &Prompt) -> (r: Vec<Hint>)
    ensures
        r@ == prompt_hints(p@),
{
    let first = if p.buttons.len() > 0 {
        p.buttons[0]
    } else {
        PromptButton::Okay
    };
    let mut r: Vec<Hint> = Vec::new();
    r.push(Hint::ShowHelp);
    r.push(Hint::Back);
    r.push(Hint::Enter(first));
    r
}

/// The height of the table of a prompt.
#[derive(Clone, Copy, Debug, PartialEq, Eq, Structural)]
pub enum TableHeight {
    /// The prompt has neither field nor button.
    Absent,
    /// So many rows.
    Rows(u16),
    /// All that is left of the area.
    Fill,
}

/// The sections of a prompt from top to bottom: the message, the table of
/// fields and buttons, and the error text.
#[derive(Clone, Copy, Debug, PartialEq, Eq, Structural)]
pub struct PromptLayout {
    /// The height of the message, where there is one.
    pub msg: Option<u16>,
    pub table: TableHeight,
    /// The height of the error text, where there is one.
    pub error: Option<u16>,
    /// The width of the column of labels.
    pub label_width: u16,
}

/// The height of an optional section.
pub open spec fn section_height(section: Option<u16>) -> int {
    match section {
        Some(h) => h as int,
        None => 0,
    }
}

/// The sections of a prompt in an area of `area_height` lines. Message and
/// error text are as high as they have lines. With an error text below it,
/// the table gets one line for each entry as far as the area has lines left;
/// without one it fills what is left.
pub open spec fn planned(
    msg: Option<u16>,
    error: Option<u16>,
    entries: int,
    label_width: int,
    area_height: int,
) -> PromptLayout {
    let taken = screen_measure(section_height(msg) + section_height(error));
    let left = if area_height > taken {
        area_height - taken
    } else {
        0
    };
    PromptLayout {
        msg,
        table: if entries <= 0 {
            TableHeight::Absent
        } else if error is Some {
            TableHeight::Rows(
                if screen_measure(entries) < left {
                    screen_measure(entries) as u16
                } else {
                    left as u16
                },
            )
        } else {
            TableHeight::Fill
        },
        error,
        label_width: screen_measure(label_width) as u16,
    }
}

/// Lays out the sections of a prompt from the measures of its parts.
pub fn plan_prompt(
    msg: Option<u16>,
    error: Option<u16>,
    entries: usize,
    label_width: usize,
    area_height: u16,
) -> (r: PromptLayout)
    ensures
        r == planned(msg, error, entries as int, label_width as int, area_height as int),
{
    let top: u16 = match msg {
        Some(h) => h,
        None => 0,
    };
    let bottom: u16 = match error {
        Some(h) => h,
        None => 0,
    };
    let taken: u16 = top.saturating_add(bottom);
    let left: u16 = area_height.saturating_sub(taken);
    let table = if entries == 0 {
        TableHeight::Absent
    } else if error.is_some() {
        let rows: u16 = to_measure(entries);
        TableHeight::Rows(
            if rows < left {
                rows
            } else {
                left
            },
        )
    } else {
        TableHeight::Fill
    };
    PromptLayout { msg, table, error, label_width: to_measure(label_width) }
}

/// The height of a text as a section: none for an empty text.
pub open spec fn section_of(text: Seq<char>) -> Option<u16> {
    if text.len() == 0 {
        None
    } else {
        Some(screen_measure(line_count(text) as int) as u16)
    }
}

/// The width of the widest label of `fields`.
pub open spec fn widest_label(fields: Seq<(Seq<char>, Field)>) -> nat
    decreases fields.len(),
{
    if fields.len() == 0 {
        0
    } else {
        let rest = widest_label(fields.drop_last());
        let last = display_width(fields.last().0);
        if last > rest {
            last
        } else {
            rest
        }
    }
}

impl Overlay {
    /// The sections of the prompt in an area of `area_height` lines.
    pub open spec fn layout(self, area_height: int) -> PromptLayout {
        planned(
            section_of(self.msg),
            section_of(self.error),
            self.entries(),
            widest_label(self.fields) as int,
            area_height,
        )
    }
}

/// The height of `text` as a section.
pub fn text_section(text: &str) -> (r: Option<u16>)
    ensures
        r == section_of(text@),
{
    if text.is_empty() {
        None
    } else {
        Some(measured_height(text))
    }
}

/// The width of the widest label of the prompt's fields.
pub fn label_width(p: &Prompt) -> (w: usize)
    ensures
        w == widest_label(p@.fields),
{
    let mut w: usize = 0;
    let mut i: usize = 0;
    while i < p.fields.len()
        invariant
            i <= p.fields@.len(),
            w == widest_label(p@.fields.take(i as int)),
        decreases p.fields@.len() - i,
    {
        let width: usize = span_width(p.fields[i].0.as_str());
        proof {
            assert(p@.fields.take(i + 1).drop_last() =~= p@.fields.take(i as int));
        }
        if width > w {
            w = width;
        }
        i = i + 1;
    }
    proof {
        assert(p@.fields.take(p.fields@.len() as int) =~= p@.fields);
    }
    w
}

/// Lays out the sections of the prompt in an area of `area_height` lines.
pub fn prompt_layout(p: &Prompt, area_height: u16) -> (r: PromptLayout)
    ensures
        r == p@.layout(area_height as int),
{
    plan_prompt(
        text_section(p.msg.as_str()),
        text_section(p.error.as_str()),
        p.num_entries(),
        label_width(p),
        area_height,
    )
}

/// One row of a prompt's table: a field with its label and value, or a
/// button.
pub struct PromptRow<'a> {
    /// The label of a field, or the text of a button.
    pub label: &'a str,
    /// Whether the cursor is on the row.
    pub highlighted: bool,
    /// Whether the row shows a field, as opposed to a button.
    pub is_field: bool,
    /// The value of a field; empty for a button.
    pub value: Vec<Segment<'a>>,
}

/// A row of a prompt's table as contracts see it.
pub struct RowModel {
    pub label: Seq<char>,
    pub highlighted: bool,
    pub is_field: bool,
    pub value: Seq<(Seq<char>, SegmentStyle)>,
}

/// What a row shows.
pub open spec fn row_model(row: PromptRow) -> RowModel {
    RowModel {
        label: row.label@,
        highlighted: row.highlighted,
        is_field: row.is_field,
        value: rendered(row.value@),
    }
}

/// What each of some rows shows.
pub open spec fn row_models(rows: Seq<PromptRow>) -> Seq<RowModel> {
    rows.map_values(|row: PromptRow| row_model(row))
}

impl Overlay {
    /// The row of the field with index `i`: the field under the cursor is
    /// highlighted and shown with its cursor.
    pub open spec fn field_row(self, i: int) -> RowModel {
        RowModel {
            label: self.fields[i].0,
            highlighted: i == self.cursor,
            is_field: true,
            value: self.fields[i].1.segments(i == self.cursor),
        }
    }

    /// The row of the button with index `j`. Buttons come after the fields
    /// under the same cursor.
    pub open spec fn button_row(self, j: int) -> RowModel {
        RowModel {
            label: self.buttons[j].text(),
            highlighted: self.fields.len() + j == self.cursor,
            is_field: false,
            value: seq![],
        }
    }

    /// The rows of the first `n` fields.
    pub open spec fn field_rows(self, n: nat) -> Seq<RowModel> {
        Seq::new(n, |i: int| self.field_row(i))
    }

    /// The rows of the first `n` buttons.
    pub open spec fn button_rows(self, n: nat) -> Seq<RowModel> {
        Seq::new(n, |j: int| self.button_row(j))
    }

    /// The rows of the prompt's table: the fields, then the buttons.
    pub open spec fn rows(self) -> Seq<RowModel> {
        self.field_rows(self.fields.len()) + self.button_rows(self.buttons.len())
    }
}

/// The rows of the prompt's table: the fields, then the buttons, with the
/// one under the cursor highlighted.
pub fn prompt_rows<'a>(p: &'a Prompt) -> (r: Vec<PromptRow<'a>>)
    ensures
        row_models(r@) == p@.rows(),
{
    let mut r: Vec<PromptRow<'a>> = Vec::new();
    let mut i: usize = 0;
    while i < p.fields.len()
        invariant
            i <= p.fields@.len(),
            row_models(r@) == p@.field_rows(i as nat),
        decreases p.fields@.len() - i,
    {
        let focused = i == p.cursor;
        let row = PromptRow {
            label: p.fields[i].0.as_str(),
            highlighted: focused,
            is_field: true,
            value: p.fields[i].1.as_spans(focused),
        };
        let ghost before = r@;
        r.push(row);
        proof {
            assert(row_models(before).len() == before.len());
            assert forall|k: int| 0 <= k <= i implies row_models(r@)[k] == p@.field_rows(
                (i + 1) as nat,
            )[k] by {
                if k < i {
                    assert(row_models(before)[k] == p@.field_rows(i as nat)[k]);
                }
            }
            assert(row_models(r@) =~= p@.field_rows((i + 1) as nat));
        }
        i = i + 1;
    }
    let mut j: usize = 0;
    while j < p.buttons.len()
        invariant
            j <= p.buttons@.len(),
            row_models(r@) == p@.field_rows(p@.fields.len()) + p@.button_rows(j as nat),
        decreases p.buttons@.len() - j,
    {
        let on_cursor = p.cursor >= p.fields.len() && p.cursor - p.fields.len() == j;
        let row = PromptRow {
            label: p.buttons[j].label(),
            highlighted: on_cursor,
            is_field: false,
            value: Vec::new(),
        };
        let ghost before = r@;
        let ghost fields = p@.field_rows(p@.fields.len());
        assert(rendered(row.value@) =~= seq![]);
        r.push(row);
        proof {
            assert(row_models(before).len() == before.len());
            assert(before.len() == fields.len() + j);
            assert forall|k: int| 0 <= k <= fields.len() + j implies row_models(r@)[k] == (fields
                + p@.button_rows((j + 1) as nat))[k] by {
                if k < fields.len() + j {
                    assert(row_models(before)[k] == (fields + p@.button_rows(j as nat))[k]);
                }
            }
            assert(row_models(r@) =~= fields + p@.button_rows((j + 1) as nat));
        }
        j = j + 1;
    }
    r
}

/// How the brackets round the focused cell are shown.
#[derive(Clone, Copy, Debug, PartialEq, Eq, Structural)]
pub enum Bracket {
    /// No brackets: the cell is not focused.
    Absent,
    /// The focused cell cannot be edited.
    ReadOnly,
    /// The focused cell can be edited.
    Editable,
    /// The focused cell is under edit.
    Editing,
}

/// How one cell of the table is shown.
#[derive(Clone, Copy, Debug, PartialEq, Eq, Structural)]
pub struct CellLook {
    /// Whether the cell is shown with its cursor.
    pub under_edit: bool,
    /// Whether the cell differs from its baseline.
    pub changed: bool,
    pub bracket: Bracket,
}

/// A number of columns or cells, which ends at `usize::MAX`.
pub open spec fn capped(n: int) -> int {
    if n > usize::MAX {
        usize::MAX as int
    } else {
        n
    }
}

/// The width of some segments side by side.
pub open spec fn segments_width(segments: Seq<(Seq<char>, SegmentStyle)>) -> nat
    decreases segments.len(),
{
    if segments.len() == 0 {
        0
    } else {
        segments_width(segments.drop_last()) + display_width(segments.last().0)
    }
}

/// The narrowest a column of the table gets.
pub const MIN_COLUMN_WIDTH: u16 = 7;

/// The room that a cell takes beside its text: its brackets where it is
/// focused, and as much padding where it is not.
pub const CELL_MARGIN: usize = 2;

/// The width that a column needs once a cell of width `cell_width` is in
/// it: the cell's width and its margin, where that is more than the width
/// the column has.
pub open spec fn fitted(current: int, cell_width: int) -> int {
    if screen_measure(cell_width + CELL_MARGIN) > current {
        screen_measure(cell_width + CELL_MARGIN)
    } else {
        current
    }
}

impl Table {
    /// Whether the focus is on the cell in row `y` and column `x`.
    pub open spec fn is_focus(self, y: int, x: int) -> bool {
        y == self.focus_y && x == self.focus_x
    }

    /// How the cell in row `y` and column `x` is shown.
    pub open spec fn look(self, y: int, x: int) -> CellLook {
        CellLook {
            under_edit: self.editing && self.is_focus(y, x),
            changed: self.rows[y][x].dirty(),
            bracket: if !self.is_focus(y, x) {
                Bracket::Absent
            } else if !self.rows[y][x].editable() {
                Bracket::ReadOnly
            } else if self.editing {
                Bracket::Editing
            } else {
                Bracket::Editable
            },
        }
    }

    /// The width of what the cell in row `y` and column `x` shows.
    pub open spec fn cell_width(self, y: int, x: int) -> int {
        capped(segments_width(self.rows[y][x].segments(self.look(y, x).under_edit)) as int)
    }

    /// The width that column `x` needs for its first `rows` rows.
    pub open spec fn column_width(self, x: int, rows: int) -> int
        decreases rows,
    {
        if rows <= 0 {
            MIN_COLUMN_WIDTH as int
        } else {
            fitted(self.column_width(x, rows - 1), self.cell_width(rows - 1, x))
        }
    }

    /// The number of changed cells, as far as it can be counted.
    pub open spec fn changes(self) -> int {
        capped(dirty_total(self.rows) as int)
    }

    /// The hints shown with the table. Under its prompt they are the
    /// prompt's. In edit mode they are those of the cell under edit. Else
    /// they offer a reload, applying the changes where there are any, and
    /// editing where the focused cell can be edited.
    pub open spec fn hints(self) -> Seq<Hint> {
        if self.cur_prompt != CurPrompt::Hidden {
            prompt_hints(self.prompt)
        } else if self.editing {
            seq![Hint::UnderEdit] + match self.focused() {
                Some(f) => editing_hints(f),
                None => seq![],
            }
        } else {
            seq![Hint::Refresh] + if self.changes() > 0 {
                seq![Hint::Apply(self.changes() as usize)]
            } else {
                seq![]
            } + if self.on_editable() {
                seq![Hint::Edit]
            } else {
                seq![]
            }
        }
    }
}

/// The width of some segments side by side, as far as it can be counted.
pub fn spans_width(segments: &Vec<Segment>) -> (w: usize)
    ensures
        w == capped(segments_width(rendered(segments@)) as int),
{
    let mut w: usize = 0;
    let mut i: usize = 0;
    while i < segments.len()
        invariant
            i <= segments@.len(),
            w == capped(segments_width(rendered(segments@).take(i as int)) as int),
        decreases segments@.len() - i,
    {
        proof {
            assert(rendered(segments@).take(i + 1).drop_last() =~= rendered(segments@).take(
                i as int,
            ));
        }
        w = w.saturating_add(span_width(segments[i].text));
        i = i + 1;
    }
    proof {
        assert(rendered(segments@).take(segments@.len() as int) =~= rendered(segments@));
    }
    w
}

/// Widens a column for a cell of width `cell_width`, if it has to.
pub fn fit_column(current: u16, cell_width: usize) -> (r: u16)
    ensures
        r == fitted(current as int, cell_width as int),
{
    let needed: u16 = to_measure(cell_width.saturating_add(CELL_MARGIN));
    if needed > current {
        needed
    } else {
        current
    }
}

/// How the cell in row `y` and column `x` is shown, if there is such a cell.
pub fn cell_look(view: &UsersView, y: usize, x: usize) -> (r: Option<CellLook>)
    ensures
        r is Some <==> y < view@.rows.len() && x < USER_COLUMNS,
        r matches Some(look) ==> look == view@.look(y as int, x as int),
{
    match view.cell(y, x) {
        Some(cell) => {
            let (focus_y, focus_x) = view.focus();
            let focused = y == focus_y && x == focus_x;
            let editing = view.is_editing();
            Some(
                CellLook {
                    under_edit: editing && focused,
                    changed: cell.is_changed(),
                    bracket: if !focused {
                        Bracket::Absent
                    } else if !cell.is_editable() {
                        Bracket::ReadOnly
                    } else if editing {
                        Bracket::Editing
                    } else {
                        Bracket::Editable
                    },
                },
            )
        },
        None => None,
    }
}

/// One cell of the table as it is to be drawn.
pub struct CellPlan<'a> {
    pub segments: Vec<Segment<'a>>,
    pub look: CellLook,
}

/// What a cell plan shows.
pub open spec fn cell_model(plan: CellPlan) -> (Seq<(Seq<char>, SegmentStyle)>, CellLook) {
    (rendered(plan.segments@), plan.look)
}

impl Table {
    /// What the cell in row `y` and column `x` shows: its text, cut at the
    /// cursor where the cell is under edit, and its look.
    pub open spec fn cell_plan(self, y: int, x: int) -> (
        Seq<(Seq<char>, SegmentStyle)>,
        CellLook,
    ) {
        (self.rows[y][x].segments(self.look(y, x).under_edit), self.look(y, x))
    }
}

/// The cells of row `y` as they are to be drawn, or nothing where the table
/// has no such row.
pub fn row_cells<'a>(view: &'a UsersView, y: usize) -> (r: Vec<CellPlan<'a>>)
    ensures
        y >= view@.rows.len() ==> r@.len() == 0,
        y < view@.rows.len() ==> r@.len() == USER_COLUMNS && forall|x: int|
            0 <= x < USER_COLUMNS ==> cell_model(#[trigger] r@[x]) == view@.cell_plan(y as int, x),
{
    let mut r: Vec<CellPlan<'a>> = Vec::new();
    let mut x: usize = 0;
    while x < USER_COLUMNS
        invariant
            x <= USER_COLUMNS,
            y >= view@.rows.len() ==> r@.len() == 0,
            y < view@.rows.len() ==> r@.len() == x && forall|k: int|
                0 <= k < x ==> cell_model(#[trigger] r@[k]) == view@.cell_plan(y as int, k),
        decreases USER_COLUMNS - x,
    {
        match (view.cell(y, x), cell_look(view, y, x)) {
            (Some(cell), Some(look)) => {
                r.push(CellPlan { segments: cell.as_spans(look.under_edit), look });
            },
            _ => {},
        }
        x = x + 1;
    }
    r
}

/// The width of each column: wide enough for every cell with its margin,
/// and never under the minimum.
pub fn column_widths(view: &UsersView) -> (r: [u16; 5])
    ensures
        forall|x: int| 0 <= x < USER_COLUMNS ==> r@[x] == view@.column_width(
            x,
            view@.rows.len() as int,
        ),
{
    let mut widths: [u16; 5] = [MIN_COLUMN_WIDTH; 5];
    let rows: usize = view.num_rows();
    let (focus_y, focus_x) = view.focus();
    let editing = view.is_editing();
    let mut y: usize = 0;
    while y < rows
        invariant
            view@.rectangular(),
            rows == view@.rows.len(),
            focus_y == view@.focus_y,
            focus_x == view@.focus_x,
            editing == view@.editing,
            y <= rows,
            forall|x: int| 0 <= x < USER_COLUMNS ==> widths@[x] == view@.column_width(x, y as int),
        decreases rows - y,
    {
        let mut x: usize = 0;
        while x < USER_COLUMNS
            invariant
                view@.rectangular(),
                rows == view@.rows.len(),
                focus_y == view@.focus_y,
                focus_x == view@.focus_x,
                editing == view@.editing,
                y < rows,
                x <= USER_COLUMNS,
                forall|k: int| 0 <= k < x ==> widths@[k] == view@.column_width(k, y + 1),
                forall|k: int| x <= k < USER_COLUMNS ==> widths@[k] == view@.column_width(k, y as int),
            decreases USER_COLUMNS - x,
        {
            match view.cell(y, x) {
                Some(cell) => {
                    let spans = cell.as_spans(editing && y == focus_y && x == focus_x);
                    let width: usize = spans_width(&spans);
                    widths[x] = fit_column(widths[x], width);
                },
                None => {},
            }
            x = x + 1;
        }
        y = y + 1;
    }
    widths
}

/// The hints shown with the table.
pub fn table_info(view: &UsersView) -> (r: Vec<Hint>)
    ensures
        r@ == view@.hints(),
{
    if view.cur_prompt() != CurPrompt::Hidden {
        return prompt_info(view.prompt());
    }
    let mut r: Vec<Hint> = Vec::new();
    if view.is_editing() {
        r.push(Hint::UnderEdit);
        match view.cur_item() {
            Some(cell) => {
                let mut more = editing_footer(cell);
                r.append(&mut more);
            },
            None => {},
        }
        assert(r@ =~= view@.hints());
        return r;
    }
    r.push(Hint::Refresh);
    let num_changed: usize = view.count_dirty();
    if num_changed > 0 {
        r.push(Hint::Apply(num_changed));
    }
    let on_editable = match view.cur_item() {
        Some(cell) => cell.is_editable(),
        None => false,
    };
    if on_editable {
        r.push(Hint::Edit);
    }
    assert(r@ =~= view@.hints());
    r
}

impl Screen {
    /// The hints of the info strip: those of the credential prompt while it
    /// is open, else those of the current view, else the general ones.
    pub open spec fn hints(self) -> Seq<Hint> {
        if self.backend_prompt {
            prompt_hints(self.prompt)
        } else if self.on_users() {
            self.users.hints()
        } else {
            seq![Hint::ShowHelp, Hint::Quit, Hint::SwitchTabs]
        }
    }
}

/// The hints of the info strip.
pub fn info(state: &State) -> (r: Vec<Hint>)
    ensures
        r@ == state@.hints(),
{
    if state.backend_prompt() {
        return prompt_info(state.prompt());
    }
    let cur_tab: usize = state.cur_tab();
    if cur_tab < state.tabs().len() {
        match state.tabs()[cur_tab].view {
            View::UserList => {
                return table_info(state.users());
            },
            View::Home => {},
        }
    }
    default_info()
}

} // verus!
