//! The table of users: rows of five fields, a focused cell, an edit mode,
//! and the bookkeeping of pages fetched on demand.

use crate::backend::UserInfoV1;
use crate::editable::{Draft, Editable, EvtResult, Field, Key};
use crate::focus::{apply_offset, in_bounds, shifted};
use crate::prompt::{HandleRes, Overlay, Prompt, PromptButton};
use vstd::prelude::*;

verus! {

/// The number of records asked for at a time.
pub const PAGE_SIZE: usize = 32;

/// The number of columns of the table.
pub const USER_COLUMNS: usize = 5;

/// Which prompt, if any, lies over the table.
#[derive(Clone, Copy, Debug, PartialEq, Eq, Structural)]
pub enum CurPrompt {
    Hidden,
    Notice,
    SaveChanges,
}

/// Whether the remote list may hold more rows than were fetched.
#[derive(Clone, Copy, Debug, PartialEq, Eq, Structural)]
pub enum SyncState {
    HasMore,
    Exhausted,
}

/// Why a prompt could not be opened.
#[derive(Clone, Copy, Debug, PartialEq, Eq, Structural)]
pub enum OverlayError {
    /// Another prompt is open already; it was left as it is.
    AlreadyOpen,
}

/// A page to ask the remote service for.
#[derive(Clone, Copy, Debug, PartialEq, Eq, Structural)]
pub struct PageRequest {
    pub offset: usize,
    pub limit: usize,
}

/// The fields that show one record: the identifier is read-only, the display
/// name and the flags can be edited, and the last flag shows whether the
/// account is active.
pub open spec fn row_of(u: UserInfoV1) -> Seq<Field> {
    seq![
        Field::ConstStr(u.name@),
        Field::Str(Draft::fresh(u.displayname@)),
        Field::Bool(u.admin, None),
        Field::Bool(u.is_guest, None),
        Field::Bool(!u.deactivated, None),
    ]
}

/// The rows that show a page of records, in the order of the page.
pub open spec fn rows_of(page: Seq<UserInfoV1>) -> Seq<Seq<Field>> {
    page.map_values(|u: UserInfoV1| row_of(u))
}

/// The number of fields of `cells` that differ from their baseline.
pub open spec fn dirty_cells(cells: Seq<Field>) -> nat
    decreases cells.len(),
{
    if cells.len() == 0 {
        0
    } else {
        dirty_cells(cells.drop_last()) + if cells.last().dirty() {
            1nat
        } else {
            0nat
        }
    }
}

/// The number of fields in `rows` that differ from their baseline.
pub open spec fn dirty_total(rows: Seq<Seq<Field>>) -> nat
    decreases rows.len(),
{
    if rows.len() == 0 {
        0
    } else {
        dirty_total(rows.drop_last()) + dirty_cells(rows.last())
    }
}

/// The table as contracts see it.
pub struct Table {
    pub rows: Seq<Seq<Field>>,
    pub focus_y: int,
    pub focus_x: int,
    pub editing: bool,
    pub sync: SyncState,
    pub cur_prompt: CurPrompt,
    pub prompt: Overlay,
}

/// How far each navigation key moves the focus, as (rows, columns).
pub open spec fn table_step(key: Key) -> (int, int) {
    match key {
        Key::Down => (1, 0),
        Key::Up => (-1, 0),
        Key::Right => (0, 1),
        Key::Left => (0, -1),
        Key::PageDown => (5, 0),
        Key::PageUp => (-5, 0),
        _ => (0, 0),
    }
}

/// The prompt that tells the user of a failure: the error text and one
/// button to acknowledge it.
pub open spec fn notice(error: Seq<char>) -> Overlay {
    Overlay { error, buttons: seq![PromptButton::Okay], ..Overlay::empty() }
}

impl Table {
    /// A table without rows, before anything was fetched.
    pub open spec fn empty() -> Table {
        Table {
            rows: seq![],
            focus_y: 0,
            focus_x: 0,
            editing: false,
            sync: SyncState::HasMore,
            cur_prompt: CurPrompt::Hidden,
            prompt: Overlay::empty(),
        }
    }

    /// The cell under the focus, if the focus is on a cell.
    pub open spec fn focused(self) -> Option<Field> {
        if 0 <= self.focus_y < self.rows.len() && 0 <= self.focus_x
            < self.rows[self.focus_y].len() {
            Some(self.rows[self.focus_y][self.focus_x])
        } else {
            None
        }
    }

    /// Whether the focus is on a cell that can be edited.
    pub open spec fn on_editable(self) -> bool {
        self.focused() matches Some(f) && f.editable()
    }

    /// Whether the focus is on a cell that does not pass `key` on.
    pub open spec fn focus_takes(self, key: Key) -> bool {
        self.focused() matches Some(f) && f.key_result(key) != EvtResult::Pass
    }

    /// Every row has the table's width.
    pub open spec fn rectangular(self) -> bool {
        forall|y: int| 0 <= y < self.rows.len() ==> (#[trigger] self.rows[y]).len() == USER_COLUMNS
    }

    /// Every row has the table's width, the focus is inside the table (at
    /// the origin of an empty one), and edit mode is on only over a cell
    /// that can be edited.
    pub open spec fn wf(self) -> bool {
        &&& self.rectangular()
        &&& in_bounds(self.focus_y, self.rows.len() as int)
        &&& in_bounds(self.focus_x, USER_COLUMNS as int)
        &&& self.editing ==> self.on_editable()
    }

    /// The focus moved by `dy` rows and `dx` columns, each clamped to the
    /// table as it is now. Edit mode goes off where the cell reached cannot
    /// be edited.
    pub open spec fn moved(self, dy: int, dx: int) -> Table {
        let t = Table {
            focus_y: shifted(self.focus_y, dy, self.rows.len() as int),
            focus_x: shifted(self.focus_x, dx, USER_COLUMNS as int),
            ..self
        };
        Table { editing: self.editing && t.on_editable(), ..t }
    }

    /// The table after a navigation key: the focus moved, and edit mode left
    /// where the focus went to another cell.
    pub open spec fn stepped(self, key: Key) -> Table {
        let m = self.moved(table_step(key).0, table_step(key).1);
        Table {
            editing: m.editing && m.focus_y == self.focus_y && m.focus_x == self.focus_x,
            ..m
        }
    }

    /// The table emptied for a full reload: no rows, the focus at the
    /// origin, edit mode off, and more rows expected again.
    pub open spec fn refreshed(self) -> Table {
        Table {
            rows: seq![],
            focus_y: 0,
            focus_x: 0,
            editing: false,
            sync: SyncState::HasMore,
            ..self
        }
    }

    /// Whether the focused cell is under edit and takes `key` for itself.
    pub open spec fn cell_takes(self, key: Key) -> bool {
        self.editing && self.focus_takes(key)
    }

    /// The table after a key that neither a prompt nor the cell under edit
    /// took.
    pub open spec fn navigated(self, key: Key) -> Table {
        match key {
            Key::Down | Key::Up | Key::Right | Key::Left | Key::PageDown | Key::PageUp => {
                self.stepped(key)
            },
            Key::F(n) => if n == 5 {
                self.refreshed()
            } else {
                self
            },
            Key::Enter => Table {
                editing: self.editing || self.on_editable(),
                ..self
            },
            Key::Esc => Table { editing: false, ..self },
            _ => self,
        }
    }

    /// The table after `key`. An open prompt takes every key and closes when
    /// the key ends it. Else the cell under edit sees the key first and edit
    /// mode ends when the cell says so. What is left goes to navigation.
    pub open spec fn after_key(self, key: Key) -> Table {
        if self.cur_prompt != CurPrompt::Hidden {
            Table {
                prompt: self.prompt.after_key(key),
                cur_prompt: if self.prompt.dismissed_by(key) {
                    CurPrompt::Hidden
                } else {
                    self.cur_prompt
                },
                ..self
            }
        } else if self.cell_takes(key) {
            let f = self.focused()->0;
            Table {
                rows: self.rows.update(
                    self.focus_y,
                    self.rows[self.focus_y].update(self.focus_x, f.after_key(key)),
                ),
                editing: f.key_result(key) == EvtResult::Continue,
                ..self
            }
        } else {
            self.navigated(key)
        }
    }

    /// What the table answers to `key`.
    pub open spec fn result_of(self, key: Key) -> HandleRes {
        if self.cur_prompt != CurPrompt::Hidden {
            match self.prompt.result_of(key) {
                HandleRes::Exit(_) => HandleRes::ReDraw,
                HandleRes::Ignored => HandleRes::Handled,
                r => r,
            }
        } else if self.cell_takes(key) {
            HandleRes::ReDraw
        } else {
            match key {
                Key::Down | Key::Up | Key::Right | Key::Left | Key::PageDown | Key::PageUp => {
                    let t = self.stepped(key);
                    if t.focus_y != self.focus_y || t.focus_x != self.focus_x {
                        HandleRes::ReDraw
                    } else {
                        HandleRes::Handled
                    }
                },
                Key::F(n) => if n == 5 {
                    HandleRes::ReDraw
                } else {
                    HandleRes::Ignored
                },
                Key::Enter => if !self.editing && self.focused() is Some && !self.on_editable() {
                    HandleRes::Handled
                } else {
                    HandleRes::ReDraw
                },
                Key::Esc => if self.editing {
                    HandleRes::ReDraw
                } else {
                    HandleRes::Ignored
                },
                _ => HandleRes::Ignored,
            }
        }
    }

    /// The page that `key` makes the table ask for: the first one, on a
    /// reload.
    pub open spec fn request_of(self, key: Key) -> Option<PageRequest> {
        if self.cur_prompt == CurPrompt::Hidden && !self.cell_takes(key) && key == Key::F(5) {
            Some(PageRequest { offset: 0, limit: PAGE_SIZE })
        } else {
            None
        }
    }

    /// The page to fetch next: none once the list is exhausted, else the
    /// one that starts after the rows already there.
    pub open spec fn next_request(self) -> Option<PageRequest> {
        if self.sync == SyncState::Exhausted {
            None
        } else {
            Some(PageRequest { offset: self.rows.len() as usize, limit: PAGE_SIZE })
        }
    }

    /// The table after `page` arrived: nothing changes once the list is
    /// exhausted; else the rows are appended, and the list counts as
    /// exhausted exactly when the page came short.
    pub open spec fn with_page(self, page: Seq<Seq<Field>>) -> Table {
        if self.sync == SyncState::Exhausted {
            self
        } else {
            Table {
                rows: self.rows + page,
                sync: if page.len() < PAGE_SIZE {
                    SyncState::Exhausted
                } else {
                    SyncState::HasMore
                },
                ..self
            }
        }
    }

    /// The table with the prompt opened that tells of a failure.
    pub open spec fn with_notice(self, error: Seq<char>) -> Table {
        Table { cur_prompt: CurPrompt::Notice, prompt: notice(error), ..self }
    }

    /// The table after a failure was to be shown: the notice opens unless a
    /// prompt is open already, which then stays as it is.
    pub open spec fn with_failure(self, error: Seq<char>) -> Table {
        if self.cur_prompt == CurPrompt::Hidden {
            self.with_notice(error)
        } else {
            self
        }
    }
}

/// The fields of one row, as contracts see them.
pub open spec fn cells_of(row: [Editable; 5]) -> Seq<Field> {
    row@.map_values(|e: Editable| e@)
}

/// The rows of a table, as contracts see them.
pub open spec fn table_rows(list: Seq<[Editable; 5]>) -> Seq<Seq<Field>> {
    list.map_values(|row: [Editable; 5]| cells_of(row))
}

/// The view over the list of users.
pub struct UsersView {
    cur_prompt: CurPrompt,
    prompt: Prompt,
    sync_state: SyncState,
    editing: bool,
    focus_x: usize,
    focus_y: usize,
    user_list: Vec<[Editable; 5]>,
}

impl View for UsersView {
    type V = Table;

    closed spec fn view(&self) -> Table {
        Table {
            rows: table_rows(self.user_list@),
            focus_y: self.focus_y as int,
            focus_x: self.focus_x as int,
            editing: self.editing,
            sync: self.sync_state,
            cur_prompt: self.cur_prompt,
            prompt: self.prompt@,
        }
    }
}

/// The titles of the columns.
pub fn column_titles() -> (r: [&'static str; 5])
    ensures
        r@[0]@ == "ID"@,
        r@[1]@ == "Name"@,
        r@[2]@ == "Admin"@,
        r@[3]@ == "Guest"@,
        r@[4]@ == "Active"@,
{
    ["ID", "Name", "Admin", "Guest", "Active"]
}

/// The row that shows `u`.
pub fn user_row(u: &UserInfoV1) -> (row: [Editable; 5])
    ensures
        cells_of(row) == row_of(*u),
{
    let row = [
        Editable::ro_string(u.name.as_str()),
        Editable::string(u.displayname.as_str()),
        Editable::bool(u.admin),
        Editable::bool(u.is_guest),
        Editable::bool(!u.deactivated),
    ];
    assert(cells_of(row) =~= row_of(*u));
    row
}

impl Default for CurPrompt {
    /// No prompt.
    fn default() -> (r: Self)
        ensures
            r == CurPrompt::Hidden,
    {
        CurPrompt::Hidden
    }
}

impl Default for SyncState {
    /// More rows may be there.
    fn default() -> (r: Self)
        ensures
            r == SyncState::HasMore,
    {
        SyncState::HasMore
    }
}

impl Default for UsersView {
    /// A view without rows, before anything was fetched.
    fn default() -> (r: Self)
        ensures
            r@ == Table::empty(),
            r@.wf(),
    {
        UsersView::new()
    }
}

impl UsersView {
    /// A view without rows, before anything was fetched.
    pub fn new() -> (r: Self)
        ensures
            r@ == Table::empty(),
            r@.wf(),
    {
        let r = UsersView {
            cur_prompt: CurPrompt::Hidden,
            prompt: Prompt::new(None, None, None, None, 0),
            sync_state: SyncState::HasMore,
            editing: false,
            focus_x: 0,
            focus_y: 0,
            user_list: Vec::new(),
        };
        assert(r@.rows =~= seq![]);
        r
    }

    /// The display value of this view
    pub fn title(&self) -> (r: &'static str)
        ensures
            r@ == "Users"@,
    {
        "Users"
    }

    /// Whether the focus is inside the table and edit mode is on only over
    /// a cell that can be edited. Every view that this module hands out
    /// passes.
    pub fn is_wf(&self) -> (r: bool)
        ensures
            r == self@.wf(),
    {
        let rows: usize = self.user_list.len();
        proof {
            assert forall|y: int| 0 <= y < self@.rows.len() implies (#[trigger] self@.rows[y]).len()
                == USER_COLUMNS by {}
        }
        let y_inside = if rows == 0 {
            self.focus_y == 0
        } else {
            self.focus_y < rows
        };
        if !y_inside || self.focus_x >= USER_COLUMNS {
            return false;
        }
        if self.editing {
            if rows == 0 {
                return false;
            }
            return self.user_list[self.focus_y][self.focus_x].is_editable();
        }
        true
    }

    /// The row and the column of the focus.
    pub fn focus(&self) -> (r: (usize, usize))
        ensures
            r.0 == self@.focus_y,
            r.1 == self@.focus_x,
    {
        (self.focus_y, self.focus_x)
    }

    /// Whether the focused cell is under edit.
    pub fn is_editing(&self) -> (r: bool)
        ensures
            r == self@.editing,
    {
        self.editing
    }

    /// The number of rows. Every row has the table's width.
    pub fn num_rows(&self) -> (n: usize)
        ensures
            n == self@.rows.len(),
            self@.rectangular(),
    {
        assert forall|y: int| 0 <= y < self@.rows.len() implies (#[trigger] self@.rows[y]).len()
            == USER_COLUMNS by {}
        self.user_list.len()
    }

    /// Whether more rows may be fetched.
    pub fn sync_state(&self) -> (r: SyncState)
        ensures
            r == self@.sync,
    {
        self.sync_state
    }

    /// Which prompt lies over the table.
    pub fn cur_prompt(&self) -> (r: CurPrompt)
        ensures
            r == self@.cur_prompt,
    {
        self.cur_prompt
    }

    /// The prompt of this view, open or not.
    pub fn prompt(&self) -> (r: &Prompt)
        ensures
            r@ == self@.prompt,
    {
        &self.prompt
    }

    /// The cell in row `y` and column `x`, if there is one.
    pub fn cell(&self, y: usize, x: usize) -> (r: Option<&Editable>)
        ensures
            self@.rectangular(),
            r is Some <==> y < self@.rows.len() && x < USER_COLUMNS,
            r matches Some(c) ==> c@ == self@.rows[y as int][x as int],
    {
        assert forall|k: int| 0 <= k < self@.rows.len() implies (#[trigger] self@.rows[k]).len()
            == USER_COLUMNS by {}
        if y < self.user_list.len() && x < USER_COLUMNS {
            Some(&self.user_list[y][x])
        } else {
            None
        }
    }

    /// The focused cell, if the table has one.
    pub fn cur_item(&self) -> (r: Option<&Editable>)
        ensures
            match r {
                Some(c) => self@.focused() == Some(c@),
                None => self@.focused() is None,
            },
    {
        self.cell(self.focus_y, self.focus_x)
    }

    /// The cell under edit, if edit mode is on.
    pub fn editing_item(&self) -> (r: Option<&Editable>)
        ensures
            match r {
                Some(c) => self@.editing && self@.focused() == Some(c@),
                None => !self@.editing || self@.focused() is None,
            },
    {
        if !self.editing {
            return None;
        }
        self.cur_item()
    }

    /// What to fetch on entering the view.
    pub fn enter_view(&self) -> (r: Option<PageRequest>)
        ensures
            r == self@.next_request(),
    {
        self.next_request()
    }

    /// The page to fetch next: none once the list is exhausted.
    pub fn next_request(&self) -> (r: Option<PageRequest>)
        ensures
            r == self@.next_request(),
    {
        match self.sync_state {
            SyncState::Exhausted => None,
            SyncState::HasMore => Some(
                PageRequest { offset: self.user_list.len(), limit: PAGE_SIZE },
            ),
        }
    }

    /// Opens the prompt that tells the user of a failure. Prompts do not
    /// nest: while one is open it stays as it is and the call fails.
    pub fn show_notice(&mut self, error: &str) -> (r: Result<(), OverlayError>)
        ensures
            final(self)@ == old(self)@.with_failure(error@),
            old(self)@.wf() ==> final(self)@.wf(),
            r is Ok <==> old(self)@.cur_prompt == CurPrompt::Hidden,
            r is Err ==> r == Err::<(), OverlayError>(OverlayError::AlreadyOpen),
    {
        if self.cur_prompt != CurPrompt::Hidden {
            return Err(OverlayError::AlreadyOpen);
        }
        let mut buttons: Vec<PromptButton> = Vec::new();
        buttons.push(PromptButton::Okay);
        self.prompt = Prompt::new(None, Some(error), None, Some(buttons), 0);
        self.cur_prompt = CurPrompt::Notice;
        assert(self@.prompt.buttons =~= seq![PromptButton::Okay]);
        Ok(())
    }

    /// Takes in what a fetch gave. Once the list is exhausted nothing is
    /// taken and the count is zero. Else the records of a page become new
    /// rows at the end of the table, in their order, and the list counts as
    /// exhausted exactly when the page held fewer records than were asked
    /// for. A failed fetch changes nothing and its error is handed on.
    pub fn load_next_chunk(&mut self, fetched: Result<Vec<UserInfoV1>, String>) -> (r: Result<
        usize,
        String,
    >)
        ensures
            old(self)@.wf() ==> final(self)@.wf(),
            old(self)@.sync == SyncState::Exhausted ==> r == Ok::<usize, String>(0) && final(self)@
                == old(self)@,
            old(self)@.sync == SyncState::HasMore ==> match fetched {
                Ok(page) => r == Ok::<usize, String>(page@.len() as usize) && final(self)@ == old(
                    self,
                )@.with_page(rows_of(page@)),
                Err(e) => r == Err::<usize, String>(e) && final(self)@ == old(self)@,
            },
    {
        if self.sync_state == SyncState::Exhausted {
            return Ok(0);
        }
        let page = match fetched {
            Ok(page) => page,
            Err(e) => {
                return Err(e);
            },
        };
        let num_received: usize = page.len();
        let mut i: usize = 0;
        while i < num_received
            invariant
                i <= num_received,
                num_received == page@.len(),
                self.user_list@.len() == old(self).user_list@.len() + i,
                table_rows(self.user_list@) == table_rows(old(self).user_list@) + rows_of(
                    page@.take(i as int),
                ),
                self.focus_y == old(self).focus_y,
                self.focus_x == old(self).focus_x,
                self.editing == old(self).editing,
                self.cur_prompt == old(self).cur_prompt,
                self.prompt == old(self).prompt,
            decreases num_received - i,
        {
            let row = user_row(&page[i]);
            let ghost before = self.user_list@;
            self.user_list.push(row);
            proof {
                assert(page@.take(i + 1) =~= page@.take(i as int).push(page@[i as int]));
                assert(rows_of(page@.take(i + 1)) =~= rows_of(page@.take(i as int)).push(
                    row_of(page@[i as int]),
                ));
                assert(table_rows(self.user_list@) =~= table_rows(before).push(cells_of(row)));
            }
            i = i + 1;
        }
        // We got less than what we queried for, we hit the end
        if num_received < PAGE_SIZE {
            self.sync_state = SyncState::Exhausted;
        } else {
            self.sync_state = SyncState::HasMore;
        }
        proof {
            assert(page@.take(num_received as int) =~= page@);
            let t = old(self)@.with_page(rows_of(page@));
            assert(self@.rows =~= t.rows);
        }
        Ok(num_received)
    }

    /// Fetches the next page with `fetch_page` and takes it in. Once the
    /// list is exhausted `fetch_page` is not called and the count is zero.
    /// Else it is called once, for a page of `PAGE_SIZE` records that
    /// starts after the rows already there, and what it gives is taken in
    /// as by `load_next_chunk`.
    pub fn load_more<F: FnOnce(usize, usize) -> Result<Vec<UserInfoV1>, String>>(
        &mut self,
        fetch_page: F,
    ) -> (r: Result<usize, String>)
        requires
            forall|offset: usize, limit: usize| fetch_page.requires((offset, limit)),
        ensures
            old(self)@.wf() ==> final(self)@.wf(),
            old(self)@.next_request() is None ==> r == Ok::<usize, String>(0) && final(self)@
                == old(self)@,
            old(self)@.next_request() matches Some(request) ==> exists|
                fetched: Result<Vec<UserInfoV1>, String>,
            |
                {
                    &&& fetch_page.ensures((request.offset, request.limit), fetched)
                    &&& match fetched {
                        Ok(page) => r == Ok::<usize, String>(page@.len() as usize) && final(self)@
                            == old(self)@.with_page(rows_of(page@)),
                        Err(e) => r == Err::<usize, String>(e) && final(self)@ == old(self)@,
                    }
                },
    {
        match self.next_request() {
            None => Ok(0),
            Some(request) => {
                let fetched = fetch_page(request.offset, request.limit);
                let ghost given = fetched;
                let r = self.load_next_chunk(fetched);
                proof {
                    assert(fetch_page.ensures((request.offset, request.limit), given));
                }
                r
            },
        }
    }

    /// Empties the table and fetches its first page anew with `fetch_page`,
    /// which is called once.
    pub fn reload<F: FnOnce(usize, usize) -> Result<Vec<UserInfoV1>, String>>(
        &mut self,
        fetch_page: F,
    ) -> (r: Result<usize, String>)
        requires
            forall|offset: usize, limit: usize| fetch_page.requires((offset, limit)),
        ensures
            final(self)@.wf(),
            exists|fetched: Result<Vec<UserInfoV1>, String>|
                {
                    &&& fetch_page.ensures((0, PAGE_SIZE), fetched)
                    &&& match fetched {
                        Ok(page) => r == Ok::<usize, String>(page@.len() as usize) && final(self)@
                            == old(self)@.refreshed().with_page(rows_of(page@)),
                        Err(e) => r == Err::<usize, String>(e) && final(self)@ == old(
                            self,
                        )@.refreshed(),
                    }
                },
    {
        let _ = self.refresh();
        self.load_more(fetch_page)
    }

    /// Moves the focus by `dy` rows and `dx` columns, each clamped to the
    /// table as it is now. Edit mode goes off where the cell reached cannot
    /// be edited.
    pub fn move_focus(&mut self, dy: isize, dx: isize)
        ensures
            final(self)@ == old(self)@.moved(dy as int, dx as int),
            old(self)@.wf() ==> final(self)@.wf(),
    {
        let _ = apply_offset(&mut self.focus_y, dy, self.user_list.len());
        let _ = apply_offset(&mut self.focus_x, dx, USER_COLUMNS);
        // Disable edit mode if we landed on non editable field
        if self.editing {
            let editable = match self.cur_item() {
                Some(i) => i.is_editable(),
                None => false,
            };
            if !editable {
                self.editing = false;
            }
        }
    }

    /// Empties the table for a full reload and says which page to fetch:
    /// the first one.
    pub fn refresh(&mut self) -> (r: PageRequest)
        ensures
            final(self)@ == old(self)@.refreshed(),
            final(self)@.wf(),
            r == (PageRequest { offset: 0, limit: PAGE_SIZE }),
            final(self)@.next_request() == Some(r),
    {
        self.user_list = Vec::new();
        self.focus_y = 0;
        self.focus_x = 0;
        self.editing = false;
        self.sync_state = SyncState::HasMore;
        assert(self@.rows =~= seq![]);
        PageRequest { offset: 0, limit: PAGE_SIZE }
    }

    /// Performs the required logic based on incoming key events, and says
    /// which page to fetch where the key asks for a reload.
    ///
    /// While a prompt is open it gets every key, and the table stays as it
    /// is. Else the cell under edit sees the key first. What is left moves
    /// the focus (arrows and page keys), reloads (F5), enters edit mode
    /// (Enter on a cell that can be edited) or leaves it (Escape).
    pub fn handle_event(&mut self, key: &Key) -> (r: (HandleRes, Option<PageRequest>))
        ensures
            old(self)@.wf() ==> final(self)@.wf(),
            final(self)@ == old(self)@.after_key(*key),
            r.0 == old(self)@.result_of(*key),
            r.1 == old(self)@.request_of(*key),
    {
        if self.cur_prompt != CurPrompt::Hidden {
            let r = self.prompt.handle_event(key);
            return match r {
                HandleRes::Exit(_) => {
                    self.cur_prompt = CurPrompt::Hidden;
                    (HandleRes::ReDraw, None)
                },
                HandleRes::Ignored => (HandleRes::Handled, None),
                _ => (r, None),
            };
        }
        // Pass keystrokes to the cell under edit
        if self.editing && self.focus_y < self.user_list.len() && self.focus_x < USER_COLUMNS {
            let ghost before = self.user_list@;
            let r = self.user_list[self.focus_y][self.focus_x].handle_event(key);
            proof {
                let y = self.focus_y as int;
                let x = self.focus_x as int;
                let f = old(self)@.rows[y][x];
                assert(cells_of(self.user_list@[y]) =~= cells_of(before[y]).update(
                    x,
                    f.after_key(*key),
                ));
                assert(table_rows(self.user_list@) =~= table_rows(before).update(
                    y,
                    cells_of(before[y]).update(x, f.after_key(*key)),
                ));
            }
            match r {
                EvtResult::Continue => {
                    return (HandleRes::ReDraw, None);
                },
                EvtResult::Stop => {
                    self.editing = false;
                    return (HandleRes::ReDraw, None);
                },
                EvtResult::Pass => {
                    proof {
                        let y = self.focus_y as int;
                        let x = self.focus_x as int;
                        let f = old(self)@.rows[y][x];
                        assert(f.after_key(*key) == f);
                        assert(cells_of(before[y]).update(x, f) =~= cells_of(before[y]));
                        assert(table_rows(self.user_list@) =~= table_rows(before));
                    }
                },
            }
        }
        let (dy, dx): (isize, isize) = match key {
            Key::Down => (1, 0),
            Key::Up => (-1, 0),
            Key::Right => (0, 1),
            Key::Left => (0, -1),
            Key::PageDown => (5, 0),
            Key::PageUp => (-5, 0),
            Key::F(n) => {
                if *n == 5 {
                    let request = self.refresh();
                    return (HandleRes::ReDraw, Some(request));
                }
                return (HandleRes::Ignored, None);
            },
            Key::Enter => {
                if !self.editing {
                    match self.cur_item() {
                        Some(i) => {
                            if !i.is_editable() {
                                return (HandleRes::Handled, None);
                            }
                            self.editing = true;
                        },
                        None => {},
                    }
                }
                return (HandleRes::ReDraw, None);
            },
            Key::Esc => {
                if self.editing {
                    self.editing = false;
                    return (HandleRes::ReDraw, None);
                }
                return (HandleRes::Ignored, None);
            },
            _ => {
                return (HandleRes::Ignored, None);
            },
        };
        let old_y: usize = self.focus_y;
        let old_x: usize = self.focus_x;
        self.move_focus(dy, dx);
        if old_y != self.focus_y || old_x != self.focus_x {
            // The focus left the cell: it is no longer under edit
            self.editing = false;
            (HandleRes::ReDraw, None)
        } else {
            (HandleRes::Handled, None)
        }
    }

    /// The number of cells that differ from their baseline, capped at
    /// `usize::MAX`.
    pub fn count_dirty(&self) -> (n: usize)
        ensures
            n == if dirty_total(self@.rows) > usize::MAX {
                usize::MAX as nat
            } else {
                dirty_total(self@.rows)
            },
    {
        let mut n: usize = 0;
        let mut y: usize = 0;
        while y < self.user_list.len()
            invariant
                y <= self.user_list@.len(),
                n == if dirty_total(self@.rows.take(y as int)) > usize::MAX {
                    usize::MAX as nat
                } else {
                    dirty_total(self@.rows.take(y as int))
                },
            decreases self.user_list@.len() - y,
        {
            let ghost done = dirty_total(self@.rows.take(y as int));
            let ghost cells = self@.rows[y as int];
            let mut x: usize = 0;
            while x < USER_COLUMNS
                invariant
                    x <= USER_COLUMNS,
                    y < self.user_list@.len(),
                    cells == self@.rows[y as int],
                    cells.len() == USER_COLUMNS,
                    n == if done + dirty_cells(cells.take(x as int)) > usize::MAX {
                        usize::MAX as nat
                    } else {
                        done + dirty_cells(cells.take(x as int))
                    },
                decreases USER_COLUMNS - x,
            {
                proof {
                    assert(cells.take(x + 1).drop_last() =~= cells.take(x as int));
                }
                if self.user_list[y][x].is_changed() {
                    n = n.saturating_add(1);
                }
                x = x + 1;
            }
            proof {
                assert(cells.take(USER_COLUMNS as int) =~= cells);
                assert(self@.rows.take(y + 1).drop_last() =~= self@.rows.take(y as int));
            }
            y = y + 1;
        }
        proof {
            assert(self@.rows.take(self.user_list@.len() as int) =~= self@.rows);
        }
        n
    }
}

/// Something that happens to the table.
pub enum TableEvent {
    /// A key was pressed.
    Pressed(Key),
    /// A fetch came back with rows.
    Loaded(Seq<Seq<Field>>),
    /// A fetch failed with an error text.
    Failed(Seq<char>),
}

impl Table {
    /// The table after `event`.
    pub open spec fn after_event(self, event: TableEvent) -> Table {
        match event {
            TableEvent::Pressed(key) => self.after_key(key),
            TableEvent::Loaded(page) => self.with_page(page),
            TableEvent::Failed(error) => self.with_failure(error),
        }
    }

    /// Whether `event` makes the table reload.
    pub open spec fn reloads_on(self, event: TableEvent) -> bool {
        event matches TableEvent::Pressed(key) && self.request_of(key) is Some
    }

    /// The table after each of `events`, first to last.
    pub open spec fn after_events(self, events: Seq<TableEvent>) -> Table
        decreases events.len(),
    {
        if events.len() == 0 {
            self
        } else {
            self.after_events(events.drop_last()).after_event(events.last())
        }
    }

    /// Whether none of `events` makes the table reload when they happen one
    /// after the other.
    pub open spec fn reload_free(self, events: Seq<TableEvent>) -> bool
        decreases events.len(),
    {
        events.len() > 0 ==> self.reload_free(events.drop_last()) && !self.after_events(
            events.drop_last(),
        ).reloads_on(events.last())
    }
}

/// A page that comes short of the page size exhausts the list, and a full
/// page does not.
pub proof fn lemma_short_page_exhausts(table: Table, page: Seq<Seq<Field>>)
    requires
        table.sync == SyncState::HasMore,
    ensures
        table.with_page(page).sync == SyncState::Exhausted <==> page.len() < PAGE_SIZE,
        page.len() < PAGE_SIZE ==> table.with_page(page).next_request() is None,
        table.with_page(page).rows.len() == table.rows.len() + page.len(),
{
}

/// Once the list is exhausted it stays so, no further page is asked for and
/// a page that arrives all the same adds no row, whatever happens, until a
/// reload.
pub proof fn lemma_exhausted_until_reload(table: Table, events: Seq<TableEvent>)
    requires
        table.sync == SyncState::Exhausted,
        table.reload_free(events),
    ensures
        table.after_events(events).sync == SyncState::Exhausted,
        table.after_events(events).next_request() is None,
        forall|page: Seq<Seq<Field>>| #[trigger]
            table.after_events(events).with_page(page) == table.after_events(events),
    decreases events.len(),
{
    if events.len() > 0 {
        lemma_exhausted_until_reload(table, events.drop_last());
    }
}

/// A reload makes the list count as having more rows again, and asks for
/// the first page.
pub proof fn lemma_reload_asks_first_page(table: Table, key: Key)
    requires
        table.request_of(key) is Some,
    ensures
        table.after_key(key) == table.refreshed(),
        table.after_key(key).sync == SyncState::HasMore,
        table.after_key(key).rows.len() == 0,
        table.after_key(key).focus_y == 0 && table.after_key(key).focus_x == 0,
        table.request_of(key) == table.after_key(key).next_request(),
{
}

/// While a prompt is open, no key reaches the table: rows, focus, edit mode
/// and fetch state stay as they are, and no page is asked for.
pub proof fn lemma_prompt_preempts_table(table: Table, key: Key)
    requires
        table.cur_prompt != CurPrompt::Hidden,
    ensures
        table.after_key(key).rows == table.rows,
        table.after_key(key).focus_y == table.focus_y,
        table.after_key(key).focus_x == table.focus_x,
        table.after_key(key).editing == table.editing,
        table.after_key(key).sync == table.sync,
        table.after_key(key).prompt == table.prompt.after_key(key),
        table.request_of(key) is None,
        table.result_of(key) != HandleRes::Ignored,
{
}

/// Every key leaves the focus inside the table and edit mode on only over
/// a cell that can be edited.
pub proof fn lemma_key_keeps_table_wf(table: Table, key: Key)
    requires
        table.wf(),
    ensures
        table.after_key(key).wf(),
{
    let after = table.after_key(key);
    if table.cur_prompt == CurPrompt::Hidden && table.cell_takes(key) {
        assert forall|y: int| 0 <= y < after.rows.len() implies (#[trigger] after.rows[y]).len()
            == USER_COLUMNS by {
            assert(table.rows[y].len() == USER_COLUMNS);
        }
    }
}

} // verus!
