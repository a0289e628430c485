//! The top level: the tab strip, the help strip, the credential prompt, and
//! the routing of every key to whoever is to see it first.

use crate::backend::{
    answer_after_prompt, credential_prompt, rejected, BackendImpl, Credentials, PromptStep,
    Synapse, UserInfoV1,
};
use crate::editable::{Field, Key};
use crate::focus::{apply_offset, dec_val, in_bounds, inc_val, moved_down, moved_up, shifted};
use crate::prompt::{HandleRes, Overlay, Prompt};
use crate::users::{
    rows_of, CurPrompt, OverlayError, PageRequest, SyncState, Table, UsersView,
};
use vstd::prelude::*;
use vstd::view::View as _;

verus! {

/// The top-level views, one per tab.
#[derive(Clone, Copy, Debug, PartialEq, Eq, Structural)]
pub enum View {
    Home,
    UserList,
}

impl Default for View {
    /// The summary.
    fn default() -> (r: Self)
        ensures
            r == View::Home,
    {
        View::Home
    }
}

impl View {
    /// The display value of this view
    pub fn title(&self) -> (r: &'static str)
        ensures
            r@ == match *self {
                View::Home => "Summary"@,
                View::UserList => "Users"@,
            },
    {
        match self {
            View::Home => "Summary",
            View::UserList => "Users",
        }
    }
}

/// The summary view. It shows nothing yet and takes no key.
pub struct HomeView {}

impl Default for HomeView {
    fn default() -> HomeView {
        HomeView {  }
    }
}

impl HomeView {
    /// The summary view.
    pub fn new() -> HomeView {
        HomeView {  }
    }

    /// The display value of this view
    pub fn title(&self) -> (r: &'static str)
        ensures
            r@ == "Summary"@,
    {
        "Summary"
    }

    /// Takes no key.
    pub fn handle_event(&mut self, _key: &Key) -> (r: HandleRes)
        ensures
            r == HandleRes::Ignored,
    {
        HandleRes::Ignored
    }
}

/// One tab of the tab strip.
#[derive(Clone, Copy, Debug, PartialEq, Eq, Structural)]
pub struct Tab {
    pub view: View,
    /// Whether the view was entered already.
    pub entered: bool,
}

/// The tabs for `views`, none of them entered yet.
pub open spec fn fresh_tabs(views: Seq<View>) -> Seq<Tab> {
    views.map_values(|view: View| Tab { view, entered: false })
}

/// What the caller is to do for the state before the next key.
#[derive(Clone, Copy, Debug, PartialEq, Eq, Structural)]
pub enum Effect {
    /// Nothing.
    Nothing,
    /// Fetch the page and hand the outcome to `page_loaded`.
    FetchPage(PageRequest),
    /// Check host and token against the service and hand the outcome to
    /// `validated`.
    Validate,
}

/// What fills the area below the tab strip.
#[derive(Clone, Copy, Debug, PartialEq, Eq, Structural)]
pub enum Content {
    /// The credential prompt.
    Credentials,
    /// The view of the current tab.
    Tab(View),
    /// Nothing: there is no tab.
    Blank,
}

/// What one frame shows, and what is to be fetched before it is drawn.
#[derive(Clone, Copy, Debug, PartialEq, Eq, Structural)]
pub struct Frame {
    pub show_help: bool,
    pub selected: usize,
    pub content: Content,
    pub effect: Effect,
}

/// The state of the whole interface.
pub struct State {
    show_help: bool,
    tabs: Vec<Tab>,
    cur_tab: usize,
    backend_prompt: bool,
    prompt: Prompt,
    backend: Synapse,
    home: HomeView,
    users: UsersView,
}

/// The interface as contracts see it.
pub struct Screen {
    pub show_help: bool,
    pub tabs: Seq<Tab>,
    pub cur_tab: int,
    /// Whether the credential prompt is open.
    pub backend_prompt: bool,
    pub prompt: Overlay,
    pub backend: Credentials,
    pub users: Table,
}

/// How far each switching key moves the current tab.
pub open spec fn tab_step(key: Key) -> int {
    match key {
        Key::Tab => 1,
        Key::BackTab => -1,
        _ => 0,
    }
}

/// Whether `key` asks to leave the program when nobody else took it.
pub open spec fn quits(key: Key) -> bool {
    key == Key::Char('q') || key == Key::Char('Q') || key == Key::Esc
}

impl Screen {
    /// The current tab is one of the tabs (zero where there is none), and
    /// the table is well-formed.
    pub open spec fn wf(self) -> bool {
        &&& in_bounds(self.cur_tab, self.tabs.len() as int)
        &&& self.users.wf()
    }

    /// The view of the current tab.
    pub open spec fn current(self) -> Option<View> {
        if 0 <= self.cur_tab < self.tabs.len() {
            Some(self.tabs[self.cur_tab].view)
        } else {
            None
        }
    }

    /// Whether the table is the one to see keys that no prompt took.
    pub open spec fn on_users(self) -> bool {
        self.current() == Some(View::UserList)
    }

    /// The interface after `key` went to the credential prompt.
    pub open spec fn after_prompt_key(self, key: Key) -> Screen {
        let answer = self.prompt.result_of(key);
        let prompt = self.prompt.after_key(key);
        Screen {
            backend: self.backend.after_prompt(prompt, answer),
            prompt: self.backend.prompt_after(prompt, answer),
            backend_prompt: self.backend.step_after_prompt(prompt, answer) != PromptStep::Done,
            ..self
        }
    }

    /// What the interface answers to `key` while the credential prompt is
    /// open. The prompt takes every key: one that it has no use for is
    /// swallowed.
    pub open spec fn prompt_result(self, key: Key) -> HandleRes {
        match answer_after_prompt(self.prompt.result_of(key)) {
            HandleRes::Ignored => HandleRes::Handled,
            r => r,
        }
    }

    /// What is to be done after `key` went to the credential prompt.
    pub open spec fn prompt_effect(self, key: Key) -> Effect {
        if self.backend.step_after_prompt(self.prompt.after_key(key), self.prompt.result_of(key))
            == PromptStep::Validate {
            Effect::Validate
        } else {
            Effect::Nothing
        }
    }

    /// Whether the view of the current tab takes `key`.
    pub open spec fn view_takes(self, key: Key) -> bool {
        self.on_users() && self.users.result_of(key) != HandleRes::Ignored
    }

    /// The interface after a switching key: Tab and BackTab move the
    /// current tab, F1 shows or hides the help strip.
    pub open spec fn switched(self, key: Key) -> Screen {
        Screen {
            cur_tab: shifted(self.cur_tab, tab_step(key), self.tabs.len() as int),
            show_help: if key == Key::F(1) {
                !self.show_help
            } else {
                self.show_help
            },
            ..self
        }
    }

    /// What the interface answers to a key that is left for switching.
    pub open spec fn switch_result(self, key: Key) -> HandleRes {
        match key {
            Key::Tab | Key::BackTab => if self.switched(key).cur_tab != self.cur_tab {
                HandleRes::ReDraw
            } else {
                HandleRes::Handled
            },
            Key::F(n) => if n == 1 {
                HandleRes::ReDraw
            } else {
                HandleRes::Ignored
            },
            _ => HandleRes::Ignored,
        }
    }

    /// The interface after `key`. The credential prompt, while open, takes
    /// every key. Else the view of the current tab sees the key first (the
    /// table: its own prompt, then the cell under edit, then navigation),
    /// and what it leaves goes to tab switching and the help strip.
    pub open spec fn after_key(self, key: Key) -> Screen {
        if self.backend_prompt {
            self.after_prompt_key(key)
        } else if self.on_users() {
            let s = Screen { users: self.users.after_key(key), ..self };
            if self.users.result_of(key) != HandleRes::Ignored {
                s
            } else {
                s.switched(key)
            }
        } else {
            self.switched(key)
        }
    }

    /// What the interface answers to `key`. A key that nobody took ends the
    /// program where it is `q`, `Q` or Escape.
    pub open spec fn result_of(self, key: Key) -> HandleRes {
        if self.backend_prompt {
            self.prompt_result(key)
        } else if self.view_takes(key) {
            self.users.result_of(key)
        } else if self.switch_result(key) != HandleRes::Ignored {
            self.switch_result(key)
        } else if quits(key) {
            HandleRes::Exit(true)
        } else {
            HandleRes::Ignored
        }
    }

    /// What is to be done after `key`.
    pub open spec fn effect_of(self, key: Key) -> Effect {
        if self.backend_prompt {
            self.prompt_effect(key)
        } else if self.on_users() {
            match self.users.request_of(key) {
                Some(request) => Effect::FetchPage(request),
                None => Effect::Nothing,
            }
        } else {
            Effect::Nothing
        }
    }

    /// Whether a frame shows the credential prompt: it is open already, or
    /// the session is not logged in.
    pub open spec fn asks_credentials(self) -> bool {
        self.backend_prompt || !self.backend.token_valid
    }

    /// Whether a frame has to enter the view of the current tab first.
    pub open spec fn enters(self) -> bool {
        !self.asks_credentials() && 0 <= self.cur_tab < self.tabs.len()
            && !self.tabs[self.cur_tab].entered
    }

    /// The interface once a frame was prepared: the credential prompt is
    /// put up where the session is not logged in; else the view of the
    /// current tab counts as entered.
    pub open spec fn framed(self) -> Screen {
        if self.backend_prompt {
            self
        } else if !self.backend.token_valid {
            Screen { backend_prompt: true, prompt: credential_prompt(self.backend), ..self }
        } else if self.enters() {
            Screen {
                tabs: self.tabs.update(
                    self.cur_tab,
                    Tab { entered: true, ..self.tabs[self.cur_tab] },
                ),
                ..self
            }
        } else {
            self
        }
    }

    /// What a frame shows and asks for.
    pub open spec fn frame(self) -> Frame {
        Frame {
            show_help: self.show_help,
            selected: self.cur_tab as usize,
            content: if self.asks_credentials() {
                Content::Credentials
            } else {
                match self.current() {
                    Some(v) => Content::Tab(v),
                    None => Content::Blank,
                }
            },
            effect: if self.enters() && self.on_users() {
                match self.users.next_request() {
                    Some(request) => Effect::FetchPage(request),
                    None => Effect::Nothing,
                }
            } else {
                Effect::Nothing
            },
        }
    }

    /// The interface after a fetch came back: a page goes into the table, a
    /// failure opens the table's notice. Once the list is exhausted neither
    /// has any effect.
    pub open spec fn with_fetched(self, fetched: Result<Seq<Seq<Field>>, Seq<char>>) -> Screen {
        if self.users.sync == SyncState::Exhausted {
            self
        } else {
            match fetched {
                Ok(page) => Screen { users: self.users.with_page(page), ..self },
                Err(e) => Screen { users: self.users.with_failure(e), ..self },
            }
        }
    }

    /// The interface after the credentials were checked: on success the
    /// session is logged in and the prompt closes, on failure the prompt
    /// shows the error.
    pub open spec fn with_validation(self, outcome: Result<(), Seq<char>>) -> Screen {
        match outcome {
            Ok(_) => Screen {
                backend: Credentials { token_valid: true, ..self.backend },
                backend_prompt: false,
                ..self
            },
            Err(e) => Screen { prompt: rejected(self.prompt, e), ..self },
        }
    }
}

impl vstd::view::View for State {
    type V = Screen;

    closed spec fn view(&self) -> Screen {
        Screen {
            show_help: self.show_help,
            tabs: self.tabs@,
            cur_tab: self.cur_tab as int,
            backend_prompt: self.backend_prompt,
            prompt: self.prompt@,
            backend: self.backend@,
            users: self.users@,
        }
    }
}

impl State {
    /// The interface with one tab per view, the first tab current, the help
    /// strip shown and no view entered yet.
    pub fn from_views(views: Vec<View>, backend: Synapse) -> (r: Self)
        ensures
            r@.wf(),
            r@ == (Screen {
                show_help: true,
                tabs: fresh_tabs(views@),
                cur_tab: 0,
                backend_prompt: false,
                prompt: Overlay::empty(),
                backend: backend@,
                users: Table::empty(),
            }),
    {
        let mut tabs: Vec<Tab> = Vec::new();
        let mut i: usize = 0;
        while i < views.len()
            invariant
                i <= views@.len(),
                tabs@ == fresh_tabs(views@.take(i as int)),
            decreases views@.len() - i,
        {
            tabs.push(Tab { view: views[i], entered: false });
            assert(tabs@ =~= fresh_tabs(views@.take(i + 1)));
            i = i + 1;
        }
        assert(views@.take(views@.len() as int) =~= views@);
        State {
            show_help: true,
            tabs,
            cur_tab: 0,
            backend_prompt: false,
            prompt: Prompt::new(None, None, None, None, 0),
            backend,
            home: HomeView::new(),
            users: UsersView::new(),
        }
    }

    /// Whether the current tab is one of the tabs and the table is
    /// well-formed. Every state that this module hands out passes.
    pub fn is_wf(&self) -> (r: bool)
        ensures
            r == self@.wf(),
    {
        let tabs: usize = self.tabs.len();
        let tab_inside = if tabs == 0 {
            self.cur_tab == 0
        } else {
            self.cur_tab < tabs
        };
        tab_inside && self.users.is_wf()
    }

    /// The session with the remote service.
    pub fn backend(&self) -> (r: &Synapse)
        ensures
            r@ == self@.backend,
    {
        &self.backend
    }

    /// The credential prompt, open or not.
    pub fn prompt(&self) -> (r: &Prompt)
        ensures
            r@ == self@.prompt,
    {
        &self.prompt
    }

    /// The table of users.
    pub fn users(&self) -> (r: &UsersView)
        ensures
            r@ == self@.users,
    {
        &self.users
    }

    /// The tabs, in their order.
    pub fn tabs(&self) -> (r: &Vec<Tab>)
        ensures
            r@ == self@.tabs,
    {
        &self.tabs
    }

    /// Whether the help strip is shown.
    pub fn show_help(&self) -> (r: bool)
        ensures
            r == self@.show_help,
    {
        self.show_help
    }

    /// Whether the credential prompt is open.
    pub fn backend_prompt(&self) -> (r: bool)
        ensures
            r == self@.backend_prompt,
    {
        self.backend_prompt
    }

    /// The index of the current tab.
    pub fn cur_tab(&self) -> (r: usize)
        ensures
            r == self@.cur_tab,
    {
        self.cur_tab
    }

    /// Makes the next tab current, if there is one.
    pub fn next_tab(&mut self)
        ensures
            final(self)@ == (Screen {
                cur_tab: moved_up(old(self)@.cur_tab, 1, old(self)@.tabs.len() as int),
                ..old(self)@
            }),
            old(self)@.wf() ==> final(self)@.wf(),
    {
        let _ = inc_val(&mut self.cur_tab, 1, self.tabs.len());
    }

    /// Makes the previous tab current, if there is one.
    pub fn prev_tab(&mut self)
        ensures
            final(self)@ == (Screen { cur_tab: moved_down(old(self)@.cur_tab, 1), ..old(self)@ }),
            old(self)@.wf() ==> final(self)@.wf(),
    {
        dec_val(&mut self.cur_tab, 1)
    }

    /// Shows the help strip if it is hidden and hides it if it is shown.
    pub fn toggle_help(&mut self)
        ensures
            final(self)@ == (Screen { show_help: !old(self)@.show_help, ..old(self)@ }),
    {
        self.show_help = !self.show_help;
    }

    /// Prepares a frame: says what it shows, puts up the credential prompt
    /// where the session is not logged in, and else enters the view of the
    /// current tab where that was not done yet, which for the table asks
    /// for its first page.
    pub fn draw_base(&mut self) -> (r: Frame)
        ensures
            old(self)@.wf() ==> final(self)@.wf(),
            final(self)@ == old(self)@.framed(),
            r == old(self)@.frame(),
    {
        let mut frame = Frame {
            show_help: self.show_help,
            selected: self.cur_tab,
            content: Content::Credentials,
            effect: Effect::Nothing,
        };
        if self.backend_prompt || self.backend.set_prompt(&mut self.prompt) {
            self.backend_prompt = true;
            return frame;
        }
        if self.cur_tab < self.tabs.len() {
            let view = self.tabs[self.cur_tab].view;
            frame.content = Content::Tab(view);
            if !self.tabs[self.cur_tab].entered {
                self.tabs[self.cur_tab].entered = true;
                match view {
                    View::UserList => {
                        match self.users.enter_view() {
                            Some(request) => {
                                frame.effect = Effect::FetchPage(request);
                            },
                            None => {},
                        }
                    },
                    View::Home => {},
                }
            }
        } else {
            frame.content = Content::Blank;
        }
        frame
    }

    /// The credential prompt's share of a key. While the prompt is open it
    /// takes every key, and the backend sees what the prompt answered: a
    /// prompt that ended without a go-ahead closes and ends the program, a
    /// go-ahead takes the credentials over and asks for them to be checked.
    /// While the prompt is closed nothing happens and the key is left to the
    /// others.
    pub fn handle_event_pre(&mut self, key: &Key) -> (r: (HandleRes, Effect))
        ensures
            old(self)@.wf() ==> final(self)@.wf(),
            old(self)@.backend_prompt ==> final(self)@ == old(self)@.after_prompt_key(*key) && r.0
                == old(self)@.prompt_result(*key) && r.1 == old(self)@.prompt_effect(*key),
            !old(self)@.backend_prompt ==> final(self)@ == old(self)@ && r.0 == HandleRes::Ignored
                && r.1 == Effect::Nothing,
    {
        if !self.backend_prompt {
            return (HandleRes::Ignored, Effect::Nothing);
        }
        let mut r = self.prompt.handle_event(key);
        let step = self.backend.prompt_done(&mut self.prompt, &mut r);
        match step {
            PromptStep::Done => {
                self.backend_prompt = false;
                (swallowed(r), Effect::Nothing)
            },
            PromptStep::Pending => (swallowed(r), Effect::Nothing),
            PromptStep::Validate => (swallowed(r), Effect::Validate),
        }
    }

    /// The share of a key that is left for switching: Tab and BackTab move
    /// the current tab, F1 shows or hides the help strip.
    pub fn handle_event_switch(&mut self, key: &Key) -> (r: HandleRes)
        ensures
            old(self)@.wf() ==> final(self)@.wf(),
            final(self)@ == old(self)@.switched(*key),
            r == old(self)@.switch_result(*key),
    {
        let amount: isize = match key {
            Key::Tab => 1,
            Key::BackTab => -1,
            Key::F(n) => {
                if *n == 1 {
                    self.show_help = !self.show_help;
                    return HandleRes::ReDraw;
                }
                return HandleRes::Ignored;
            },
            _ => {
                return HandleRes::Ignored;
            },
        };
        let old_tab: usize = self.cur_tab;
        let _ = apply_offset(&mut self.cur_tab, amount, self.tabs.len());
        if old_tab != self.cur_tab {
            HandleRes::ReDraw
        } else {
            HandleRes::Handled
        }
    }

    /// The share of a key that nobody took: `q`, `Q` and Escape end the
    /// program.
    pub fn handle_event_last(&mut self, key: &Key) -> (r: HandleRes)
        ensures
            *final(self) == *old(self),
            r == if quits(*key) {
                HandleRes::Exit(true)
            } else {
                HandleRes::Ignored
            },
    {
        // If no one handled escape, exit
        match key {
            Key::Char(c) => {
                if *c == 'q' || *c == 'Q' {
                    return HandleRes::Exit(true);
                }
                HandleRes::Ignored
            },
            Key::Esc => HandleRes::Exit(true),
            _ => HandleRes::Ignored,
        }
    }

    /// Routes one key and says what the caller is to do next.
    pub fn handle_event(&mut self, key: &Key) -> (r: (HandleRes, Effect))
        ensures
            old(self)@.wf() ==> final(self)@.wf(),
            final(self)@ == old(self)@.after_key(*key),
            r.0 == old(self)@.result_of(*key),
            r.1 == old(self)@.effect_of(*key),
    {
        if self.backend_prompt {
            return self.handle_event_pre(key);
        }
        // Forward anything else to the view
        if self.cur_tab < self.tabs.len() {
            match self.tabs[self.cur_tab].view {
                View::UserList => {
                    let (res, request) = self.users.handle_event(key);
                    if res != HandleRes::Ignored {
                        let effect = match request {
                            Some(request) => Effect::FetchPage(request),
                            None => Effect::Nothing,
                        };
                        return (res, effect);
                    }
                },
                View::Home => {
                    let _ = self.home.handle_event(key);
                },
            }
        }
        let res = self.handle_event_switch(key);
        if res != HandleRes::Ignored {
            return (res, Effect::Nothing);
        }
        (self.handle_event_last(key), Effect::Nothing)
    }

    /// Takes in what a fetch gave: a page goes into the table, a failure
    /// opens the table's notice with the error. Returns the number of rows
    /// added, or an error where the notice could not be opened because the
    /// table's prompt was open already.
    pub fn page_loaded(&mut self, fetched: Result<Vec<UserInfoV1>, String>) -> (r: Result<
        usize,
        OverlayError,
    >)
        ensures
            old(self)@.wf() ==> final(self)@.wf(),
            final(self)@ == old(self)@.with_fetched(
                match fetched {
                    Ok(page) => Ok(rows_of(page@)),
                    Err(e) => Err(e@),
                },
            ),
            r == if old(self)@.users.sync == SyncState::Exhausted {
                Ok::<usize, OverlayError>(0)
            } else {
                match fetched {
                    Ok(page) => Ok::<usize, OverlayError>(page@.len() as usize),
                    Err(_) => if old(self)@.users.cur_prompt == CurPrompt::Hidden {
                        Ok::<usize, OverlayError>(0)
                    } else {
                        Err::<usize, OverlayError>(OverlayError::AlreadyOpen)
                    },
                }
            },
    {
        match self.users.load_next_chunk(fetched) {
            Ok(n) => Ok(n),
            Err(e) => match self.users.show_notice(e.as_str()) {
                Ok(_) => Ok(0),
                Err(busy) => Err(busy),
            },
        }
    }

    /// Takes in the status of a reply from the service: a refusal of the
    /// token makes the session count as not logged in, so that the next
    /// frame asks for the credentials again. Returns whether the status is
    /// the expected one.
    pub fn note_status(&mut self, status: u16, expected: Option<u16>) -> (r: bool)
        ensures
            old(self)@.wf() ==> final(self)@.wf(),
            final(self)@ == (Screen {
                backend: Credentials {
                    token_valid: old(self)@.backend.token_valid && status != 401,
                    ..old(self)@.backend
                },
                ..old(self)@
            }),
            r == match expected {
                Some(s) => status == s,
                None => true,
            },
    {
        self.backend.note_status(status, expected)
    }

    /// Takes in the outcome of checking the credentials against the
    /// service: on success the prompt closes, on failure it shows the error
    /// and puts the cursor on the field that the error points at.
    pub fn validated(&mut self, outcome: Result<(), String>)
        ensures
            old(self)@.wf() ==> final(self)@.wf(),
            final(self)@ == old(self)@.with_validation(
                match outcome {
                    Ok(_) => Ok(()),
                    Err(e) => Err(e@),
                },
            ),
    {
        if self.backend.validated(&mut self.prompt, outcome) {
            self.backend_prompt = false;
        }
    }
}

/// A key that the prompt has no use for is swallowed.
pub fn swallowed(r: HandleRes) -> (s: HandleRes)
    ensures
        s == match r {
            HandleRes::Ignored => HandleRes::Handled,
            r => r,
        },
{
    match r {
        HandleRes::Ignored => HandleRes::Handled,
        _ => r,
    }
}

/// While the credential prompt is open it owns the keyboard: no key reaches
/// the table, the tabs or the help strip, no page is asked for, and no key
/// is left over for anyone else.
pub proof fn lemma_credential_prompt_preempts(screen: Screen, key: Key)
    requires
        screen.backend_prompt,
    ensures
        screen.after_key(key).users == screen.users,
        screen.after_key(key).cur_tab == screen.cur_tab,
        screen.after_key(key).show_help == screen.show_help,
        screen.after_key(key).tabs == screen.tabs,
        screen.result_of(key) != HandleRes::Ignored,
        !(screen.effect_of(key) is FetchPage),
{
}

/// While the table's own prompt is open, no key reaches the table's rows,
/// focus or edit mode, the tabs or the help strip.
pub proof fn lemma_table_prompt_preempts(screen: Screen, key: Key)
    requires
        !screen.backend_prompt,
        screen.on_users(),
        screen.users.cur_prompt != CurPrompt::Hidden,
    ensures
        screen.after_key(key).users.rows == screen.users.rows,
        screen.after_key(key).users.focus_y == screen.users.focus_y,
        screen.after_key(key).users.focus_x == screen.users.focus_x,
        screen.after_key(key).users.editing == screen.users.editing,
        screen.after_key(key).users.sync == screen.users.sync,
        screen.after_key(key).cur_tab == screen.cur_tab,
        screen.after_key(key).show_help == screen.show_help,
        screen.effect_of(key) == Effect::Nothing,
        screen.result_of(key) != HandleRes::Ignored,
{
}

/// Once the list of users is exhausted, entering the table asks for no
/// page, and the only key that asks for one is a reload.
pub proof fn lemma_exhausted_asks_no_page(screen: Screen, key: Key)
    requires
        screen.users.sync == SyncState::Exhausted,
    ensures
        screen.frame().effect == Effect::Nothing,
        screen.effect_of(key) is FetchPage ==> screen.users.request_of(key) is Some
            && screen.after_key(key).users == screen.users.refreshed(),
{
}

/// Every key leaves the current tab among the tabs and the table
/// well-formed.
pub proof fn lemma_key_keeps_screen_wf(screen: Screen, key: Key)
    requires
        screen.wf(),
    ensures
        screen.after_key(key).wf(),
{
    crate::users::lemma_key_keeps_table_wf(screen.users, key);
}

} // verus!
