use synapse_panel::backend::{Synapse, UserInfoV1};
use synapse_panel::editable::Key;
use synapse_panel::prompt::{HandleRes, PromptButton};
use synapse_panel::state::{Content, Effect, Frame, HomeView, State, Tab, View};
use synapse_panel::users::{CurPrompt, OverlayError, PageRequest, SyncState};

fn users(n: usize) -> Vec<UserInfoV1> {
    (0..n)
        .map(|i| UserInfoV1 {
            name: format!("@u{}:h", i),
            is_guest: false,
            admin: false,
            deactivated: false,
            shadow_banned: false,
            displayname: format!("U{}", i),
            avatar_url: None,
            creation_ts: i,
        })
        .collect()
}

fn fresh() -> State {
    State::from_views(vec![View::Home, View::UserList], Synapse::new("http://h".to_string(), false))
}

fn logged_in() -> State {
    let mut s = fresh();
    s.validated(Ok(()));
    s
}

fn on_users(n: usize) -> State {
    let mut s = logged_in();
    s.next_tab();
    let frame = s.draw_base();
    assert_eq!(frame.effect, Effect::FetchPage(PageRequest { offset: 0, limit: 32 }));
    assert_eq!(s.page_loaded(Ok(users(n))), Ok(n));
    s
}

#[test]
fn a_fresh_state() {
    let s = fresh();
    assert!(s.is_wf());
    assert!(s.show_help());
    assert_eq!(s.cur_tab(), 0);
    assert!(!s.backend_prompt());
    assert_eq!(
        s.tabs(),
        &vec![
            Tab { view: View::Home, entered: false },
            Tab { view: View::UserList, entered: false }
        ]
    );
    assert_eq!(s.users().num_rows(), 0);
    assert_eq!(View::Home.title(), "Summary");
    assert_eq!(View::UserList.title(), "Users");
    assert_eq!(HomeView::new().title(), "Summary");
    assert_eq!(HomeView::new().handle_event(&Key::Enter), HandleRes::Ignored);
}

#[test]
fn the_first_frame_asks_for_credentials() {
    let mut s = fresh();
    let frame = s.draw_base();
    assert_eq!(
        frame,
        Frame { show_help: true, selected: 0, content: Content::Credentials, effect: Effect::Nothing }
    );
    assert!(s.backend_prompt());
    assert_eq!(s.prompt().fields.len(), 2);
    assert_eq!(s.prompt().fields[0].1.as_str(), "http://h");
    assert_eq!(s.prompt().cursor, 1);
    let again = s.draw_base();
    assert_eq!(again.content, Content::Credentials);
    assert_eq!(s.prompt().cursor, 1);
}

#[test]
fn submitting_the_credentials() {
    let mut s = fresh();
    s.draw_base();
    for c in "tok".chars() {
        assert_eq!(s.handle_event(&Key::Char(c)), (HandleRes::ReDraw, Effect::Nothing));
    }
    assert_eq!(s.handle_event(&Key::Enter), (HandleRes::ReDraw, Effect::Validate));
    assert!(s.backend_prompt());
    assert_eq!(s.prompt().action, Some(PromptButton::Okay));
    assert_eq!(s.backend().host(), "http://h");
    assert_eq!(s.backend().access_token(), "tok");
    s.validated(Err("GET http://h/x returned 401 Unauthorized".to_string()));
    assert!(s.backend_prompt());
    assert_eq!(s.prompt().action, None);
    assert_eq!(s.prompt().error, "GET http://h/x returned 401 Unauthorized");
    assert_eq!(s.prompt().cursor, 1);
    assert_eq!(s.handle_event(&Key::Enter), (HandleRes::ReDraw, Effect::Validate));
    s.validated(Ok(()));
    assert!(!s.backend_prompt());
    assert!(s.backend().token_valid());
    let frame = s.draw_base();
    assert_eq!(frame.content, Content::Tab(View::Home));
    assert_eq!(frame.effect, Effect::Nothing);
}

#[test]
fn submitting_without_a_token_stays_in_the_prompt() {
    let mut s = fresh();
    s.draw_base();
    assert_eq!(s.handle_event(&Key::Enter), (HandleRes::ReDraw, Effect::Nothing));
    assert!(s.backend_prompt());
    assert_eq!(s.prompt().error, "Error : token is mandatory");
    assert_eq!(s.prompt().cursor, 1);
    assert_eq!(s.prompt().action, None);
}

#[test]
fn escape_in_the_credential_prompt_ends_the_program() {
    let mut s = fresh();
    s.draw_base();
    assert_eq!(s.handle_event(&Key::Esc), (HandleRes::Exit(false), Effect::Nothing));
    assert!(!s.backend_prompt());
    assert_eq!(s.prompt().action, Some(PromptButton::Exit));
}

#[test]
fn the_credential_prompt_takes_every_key() {
    let mut s = fresh();
    s.draw_base();
    for k in [Key::Tab, Key::BackTab, Key::F(1), Key::F(5), Key::Other] {
        assert_eq!(s.handle_event(&k), (HandleRes::Handled, Effect::Nothing));
    }
    assert_eq!(s.cur_tab(), 0);
    assert!(s.show_help());
    assert_eq!(s.handle_event(&Key::Char('q')), (HandleRes::ReDraw, Effect::Nothing));
    assert_eq!(s.prompt().fields[1].1.as_str(), "q");
    assert_eq!(s.users().num_rows(), 0);
}

#[test]
fn the_prompt_share_of_a_key_is_nothing_while_it_is_closed() {
    let mut s = logged_in();
    assert_eq!(s.handle_event_pre(&Key::Enter), (HandleRes::Ignored, Effect::Nothing));
    assert_eq!(s.handle_event_pre(&Key::Esc), (HandleRes::Ignored, Effect::Nothing));
    assert!(!s.backend_prompt());
}

#[test]
fn entering_the_table_asks_for_its_first_page_once() {
    let mut s = logged_in();
    assert_eq!(s.handle_event(&Key::Tab), (HandleRes::ReDraw, Effect::Nothing));
    assert_eq!(s.cur_tab(), 1);
    let frame = s.draw_base();
    assert_eq!(frame.selected, 1);
    assert_eq!(frame.content, Content::Tab(View::UserList));
    assert_eq!(frame.effect, Effect::FetchPage(PageRequest { offset: 0, limit: 32 }));
    assert_eq!(s.page_loaded(Ok(users(32))), Ok(32));
    assert!(s.tabs()[1].entered);
    assert!(!s.tabs()[0].entered);
    let next = s.draw_base();
    assert_eq!(next.effect, Effect::Nothing);
    assert_eq!(s.users().num_rows(), 32);
    assert_eq!(s.users().sync_state(), SyncState::HasMore);
}

#[test]
fn a_failed_first_page_opens_a_notice() {
    let mut s = logged_in();
    s.next_tab();
    s.draw_base();
    assert_eq!(s.page_loaded(Err("connection refused".to_string())), Ok(0));
    assert_eq!(s.users().cur_prompt(), CurPrompt::Notice);
    assert_eq!(s.users().prompt().error, "connection refused");
    assert_eq!(s.page_loaded(Err("again".to_string())), Err(OverlayError::AlreadyOpen));
    assert_eq!(s.users().prompt().error, "connection refused");
    assert_eq!(s.handle_event(&Key::Tab), (HandleRes::Handled, Effect::Nothing));
    assert_eq!(s.cur_tab(), 1);
    assert_eq!(s.handle_event(&Key::Char('q')), (HandleRes::Handled, Effect::Nothing));
    assert_eq!(s.handle_event(&Key::Enter), (HandleRes::ReDraw, Effect::Nothing));
    assert_eq!(s.users().cur_prompt(), CurPrompt::Hidden);
    assert_eq!(s.handle_event(&Key::Char('q')), (HandleRes::Exit(true), Effect::Nothing));
}

#[test]
fn keys_go_to_the_table_first() {
    let mut s = on_users(3);
    assert_eq!(s.handle_event(&Key::Down), (HandleRes::ReDraw, Effect::Nothing));
    assert_eq!(s.users().focus(), (1, 0));
    assert_eq!(s.handle_event(&Key::Right), (HandleRes::ReDraw, Effect::Nothing));
    assert_eq!(s.handle_event(&Key::Enter), (HandleRes::ReDraw, Effect::Nothing));
    assert!(s.users().is_editing());
    assert_eq!(s.handle_event(&Key::Char('q')), (HandleRes::ReDraw, Effect::Nothing));
    assert_eq!(s.handle_event(&Key::Char('Q')), (HandleRes::ReDraw, Effect::Nothing));
    assert_eq!(s.users().cur_item().map(|c| c.as_str()), Some("U1qQ"));
    assert_eq!(s.handle_event(&Key::Esc), (HandleRes::ReDraw, Effect::Nothing));
    assert_eq!(s.users().cur_item().map(|c| c.as_str()), Some("U1"));
    assert!(!s.users().is_editing());
    assert_eq!(s.handle_event(&Key::Esc), (HandleRes::Exit(true), Effect::Nothing));
}

#[test]
fn f5_asks_for_a_reload() {
    let mut s = on_users(3);
    assert_eq!(
        s.handle_event(&Key::F(5)),
        (HandleRes::ReDraw, Effect::FetchPage(PageRequest { offset: 0, limit: 32 }))
    );
    assert_eq!(s.users().num_rows(), 0);
    assert_eq!(s.page_loaded(Ok(users(32))), Ok(32));
    assert_eq!(s.page_loaded(Ok(users(10))), Ok(10));
    assert_eq!(s.users().num_rows(), 42);
    assert_eq!(s.page_loaded(Ok(users(10))), Ok(0));
    assert_eq!(s.users().num_rows(), 42);
    let mut h = logged_in();
    assert_eq!(h.handle_event(&Key::F(5)), (HandleRes::Ignored, Effect::Nothing));
}

#[test]
fn switching_tabs_and_help() {
    let mut s = logged_in();
    assert_eq!(s.handle_event(&Key::BackTab), (HandleRes::Handled, Effect::Nothing));
    assert_eq!(s.handle_event(&Key::Tab), (HandleRes::ReDraw, Effect::Nothing));
    assert_eq!(s.handle_event(&Key::Tab), (HandleRes::Handled, Effect::Nothing));
    assert_eq!(s.cur_tab(), 1);
    assert_eq!(s.handle_event(&Key::BackTab), (HandleRes::ReDraw, Effect::Nothing));
    assert_eq!(s.cur_tab(), 0);
    assert_eq!(s.handle_event(&Key::F(1)), (HandleRes::ReDraw, Effect::Nothing));
    assert!(!s.show_help());
    assert_eq!(s.handle_event_switch(&Key::F(1)), HandleRes::ReDraw);
    assert!(s.show_help());
    assert_eq!(s.handle_event_switch(&Key::F(2)), HandleRes::Ignored);
    assert_eq!(s.handle_event_switch(&Key::Enter), HandleRes::Ignored);
    s.toggle_help();
    assert!(!s.show_help());
    s.next_tab();
    s.next_tab();
    assert_eq!(s.cur_tab(), 1);
    s.prev_tab();
    s.prev_tab();
    assert_eq!(s.cur_tab(), 0);
    assert!(s.is_wf());
}

#[test]
fn keys_that_nobody_takes() {
    let mut s = logged_in();
    assert_eq!(s.handle_event(&Key::Char('q')), (HandleRes::Exit(true), Effect::Nothing));
    assert_eq!(s.handle_event(&Key::Char('Q')), (HandleRes::Exit(true), Effect::Nothing));
    assert_eq!(s.handle_event(&Key::Esc), (HandleRes::Exit(true), Effect::Nothing));
    assert_eq!(s.handle_event(&Key::Char('x')), (HandleRes::Ignored, Effect::Nothing));
    assert_eq!(s.handle_event(&Key::Enter), (HandleRes::Ignored, Effect::Nothing));
    assert_eq!(s.handle_event_last(&Key::Esc), HandleRes::Exit(true));
    assert_eq!(s.handle_event_last(&Key::Char('q')), HandleRes::Exit(true));
    assert_eq!(s.handle_event_last(&Key::Char('w')), HandleRes::Ignored);
    assert_eq!(s.handle_event_last(&Key::Tab), HandleRes::Ignored);
}

#[test]
fn a_refused_token_brings_the_prompt_back() {
    let mut s = on_users(2);
    assert!(!s.note_status(401, Some(200)));
    assert!(!s.backend().token_valid());
    let frame = s.draw_base();
    assert_eq!(frame.content, Content::Credentials);
    assert!(s.backend_prompt());
    assert_eq!(s.prompt().fields[0].1.as_str(), "http://h");
    assert_eq!(s.handle_event(&Key::Down), (HandleRes::ReDraw, Effect::Nothing));
    assert_eq!(s.users().focus(), (0, 0));
    assert_eq!(s.users().num_rows(), 2);
    assert!(s.note_status(200, Some(200)));
}

#[test]
fn a_state_without_tabs() {
    let mut s = State::from_views(Vec::new(), Synapse::new("h".to_string(), false));
    s.validated(Ok(()));
    assert!(s.is_wf());
    let frame = s.draw_base();
    assert_eq!(frame.content, Content::Blank);
    assert_eq!(frame.effect, Effect::Nothing);
    assert_eq!(s.handle_event(&Key::Tab), (HandleRes::Handled, Effect::Nothing));
    assert_eq!(s.cur_tab(), 0);
}

#[test]
fn the_default_view_is_the_summary() {
    assert_eq!(View::default(), View::Home);
    assert_eq!(HomeView::default().title(), "Summary");
}
