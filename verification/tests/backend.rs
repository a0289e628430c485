use synapse_panel::backend::{bool_from_num, reject, BackendImpl, PromptStep, Synapse};
use synapse_panel::editable::{Editable, Key};
use synapse_panel::prompt::{HandleRes, Prompt, PromptButton};

fn filled(host: &str, token: &str) -> Prompt {
    Prompt::new(
        Some("Please provide the missing server information"),
        None,
        Some(vec![
            ("Host".to_string(), Editable::string(host)),
            ("Access Token".to_string(), Editable::string(token)),
        ]),
        Some(vec![PromptButton::Okay, PromptButton::Exit]),
        0,
    )
}

#[test]
fn numbers_as_flags() {
    assert!(!bool_from_num(0));
    assert!(bool_from_num(1));
    assert!(bool_from_num(7));
    assert!(bool_from_num(usize::MAX));
}

#[test]
fn a_new_session_is_not_logged_in() {
    let s = Synapse::new("http://127.0.0.1:8008".to_string(), true);
    assert!(!s.token_valid());
    assert_eq!(s.host(), "http://127.0.0.1:8008");
    assert_eq!(s.access_token(), "");
    assert!(s.allow_invalid_certs());
    assert!(!Synapse::new(String::new(), false).allow_invalid_certs());
}

#[test]
fn the_credential_prompt_is_prefilled() {
    let s = Synapse::new("http://h".to_string(), false);
    let mut p = Prompt::new(Some("old"), Some("old error"), None, None, 9);
    assert!(s.set_prompt(&mut p));
    assert_eq!(p.msg, "Please provide the missing server information");
    assert_eq!(p.error, "");
    assert_eq!(p.fields.len(), 2);
    assert_eq!(p.fields[0].0, "Host");
    assert_eq!(p.fields[0].1.as_str(), "http://h");
    assert_eq!(p.fields[1].0, "Access Token");
    assert_eq!(p.fields[1].1.as_str(), "");
    assert!(p.fields[0].1.is_editable() && p.fields[1].1.is_editable());
    assert_eq!(p.buttons, vec![PromptButton::Okay, PromptButton::Exit]);
    assert_eq!(p.cursor, 1);
    assert_eq!(p.action, None);
    let empty = Synapse::new(String::new(), false);
    assert!(empty.set_prompt(&mut p));
    assert_eq!(p.cursor, 0);
}

#[test]
fn no_prompt_once_logged_in() {
    let mut s = Synapse::new("h".to_string(), false);
    let mut p = filled("h", "t");
    assert!(s.validated(&mut p, Ok(())));
    assert!(s.token_valid());
    let mut q = Prompt::new(Some("keep"), None, None, None, 4);
    assert!(!s.set_prompt(&mut q));
    assert_eq!(q.msg, "keep");
    assert_eq!(q.cursor, 4);
}

#[test]
fn missing_host_and_token_are_found_before_any_request() {
    assert_eq!(
        Synapse::new(String::new(), false).validate_token(),
        Err("Error : host is mandatory".to_string())
    );
    let mut s = Synapse::new("h".to_string(), false);
    assert_eq!(s.validate_token(), Err("Error : token is mandatory".to_string()));
    let mut p = filled("h", "secret");
    let mut r = HandleRes::Exit(true);
    assert_eq!(s.prompt_done(&mut p, &mut r), PromptStep::Validate);
    assert_eq!(s.validate_token(), Ok(()));
}

#[test]
fn an_unfinished_prompt_stays() {
    let mut s = Synapse::new("h".to_string(), false);
    let mut p = filled("other", "t");
    for answer in [HandleRes::ReDraw, HandleRes::Handled, HandleRes::Ignored] {
        let mut r = answer;
        assert_eq!(s.prompt_done(&mut p, &mut r), PromptStep::Pending);
        assert_eq!(r, answer);
    }
    assert_eq!(s.host(), "h");
    assert_eq!(s.access_token(), "");
}

#[test]
fn backing_out_is_done_and_takes_nothing() {
    let mut s = Synapse::new("h".to_string(), false);
    let mut p = filled("other", "t");
    let mut r = HandleRes::Exit(false);
    assert_eq!(s.prompt_done(&mut p, &mut r), PromptStep::Done);
    assert_eq!(r, HandleRes::Exit(false));
    assert_eq!(s.host(), "h");
    assert_eq!(s.access_token(), "");
}

#[test]
fn a_go_ahead_takes_host_and_token() {
    let mut s = Synapse::new(String::new(), false);
    let mut p = filled("http://h", "tok");
    let mut r = HandleRes::Exit(true);
    assert_eq!(s.prompt_done(&mut p, &mut r), PromptStep::Validate);
    assert_eq!(r, HandleRes::ReDraw);
    assert_eq!(s.host(), "http://h");
    assert_eq!(s.access_token(), "tok");
    assert_eq!(p.error, "");
    assert!(!s.token_valid());
}

#[test]
fn a_go_ahead_without_token_points_at_the_token() {
    let mut s = Synapse::new(String::new(), false);
    let mut p = filled("http://h", "");
    let mut r = HandleRes::Exit(true);
    assert_eq!(s.prompt_done(&mut p, &mut r), PromptStep::Pending);
    assert_eq!(r, HandleRes::ReDraw);
    assert_eq!(p.error, "Error : token is mandatory");
    assert_eq!(p.cursor, 1);
    assert_eq!(p.action, None);
    assert_eq!(s.host(), "http://h");
}

#[test]
fn a_go_ahead_without_host_points_at_the_host() {
    let mut s = Synapse::new("x".to_string(), false);
    let mut p = filled("", "tok");
    p.cursor = 1;
    let mut r = HandleRes::Exit(true);
    assert_eq!(s.prompt_done(&mut p, &mut r), PromptStep::Pending);
    assert_eq!(p.error, "Error : host is mandatory");
    assert_eq!(p.cursor, 0);
    assert_eq!(s.host(), "");
}

#[test]
fn a_go_ahead_from_a_prompt_without_fields_is_done() {
    let mut s = Synapse::new("h".to_string(), false);
    let mut p = Prompt::new(None, None, None, None, 0);
    let mut r = HandleRes::Exit(true);
    assert_eq!(s.prompt_done(&mut p, &mut r), PromptStep::Done);
    assert_eq!(r, HandleRes::ReDraw);
    assert_eq!(s.host(), "h");
}

#[test]
fn errors_point_at_the_field_they_name() {
    let cases: [(&str, usize, usize); 8] = [
        ("GET http://h/x returned 401 Unauthorized", 0, 1),
        ("invalid token", 0, 1),
        ("error sending request for url", 1, 0),
        ("unknown host", 1, 0),
        ("token rejected by host", 0, 1),
        ("Server response is invalid", 1, 1),
        ("Server response is invalid", 0, 0),
        ("", 1, 1),
    ];
    for (error, before, after) in cases {
        let mut p = filled("h", "t");
        p.cursor = before;
        p.action = Some(PromptButton::Okay);
        reject(&mut p, error.to_string());
        assert_eq!(p.cursor, after);
        assert_eq!(p.error, error);
        assert_eq!(p.action, None);
        assert_eq!(p.fields.len(), 2);
    }
}

#[test]
fn a_failed_check_keeps_the_prompt_with_the_error() {
    let mut s = Synapse::new("h".to_string(), false);
    let mut p = filled("h", "t");
    p.action = Some(PromptButton::Okay);
    assert!(!s.validated(&mut p, Err("GET h/x returned 401 Unauthorized".to_string())));
    assert_eq!(p.action, None);
    assert!(!s.token_valid());
    assert_eq!(p.error, "GET h/x returned 401 Unauthorized");
    assert_eq!(p.cursor, 1);
}

#[test]
fn a_refused_token_logs_the_session_out() {
    let mut s = Synapse::new("h".to_string(), false);
    let mut p = filled("h", "t");
    assert!(s.validated(&mut p, Ok(())));
    assert!(s.note_status(200, Some(200)));
    assert!(s.token_valid());
    assert!(!s.note_status(404, Some(200)));
    assert!(s.token_valid());
    assert!(s.note_status(500, None));
    assert!(!s.note_status(401, Some(200)));
    assert!(!s.token_valid());
    assert!(s.note_status(401, Some(401)));
    assert_eq!(s.host(), "h");
}

#[test]
fn typing_into_the_prompt_then_submitting() {
    let mut s = Synapse::new(String::new(), false);
    let mut p = Prompt::new(None, None, None, None, 0);
    assert!(s.set_prompt(&mut p));
    for c in "http://h".chars() {
        assert_eq!(p.handle_event(&Key::Char(c)), HandleRes::ReDraw);
    }
    p.handle_event(&Key::Down);
    for c in "abc".chars() {
        p.handle_event(&Key::Char(c));
    }
    let mut r = p.handle_event(&Key::Enter);
    assert_eq!(r, HandleRes::Exit(true));
    assert_eq!(s.prompt_done(&mut p, &mut r), PromptStep::Validate);
    assert_eq!(s.host(), "http://h");
    assert_eq!(s.access_token(), "abc");
}

struct Offline;

impl BackendImpl for Offline {}

#[test]
fn a_backend_that_keeps_the_defaults_never_asks() {
    let mut b = Offline;
    let mut p = filled("h", "t");
    p.cursor = 1;
    assert!(!b.set_prompt(&mut p));
    assert_eq!(p.msg, "Please provide the missing server information");
    assert_eq!(p.fields.len(), 2);
    assert_eq!(p.cursor, 1);
    for answer in [
        HandleRes::Exit(true),
        HandleRes::Exit(false),
        HandleRes::ReDraw,
        HandleRes::Handled,
        HandleRes::Ignored,
    ] {
        let mut r = answer;
        assert_eq!(b.prompt_done(&mut p, &mut r), PromptStep::Pending);
        assert_eq!(r, answer);
        assert_eq!(p.error, "");
        assert_eq!(p.fields[0].1.as_str(), "h");
        assert_eq!(p.cursor, 1);
    }
}
