use synapse_panel::backend::{Synapse, UserInfoV1};
use synapse_panel::editable::{Editable, Key};
use synapse_panel::metrics::{measured_height, to_measure};
use synapse_panel::prompt::{Prompt, PromptButton};
use synapse_panel::editable::SegmentStyle;
use synapse_panel::render::{
    cell_look, column_widths, default_info, editing_footer, fit_column, info, label_width,
    plan_prompt, prompt_info, prompt_layout, prompt_rows, row_cells, spans_width, split_hint,
    table_info, text_section, Bracket, CellLook, Hint, PromptLayout, TableHeight,
};
use synapse_panel::state::{State, View};
use synapse_panel::users::UsersView;

fn view_with(names: &[&str]) -> UsersView {
    let mut v = UsersView::new();
    let page: Vec<UserInfoV1> = names
        .iter()
        .map(|n| UserInfoV1 {
            name: "@id".to_string(),
            is_guest: false,
            admin: true,
            deactivated: false,
            shadow_banned: false,
            displayname: n.to_string(),
            avatar_url: None,
            creation_ts: 0,
        })
        .collect();
    let n = page.len();
    assert_eq!(v.load_next_chunk(Ok(page)), Ok(n));
    v
}

#[test]
fn hint_labels() {
    assert_eq!(Hint::ShowHelp.label(), "[F1] Show Help");
    assert_eq!(Hint::Quit.label(), "[Esc/Q] Exit");
    assert_eq!(Hint::SwitchTabs.label(), "[Tab/Shift+Tab] Switch Tabs");
    assert_eq!(Hint::Back.label(), "[Esc] Back");
    assert_eq!(Hint::UnderEdit.label(), "[EDITING]");
    assert_eq!(Hint::Restore.label(), "[Esc] Restore");
    assert_eq!(Hint::Save.label(), "[Enter] Save");
    assert_eq!(Hint::StopEditing.label(), "[Esc] Stop editing");
    assert_eq!(Hint::Toggle.label(), "[Enter] Toggle");
    assert_eq!(Hint::Refresh.label(), "[F5] Refresh");
    assert_eq!(Hint::Apply(3).label(), "[F2] Apply");
    assert_eq!(Hint::Edit.label(), "[Enter] Edit");
    assert_eq!(Hint::Enter(PromptButton::Yes).label(), "[Enter]");
}

#[test]
fn hints_are_cut_after_the_bracketed_key() {
    assert_eq!(split_hint("[F1] Show Help"), ("[F1]", " Show Help"));
    assert_eq!(split_hint("[EDITING]"), ("[EDITING]", ""));
    assert_eq!(split_hint("[a]b]c"), ("[a]", "b]c"));
    assert_eq!(split_hint("[\u{e9}\u{1f600}] caf\u{e9}"), ("[\u{e9}\u{1f600}]", " caf\u{e9}"));
    assert_eq!(split_hint("[]"), ("[]", ""));
    assert_eq!(split_hint("[open"), ("", "[open"));
    assert_eq!(split_hint("no [key]"), ("", "no [key]"));
    assert_eq!(split_hint("]"), ("", "]"));
    assert_eq!(split_hint(""), ("", ""));
}

#[test]
fn text_heights_count_lines() {
    assert_eq!(measured_height(""), 0);
    assert_eq!(measured_height("one"), 1);
    assert_eq!(measured_height("one\n"), 1);
    assert_eq!(measured_height("one\ntwo"), 2);
    assert_eq!(measured_height("one\n\nthree\n"), 3);
    assert_eq!(measured_height("\n"), 1);
    assert_eq!(measured_height("\n\n"), 2);
    assert_eq!(measured_height("a\r\nb\r"), 2);
    assert_eq!(text_section(""), None);
    assert_eq!(text_section("a\nb"), Some(2));
    assert_eq!(to_measure(0), 0);
    assert_eq!(to_measure(65535), 65535);
    assert_eq!(to_measure(65536), 65535);
    assert_eq!(to_measure(usize::MAX), 65535);
}

#[test]
fn widths_are_display_widths() {
    let plain = Editable::string("abc");
    assert_eq!(spans_width(&plain.as_spans(false)), 3);
    assert_eq!(spans_width(&plain.as_spans(true)), 4);
    let wide = Editable::ro_string("\u{6f22}\u{5b57}");
    assert_eq!(spans_width(&wide.as_spans(false)), 4);
    let accent = Editable::ro_string("caf\u{e9}");
    assert_eq!(spans_width(&accent.as_spans(false)), 4);
    assert_eq!(spans_width(&Vec::new()), 0);
}

#[test]
fn columns_grow_with_their_cells() {
    assert_eq!(fit_column(7, 3), 7);
    assert_eq!(fit_column(7, 5), 7);
    assert_eq!(fit_column(7, 6), 8);
    assert_eq!(fit_column(20, 6), 20);
    assert_eq!(fit_column(7, 70000), 65535);
    assert_eq!(fit_column(7, usize::MAX), 65535);
    assert_eq!(fit_column(65535, 1), 65535);
}

#[test]
fn column_widths_of_a_table() {
    assert_eq!(column_widths(&UsersView::new()), [7, 7, 7, 7, 7]);
    let v = view_with(&["Al", "A much longer name", "\u{6f22}\u{5b57}\u{6f22}\u{5b57}"]);
    assert_eq!(column_widths(&v), [7, 20, 7, 7, 7]);
    let mut w = view_with(&["abcdef"]);
    assert_eq!(column_widths(&w), [7, 8, 7, 7, 7]);
    w.handle_event(&Key::Right);
    w.handle_event(&Key::Enter);
    assert_eq!(column_widths(&w), [7, 9, 7, 7, 7]);
    w.handle_event(&Key::Left);
    assert_eq!(column_widths(&w), [7, 8, 7, 7, 7]);
}

#[test]
fn looks_of_the_cells() {
    let mut v = view_with(&["a", "b"]);
    assert_eq!(
        cell_look(&v, 0, 0),
        Some(CellLook { under_edit: false, changed: false, bracket: Bracket::ReadOnly })
    );
    assert_eq!(
        cell_look(&v, 1, 1),
        Some(CellLook { under_edit: false, changed: false, bracket: Bracket::Absent })
    );
    assert_eq!(cell_look(&v, 2, 0), None);
    assert_eq!(cell_look(&v, 0, 5), None);
    v.handle_event(&Key::Right);
    assert_eq!(
        cell_look(&v, 0, 1),
        Some(CellLook { under_edit: false, changed: false, bracket: Bracket::Editable })
    );
    v.handle_event(&Key::Enter);
    v.handle_event(&Key::Char('x'));
    assert_eq!(
        cell_look(&v, 0, 1),
        Some(CellLook { under_edit: true, changed: true, bracket: Bracket::Editing })
    );
    assert_eq!(
        cell_look(&v, 1, 1),
        Some(CellLook { under_edit: false, changed: false, bracket: Bracket::Absent })
    );
    v.handle_event(&Key::Down);
    assert_eq!(
        cell_look(&v, 0, 1),
        Some(CellLook { under_edit: false, changed: true, bracket: Bracket::Absent })
    );
}

#[test]
fn hints_of_the_table() {
    let mut v = view_with(&["a"]);
    assert_eq!(table_info(&v), vec![Hint::Refresh]);
    v.handle_event(&Key::Right);
    assert_eq!(table_info(&v), vec![Hint::Refresh, Hint::Edit]);
    v.handle_event(&Key::Enter);
    assert_eq!(table_info(&v), vec![Hint::UnderEdit, Hint::Restore, Hint::Save]);
    v.handle_event(&Key::Char('b'));
    v.handle_event(&Key::Enter);
    assert_eq!(table_info(&v), vec![Hint::Refresh, Hint::Apply(1), Hint::Edit]);
    v.handle_event(&Key::Right);
    v.handle_event(&Key::Enter);
    assert_eq!(table_info(&v), vec![Hint::UnderEdit, Hint::StopEditing, Hint::Toggle]);
    v.handle_event(&Key::Enter);
    v.handle_event(&Key::Esc);
    v.move_focus(0, -2);
    assert_eq!(table_info(&v), vec![Hint::Refresh, Hint::Apply(2)]);
    assert_eq!(v.show_notice("e"), Ok(()));
    assert_eq!(
        table_info(&v),
        vec![Hint::ShowHelp, Hint::Back, Hint::Enter(PromptButton::Okay)]
    );
}

#[test]
fn hints_of_fields_and_prompts() {
    assert_eq!(editing_footer(&Editable::string("a")), vec![Hint::Restore, Hint::Save]);
    assert_eq!(editing_footer(&Editable::bool(true)), vec![Hint::StopEditing, Hint::Toggle]);
    assert_eq!(editing_footer(&Editable::ro_string("a")), Vec::<Hint>::new());
    assert_eq!(editing_footer(&Editable::ro_bool(true)), Vec::<Hint>::new());
    assert_eq!(default_info(), vec![Hint::ShowHelp, Hint::Quit, Hint::SwitchTabs]);
    let p = Prompt::new(None, None, None, Some(vec![PromptButton::Yes, PromptButton::No]), 0);
    assert_eq!(prompt_info(&p), vec![Hint::ShowHelp, Hint::Back, Hint::Enter(PromptButton::Yes)]);
    let q = Prompt::new(None, None, None, None, 0);
    assert_eq!(prompt_info(&q), vec![Hint::ShowHelp, Hint::Back, Hint::Enter(PromptButton::Okay)]);
}

#[test]
fn hints_of_the_whole_interface() {
    let mut s =
        State::from_views(vec![View::Home, View::UserList], Synapse::new("h".to_string(), false));
    assert_eq!(info(&s), default_info());
    s.draw_base();
    assert_eq!(info(&s), vec![Hint::ShowHelp, Hint::Back, Hint::Enter(PromptButton::Okay)]);
    s.validated(Ok(()));
    assert_eq!(info(&s), default_info());
    s.next_tab();
    assert_eq!(info(&s), vec![Hint::Refresh]);
}

#[test]
fn sections_of_a_prompt() {
    assert_eq!(
        plan_prompt(Some(2), Some(3), 4, 12, 20),
        PromptLayout { msg: Some(2), table: TableHeight::Rows(4), error: Some(3), label_width: 12 }
    );
    assert_eq!(
        plan_prompt(Some(2), Some(3), 40, 12, 20),
        PromptLayout { msg: Some(2), table: TableHeight::Rows(15), error: Some(3), label_width: 12 }
    );
    assert_eq!(
        plan_prompt(Some(2), Some(3), 4, 12, 4),
        PromptLayout { msg: Some(2), table: TableHeight::Rows(0), error: Some(3), label_width: 12 }
    );
    assert_eq!(
        plan_prompt(None, Some(1), 2, 0, 10),
        PromptLayout { msg: None, table: TableHeight::Rows(2), error: Some(1), label_width: 0 }
    );
    assert_eq!(
        plan_prompt(Some(1), None, 2, 70000, 10),
        PromptLayout { msg: Some(1), table: TableHeight::Fill, error: None, label_width: 65535 }
    );
    assert_eq!(
        plan_prompt(Some(1), Some(1), 0, 0, 10),
        PromptLayout { msg: Some(1), table: TableHeight::Absent, error: Some(1), label_width: 0 }
    );
    assert_eq!(
        plan_prompt(Some(65535), Some(65535), usize::MAX, 3, 65535),
        PromptLayout {
            msg: Some(65535),
            table: TableHeight::Rows(0),
            error: Some(65535),
            label_width: 3
        }
    );
    assert_eq!(
        plan_prompt(None, Some(0), 100000, 3, 65535),
        PromptLayout { msg: None, table: TableHeight::Rows(65535), error: Some(0), label_width: 3 }
    );
}

#[test]
fn layout_of_the_credential_prompt() {
    let s = Synapse::new("h".to_string(), false);
    let mut p = Prompt::new(None, None, None, None, 0);
    synapse_panel::backend::BackendImpl::set_prompt(&s, &mut p);
    assert_eq!(label_width(&p), 12);
    assert_eq!(
        prompt_layout(&p, 24),
        PromptLayout { msg: Some(1), table: TableHeight::Fill, error: None, label_width: 12 }
    );
    p.error = "Server response is invalid\n{}\nEOF".to_string();
    assert_eq!(
        prompt_layout(&p, 24),
        PromptLayout { msg: Some(1), table: TableHeight::Rows(4), error: Some(3), label_width: 12 }
    );
    assert_eq!(
        prompt_layout(&p, 6),
        PromptLayout { msg: Some(1), table: TableHeight::Rows(2), error: Some(3), label_width: 12 }
    );
    let empty = Prompt::new(None, None, None, None, 0);
    assert_eq!(
        prompt_layout(&empty, 6),
        PromptLayout { msg: None, table: TableHeight::Absent, error: None, label_width: 0 }
    );
}

#[test]
fn rows_of_a_prompt() {
    let fields = vec![
        ("Host".to_string(), Editable::string("h")),
        ("Admin".to_string(), Editable::bool(true)),
    ];
    let mut p = Prompt::new(
        None,
        None,
        Some(fields),
        Some(vec![PromptButton::Okay, PromptButton::Exit]),
        0,
    );
    let shown: Vec<(String, bool, bool, Vec<(String, SegmentStyle)>)> = prompt_rows(&p)
        .iter()
        .map(|r| {
            (
                r.label.to_string(),
                r.highlighted,
                r.is_field,
                r.value.iter().map(|s| (s.text.to_string(), s.style)).collect(),
            )
        })
        .collect();
    assert_eq!(
        shown,
        vec![
            (
                "Host".to_string(),
                true,
                true,
                vec![
                    ("h".to_string(), SegmentStyle::Plain),
                    (" ".to_string(), SegmentStyle::Placeholder),
                    ("".to_string(), SegmentStyle::Plain)
                ]
            ),
            ("Admin".to_string(), false, true, vec![("true".to_string(), SegmentStyle::Plain)]),
            ("[Ok]".to_string(), false, false, vec![]),
            ("[Exit]".to_string(), false, false, vec![]),
        ]
    );
    p.cursor = 3;
    let rows = prompt_rows(&p);
    let marks: Vec<bool> = rows.iter().map(|r| r.highlighted).collect();
    assert_eq!(marks, vec![false, false, false, true]);
    assert_eq!(rows[0].value.len(), 1);
    p.cursor = 1;
    let rows = prompt_rows(&p);
    assert_eq!(rows[1].value[0].style, SegmentStyle::Active);
    p.cursor = 9;
    assert!(prompt_rows(&p).iter().all(|r| !r.highlighted));
    assert!(prompt_rows(&Prompt::new(None, None, None, None, 0)).is_empty());
}

#[test]
fn cells_of_a_row() {
    let mut v = view_with(&["ab", "cd"]);
    v.handle_event(&Key::Right);
    v.handle_event(&Key::Enter);
    v.handle_event(&Key::Left);
    let cells = row_cells(&v, 0);
    assert_eq!(cells.len(), 5);
    assert_eq!(cells[0].look.bracket, Bracket::Absent);
    assert_eq!(cells[0].segments.len(), 1);
    assert_eq!(cells[0].segments[0].text, "@id");
    assert_eq!(cells[1].look, CellLook { under_edit: true, changed: false, bracket: Bracket::Editing });
    let parts: Vec<(&str, SegmentStyle)> =
        cells[1].segments.iter().map(|s| (s.text, s.style)).collect();
    assert_eq!(
        parts,
        vec![("a", SegmentStyle::Plain), ("b", SegmentStyle::Active), ("", SegmentStyle::Plain)]
    );
    assert_eq!(cells[2].segments[0].text, "true");
    let other = row_cells(&v, 1);
    assert_eq!(other.len(), 5);
    assert_eq!(other[1].segments.len(), 1);
    assert_eq!(other[1].look.bracket, Bracket::Absent);
    assert!(row_cells(&v, 2).is_empty());
}
