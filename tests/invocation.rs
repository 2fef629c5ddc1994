use winclip::invocation::{Action, Direction, Input, Invocation, UsageError};

fn resolve(
    copy: bool,
    paste: bool,
    input: Option<&str>,
    html: bool,
    delete: bool,
) -> Result<Invocation, UsageError> {
    Invocation::resolve(copy, paste, input.map(|s| s.to_string()), None, html, delete)
}

#[test]
fn neither_direction_is_a_usage_error() {
    assert!(matches!(resolve(false, false, None, false, false), Err(UsageError::NoDirection)));
    assert!(matches!(resolve(false, false, None, true, true), Err(UsageError::NoDirection)));
}

#[test]
fn both_directions_is_a_usage_error() {
    assert!(matches!(resolve(true, true, None, false, false), Err(UsageError::BothDirections)));
    assert!(matches!(resolve(true, true, Some("a.txt"), true, false), Err(UsageError::BothDirections)));
}

#[test]
fn usage_messages_name_the_flags() {
    assert_eq!(UsageError::NoDirection.message(), "one of --copy or --paste is required");
    assert_eq!(UsageError::BothDirections.message(), "--copy and --paste cannot be used together");
}

#[test]
fn copy_with_input_file_and_delete_removes_that_file() {
    let inv = resolve(true, false, Some("notes.txt"), false, true).unwrap();
    assert_eq!(inv.direction, Direction::Copy);
    assert_eq!(inv.action(), Action::CopyText);
    assert!(matches!(&inv.input, Input::File(p) if p == "notes.txt"));
    assert_eq!(inv.file_to_delete(), Some("notes.txt".to_string()));
}

#[test]
fn paste_selects_text_paste() {
    let inv = resolve(false, true, None, false, false).unwrap();
    assert_eq!(inv.direction, Direction::Paste);
    assert_eq!(inv.action(), Action::PasteText);
    assert!(matches!(inv.input, Input::Console));
}

#[test]
fn html_flag_selects_html_transfers() {
    assert_eq!(resolve(true, false, None, true, false).unwrap().action(), Action::CopyHtml);
    assert_eq!(resolve(false, true, None, true, false).unwrap().action(), Action::PasteHtml);
}

#[test]
fn dash_and_absent_input_read_standard_input() {
    assert!(matches!(Input::from_path(None), Input::Console));
    assert!(matches!(Input::from_path(Some("-".to_string())), Input::Console));
    assert!(matches!(Input::from_path(Some("--".to_string())), Input::File(p) if p == "--"));
    assert!(matches!(Input::from_path(Some("x".to_string())), Input::File(p) if p == "x"));
    assert!(matches!(Input::console(), Input::Console));
    assert!(matches!(Input::file("f".to_string()), Input::File(p) if p == "f"));
}

#[test]
fn delete_never_targets_standard_input() {
    let inv = resolve(true, false, Some("-"), false, true).unwrap();
    assert_eq!(inv.file_to_delete(), None);
    let inv = resolve(true, false, None, true, true).unwrap();
    assert_eq!(inv.file_to_delete(), None);
}

#[test]
fn delete_only_when_asked_and_after_a_copy() {
    let inv = resolve(true, false, Some("a.txt"), false, false).unwrap();
    assert_eq!(inv.file_to_delete(), None);
    let inv = resolve(false, true, Some("a.txt"), false, true).unwrap();
    assert_eq!(inv.file_to_delete(), None);
    let inv = resolve(true, false, Some("a.txt"), true, true).unwrap();
    assert_eq!(inv.file_to_delete(), Some("a.txt".to_string()));
}

#[test]
fn resolve_keeps_output_and_flags() {
    let inv = Invocation::resolve(
        false,
        true,
        None,
        Some("out.html".to_string()),
        true,
        false,
    )
    .unwrap();
    assert_eq!(inv.output, Some("out.html".to_string()));
    assert!(inv.html);
    assert!(!inv.delete);
}
