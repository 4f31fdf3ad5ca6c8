use system_panel::adapter::{
    normalize_window_moved, normalize_window_opened, normalize_workspace_added,
    normalize_workspace_changed, normalize_workspace_destroyed, parse_address,
    parse_workspace_id, ParsedId,
};
use system_panel::msg::{check_msg_in_range, Fault, Msg};

#[test]
fn parses_plain_numbers() {
    assert_eq!(parse_workspace_id(b"7", 10), ParsedId::Valid(7));
    assert_eq!(parse_workspace_id(b"1", 10), ParsedId::Valid(1));
    assert_eq!(parse_workspace_id(b"10", 10), ParsedId::Valid(10));
    assert_eq!(parse_workspace_id(b"007", 10), ParsedId::Valid(7));
}

#[test]
fn rejects_non_numeric_names() {
    assert_eq!(parse_workspace_id(b"", 10), ParsedId::NotNumeric);
    assert_eq!(parse_workspace_id(b"web", 10), ParsedId::NotNumeric);
    assert_eq!(parse_workspace_id(b"1a", 10), ParsedId::NotNumeric);
    assert_eq!(parse_workspace_id(b"-3", 10), ParsedId::NotNumeric);
    assert_eq!(parse_workspace_id(b" 3", 10), ParsedId::NotNumeric);
}

#[test]
fn rejects_numbers_outside_the_range() {
    assert_eq!(parse_workspace_id(b"0", 10), ParsedId::OutOfRange);
    assert_eq!(parse_workspace_id(b"11", 10), ParsedId::OutOfRange);
    assert_eq!(parse_workspace_id(b"00", 10), ParsedId::OutOfRange);
    assert_eq!(
        parse_workspace_id(b"99999999999999999999999999999999", 10),
        ParsedId::OutOfRange
    );
}

#[test]
fn workspace_events_drop_named_workspaces() {
    assert_eq!(normalize_workspace_added(b"web", 10), Ok(None));
    assert_eq!(normalize_workspace_changed(b"mail", 10), Ok(None));
    assert_eq!(normalize_workspace_destroyed(b"", 10), Ok(None));
}

#[test]
fn workspace_events_translate_numeric_names() {
    assert_eq!(
        normalize_workspace_added(b"3", 10),
        Ok(Some(Msg::WorkspaceCreated(3)))
    );
    assert_eq!(
        normalize_workspace_changed(b"10", 10),
        Ok(Some(Msg::ActiveWorkspaceChanged(10)))
    );
    assert_eq!(
        normalize_workspace_destroyed(b"1", 10),
        Ok(Some(Msg::WorkspaceDestroyed(1)))
    );
}

#[test]
fn boundary_ids_never_reach_the_engine() {
    assert_eq!(
        normalize_workspace_added(b"0", 10),
        Err(Fault::WorkspaceOutOfRange)
    );
    assert_eq!(
        normalize_workspace_changed(b"11", 10),
        Err(Fault::WorkspaceOutOfRange)
    );
    assert_eq!(
        normalize_workspace_destroyed(b"0", 10),
        Err(Fault::WorkspaceOutOfRange)
    );
    if let Ok(Some(m)) = normalize_workspace_added(b"10", 10) {
        assert!(check_msg_in_range(&m, 10));
    } else {
        panic!("in-range workspace was not translated");
    }
}

#[test]
fn window_events_treat_bad_workspaces_as_faults() {
    assert_eq!(
        normalize_window_opened(0x1000, String::from("Foo"), b"special", 10),
        Err(Fault::NonNumericWorkspace)
    );
    assert_eq!(
        normalize_window_opened(0x1000, String::from("Foo"), b"11", 10),
        Err(Fault::WorkspaceOutOfRange)
    );
    assert_eq!(
        normalize_window_moved(0x1000, b"", 10),
        Err(Fault::NonNumericWorkspace)
    );
    assert_eq!(
        normalize_window_moved(0x1000, b"0", 10),
        Err(Fault::WorkspaceOutOfRange)
    );
}

#[test]
fn window_events_translate_numeric_workspaces() {
    assert_eq!(
        normalize_window_opened(0x2000, String::from("Firefox"), b"3", 10),
        Ok(Msg::WindowOpened(0x2000, String::from("Firefox"), 3))
    );
    assert_eq!(
        normalize_window_moved(0x2000, b"5", 10),
        Ok(Msg::WindowMoved(0x2000, 5))
    );
}

#[test]
fn parses_addresses_with_and_without_prefix() {
    assert_eq!(parse_address(b"0x55aa"), Some(0x55aa));
    assert_eq!(parse_address(b"55aa"), Some(0x55aa));
    assert_eq!(parse_address(b"0XDEADbeef"), Some(0xdead_beef));
    assert_eq!(parse_address(b"0"), Some(0));
    assert_eq!(parse_address(b"0x0000000000000001"), Some(1));
    assert_eq!(parse_address(b"ffffffffffffffff"), Some(u64::MAX));
}

#[test]
fn rejects_malformed_addresses() {
    assert_eq!(parse_address(b""), None);
    assert_eq!(parse_address(b"0x"), None);
    assert_eq!(parse_address(b"xyz"), None);
    assert_eq!(parse_address(b"0x10000000000000000"), None);
    assert_eq!(parse_address(b"12 4"), None);
}
