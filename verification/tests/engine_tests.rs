use system_panel::model::{Model, WindowEntry};
use system_panel::msg::{Fault, Icon, Msg, UiEffect};

const A1: u64 = 0x55aa_1000;
const A2: u64 = 0x55aa_2000;

fn entry(addr: u64, class: &str, ws: usize) -> WindowEntry {
    WindowEntry { addr, class: String::from(class), ws }
}

#[test]
fn empty_model_shape() {
    let m = Model::new(10);
    assert_eq!(m.bound(), 10);
    assert_eq!(m.active_workspace(), 1);
    assert_eq!(m.window_count(), 0);
    for id in 1..=10 {
        assert!(!m.slot_visible(id));
        assert_eq!(m.slot_icon(id), Icon::Default);
    }
    assert!(m.slot_active(1));
    for id in 2..=10 {
        assert!(!m.slot_active(id));
    }
}

#[test]
fn workspace_created_shows_slot() {
    let mut m = Model::new(10);
    let effs = m.apply(Msg::WorkspaceCreated(3));
    assert!(m.slot_visible(3));
    assert_eq!(effs, vec![UiEffect::ShowSlot(3)]);
}

#[test]
fn workspace_destroyed_hides_slot() {
    let mut m = Model::new(10);
    m.apply(Msg::WorkspaceCreated(4));
    let effs = m.apply(Msg::WorkspaceDestroyed(4));
    assert!(!m.slot_visible(4));
    assert_eq!(effs, vec![UiEffect::HideSlot(4)]);
}

#[test]
fn focus_change_swaps_interactive_state() {
    let mut m = Model::new(10);
    m.apply(Msg::WorkspaceCreated(2));
    let effs = m.apply(Msg::ActiveWorkspaceChanged(2));
    assert_eq!(m.active_workspace(), 2);
    assert!(m.slot_active(2));
    assert!(!m.slot_active(1));
    assert_eq!(
        effs,
        vec![
            UiEffect::SetInteractive(1, true),
            UiEffect::SetInteractive(2, false),
        ]
    );
}

#[test]
fn focus_change_twice_is_idempotent() {
    let mut m = Model::new(10);
    m.apply(Msg::WorkspaceCreated(2));
    m.apply(Msg::ActiveWorkspaceChanged(2));
    let visible: Vec<bool> = (1..=10).map(|id| m.slot_visible(id)).collect();
    let active: Vec<bool> = (1..=10).map(|id| m.slot_active(id)).collect();
    let icons: Vec<Icon> = (1..=10).map(|id| m.slot_icon(id)).collect();
    m.apply(Msg::ActiveWorkspaceChanged(2));
    assert_eq!(m.active_workspace(), 2);
    assert_eq!(visible, (1..=10).map(|id| m.slot_visible(id)).collect::<Vec<_>>());
    assert_eq!(active, (1..=10).map(|id| m.slot_active(id)).collect::<Vec<_>>());
    assert_eq!(icons, (1..=10).map(|id| m.slot_icon(id)).collect::<Vec<_>>());
}

#[test]
fn open_then_close_round_trip() {
    let mut m = Model::new(10);
    m.apply(Msg::WorkspaceCreated(3));
    m.apply(Msg::WindowOpened(A1, String::from("Foo"), 3));
    m.apply(Msg::ActiveWindowChanged(A1));
    assert_eq!(m.slot_icon(3), Icon::Class(String::from("Foo")));
    m.apply(Msg::WindowClosed(A1));
    assert_eq!(m.window_count(), 0);
    assert_eq!(m.window_workspace(A1), None);
    assert_eq!(m.slot_icon(3), Icon::Default);
}

#[test]
fn close_leaves_other_window_icon_alone() {
    let mut m = Model::new(10);
    m.apply(Msg::WorkspaceCreated(3));
    m.apply(Msg::WindowOpened(A1, String::from("Foo"), 3));
    m.apply(Msg::WindowOpened(A2, String::from("Bar"), 3));
    m.apply(Msg::ActiveWindowChanged(A2));
    m.apply(Msg::WindowClosed(A1));
    assert_eq!(m.slot_icon(3), Icon::Class(String::from("Bar")));
    assert!(m.workspace_occupied(3));
}

#[test]
fn scenario_open_and_focus() {
    let mut m = Model::new(10);
    m.apply(Msg::WorkspaceCreated(3));
    m.apply(Msg::WindowOpened(A1, String::from("Firefox"), 3));
    m.apply(Msg::ActiveWindowChanged(A1));
    m.apply(Msg::ActiveWorkspaceChanged(3));
    assert!(m.slot_visible(3));
    assert!(m.slot_active(3));
    assert_eq!(m.slot_icon(3), Icon::Class(String::from("Firefox")));
    for id in (1..=10).filter(|id| *id != 3) {
        assert!(!m.slot_visible(id));
    }
}

#[test]
fn scenario_move_then_create() {
    let mut m = Model::new(10);
    m.apply(Msg::WorkspaceCreated(3));
    m.apply(Msg::WindowOpened(A1, String::from("Firefox"), 3));
    m.apply(Msg::ActiveWindowChanged(A1));
    m.apply(Msg::ActiveWorkspaceChanged(3));
    m.apply(Msg::WindowMoved(A1, 5));
    m.apply(Msg::WorkspaceCreated(5));
    assert_eq!(m.slot_icon(3), Icon::Default);
    assert!(m.slot_visible(5));
    assert_eq!(m.slot_icon(5), Icon::Default);
    assert_eq!(m.window_workspace(A1), Some(5));
    assert_eq!(m.window_class(A1), Some(String::from("Firefox")));
}

#[test]
fn close_unknown_address_is_noop() {
    let mut m = Model::new(10);
    m.apply(Msg::WorkspaceCreated(3));
    m.apply(Msg::WindowOpened(A1, String::from("Foo"), 3));
    m.apply(Msg::ActiveWindowChanged(A1));
    let visible: Vec<bool> = (1..=10).map(|id| m.slot_visible(id)).collect();
    let icons: Vec<Icon> = (1..=10).map(|id| m.slot_icon(id)).collect();
    m.apply(Msg::WindowClosed(A2));
    assert_eq!(m.window_count(), 1);
    assert_eq!(m.active_workspace(), 1);
    assert_eq!(visible, (1..=10).map(|id| m.slot_visible(id)).collect::<Vec<_>>());
    assert_eq!(icons, (1..=10).map(|id| m.slot_icon(id)).collect::<Vec<_>>());
}

#[test]
fn move_unknown_address_keeps_table() {
    let mut m = Model::new(10);
    m.apply(Msg::WindowOpened(A1, String::from("Foo"), 3));
    m.apply(Msg::WindowMoved(A2, 5));
    assert_eq!(m.window_workspace(A1), Some(3));
    assert_eq!(m.window_workspace(A2), None);
}

#[test]
fn cleanup_effects_cover_empty_slots_in_order() {
    let mut m = Model::new(2);
    m.apply(Msg::WindowOpened(A1, String::from("X"), 1));
    let effs = m.apply(Msg::WindowClosed(A1));
    assert_eq!(
        effs,
        vec![
            UiEffect::SetIcon(1, Icon::Default),
            UiEffect::SetIcon(2, Icon::Default),
        ]
    );
}

#[test]
fn move_resets_vacated_slot_icon() {
    let mut m = Model::new(3);
    m.apply(Msg::WindowOpened(A1, String::from("Foo"), 2));
    m.apply(Msg::ActiveWindowChanged(A1));
    let effs = m.apply(Msg::WindowMoved(A1, 3));
    assert_eq!(m.slot_icon(2), Icon::Default);
    assert_eq!(m.window_workspace(A1), Some(3));
    assert_eq!(
        effs,
        vec![
            UiEffect::SetIcon(1, Icon::Default),
            UiEffect::SetIcon(2, Icon::Default),
        ]
    );
}

#[test]
fn snapshot_of_empty_compositor_shows_only_active() {
    let m = Model::from_snapshot(10, Vec::new(), 1).unwrap();
    assert!(m.slot_visible(1));
    assert!(m.slot_active(1));
    for id in 2..=10 {
        assert!(!m.slot_visible(id));
    }
    assert_eq!(m.window_count(), 0);
}

#[test]
fn open_replaces_entry_with_same_address() {
    let mut m = Model::new(10);
    m.apply(Msg::WindowOpened(A1, String::from("Foo"), 3));
    m.apply(Msg::WindowOpened(A1, String::from("Bar"), 5));
    assert_eq!(m.window_count(), 1);
    assert_eq!(m.window_workspace(A1), Some(5));
    assert_eq!(m.window_class(A1), Some(String::from("Bar")));
}

#[test]
fn active_window_event_sets_icon_of_its_workspace() {
    let mut m = Model::new(10);
    m.apply(Msg::WindowOpened(A1, String::from("Term"), 7));
    let effs = m.apply(Msg::ActiveWindowChanged(A1));
    assert_eq!(m.slot_icon(7), Icon::Class(String::from("Term")));
    assert_eq!(effs, vec![UiEffect::SetIcon(7, Icon::Class(String::from("Term")))]);
}

#[test]
fn active_window_event_for_unknown_address_does_nothing() {
    let mut m = Model::new(10);
    let effs = m.apply(Msg::ActiveWindowChanged(A1));
    assert_eq!(effs, Vec::new());
    for id in 1..=10 {
        assert_eq!(m.slot_icon(id), Icon::Default);
    }
}

#[test]
fn invariants_hold_through_an_orderly_sequence() {
    let mut m = Model::from_snapshot(10, vec![entry(A1, "Foo", 2)], 2).unwrap();
    let script = vec![
        Msg::WorkspaceCreated(4),
        Msg::ActiveWorkspaceChanged(4),
        Msg::WindowOpened(A2, String::from("Bar"), 4),
        Msg::ActiveWindowChanged(A2),
        Msg::WindowMoved(A2, 2),
        Msg::ActiveWorkspaceChanged(2),
        Msg::WorkspaceDestroyed(4),
        Msg::WindowClosed(A1),
    ];
    for msg in script {
        m.apply(msg);
        let active = m.active_workspace();
        assert!(m.slot_visible(active));
        for id in 1..=10 {
            assert_eq!(m.slot_active(id), id == active);
            if m.workspace_occupied(id) {
                assert!(m.slot_visible(id));
            } else {
                assert_eq!(m.slot_icon(id), Icon::Default);
            }
        }
    }
}

#[test]
fn snapshot_reconciliation_restores_state() {
    let entries = vec![entry(A1, "Firefox", 3), entry(A2, "Term", 3)];
    let m = Model::from_snapshot(10, entries, 2).unwrap();
    assert_eq!(m.active_workspace(), 2);
    assert!(m.slot_active(2));
    assert!(m.slot_visible(2));
    assert!(m.slot_visible(3));
    assert_eq!(m.slot_icon(3), Icon::Class(String::from("Firefox")));
    for id in (1..=10).filter(|id| *id != 2 && *id != 3) {
        assert!(!m.slot_visible(id));
        assert_eq!(m.slot_icon(id), Icon::Default);
    }
    assert_eq!(m.window_count(), 2);
}

#[test]
fn snapshot_rejects_active_out_of_range() {
    assert_eq!(
        Model::from_snapshot(10, Vec::new(), 0).unwrap_err(),
        Fault::ActiveOutOfRange
    );
    assert_eq!(
        Model::from_snapshot(10, Vec::new(), 11).unwrap_err(),
        Fault::ActiveOutOfRange
    );
}

#[test]
fn snapshot_rejects_workspace_out_of_range() {
    let entries = vec![entry(A1, "Foo", 11)];
    assert_eq!(
        Model::from_snapshot(10, entries, 1).unwrap_err(),
        Fault::WorkspaceOutOfRange
    );
    let entries = vec![entry(A1, "Foo", 0)];
    assert_eq!(
        Model::from_snapshot(10, entries, 1).unwrap_err(),
        Fault::WorkspaceOutOfRange
    );
}

#[test]
fn snapshot_rejects_duplicate_addresses() {
    let entries = vec![entry(A1, "Foo", 3), entry(A1, "Bar", 5)];
    assert_eq!(
        Model::from_snapshot(10, entries, 1).unwrap_err(),
        Fault::DuplicateAddress
    );
}
