use paneru::menubar::{
    format_virtual_workspace_label, update_virtual_workspace_status_item, DisplayedWorkspace,
    MenuBarManager,
};

#[test]
fn label_is_one_based() {
    assert_eq!(format_virtual_workspace_label(0), "VW 1");
    assert_eq!(format_virtual_workspace_label(4), "VW 5");
}

#[test]
fn label_of_large_index() {
    assert_eq!(format_virtual_workspace_label(9), "VW 10");
    assert_eq!(format_virtual_workspace_label(u32::MAX - 1), "VW 4294967295");
}

#[test]
fn status_label_is_redrawn_only_on_change() {
    assert_eq!(MenuBarManager::new(true).current_label().map(|s| s.as_str()), Some("VW 1"));
    let mut manager = MenuBarManager::new(false);
    assert!(manager.current_label().is_none());
    assert_eq!(manager.show_virtual_workspace(0, false), None);
    assert!(manager.current_label().is_none());
    assert_eq!(manager.show_virtual_workspace(0, true), Some("VW 1".to_string()));
    assert_eq!(manager.current_label().map(|s| s.as_str()), Some("VW 1"));
    assert_eq!(manager.show_virtual_workspace(0, true), None);
    assert_eq!(manager.show_virtual_workspace(2, false), None);
    assert_eq!(manager.current_label().map(|s| s.as_str()), Some("VW 1"));
    assert_eq!(manager.show_virtual_workspace(2, true), Some("VW 3".to_string()));
    assert_eq!(manager.current_label().map(|s| s.as_str()), Some("VW 3"));
}

#[test]
fn status_item_updates_when_active_workspace_changes() {
    let mut displayed = DisplayedWorkspace::new();
    assert_eq!(update_virtual_workspace_status_item(&mut displayed, false, Some((7, 1))), None);
    assert_eq!(displayed.shown, None);
    assert_eq!(update_virtual_workspace_status_item(&mut displayed, true, None), None);
    assert_eq!(update_virtual_workspace_status_item(&mut displayed, true, Some((7, 1))), Some(1));
    assert_eq!(displayed.shown, Some((7, 1)));
    assert_eq!(update_virtual_workspace_status_item(&mut displayed, true, Some((7, 1))), None);
    assert_eq!(update_virtual_workspace_status_item(&mut displayed, true, Some((8, 1))), Some(1));
    assert_eq!(update_virtual_workspace_status_item(&mut displayed, true, Some((8, 2))), Some(2));
    assert_eq!(displayed.shown, Some((8, 2)));
}

#[test]
fn status_label_is_last_drawn_workspace() {
    let mut manager = MenuBarManager::new(false);
    let calls = [(3, true), (5, false), (4, true), (1, false), (4, true)];
    for (index, has_button) in calls {
        manager.show_virtual_workspace(index, has_button);
    }
    assert_eq!(manager.current_label().map(|s| s.as_str()), Some("VW 5"));
    let mut kept = MenuBarManager::new(true);
    kept.show_virtual_workspace(6, false);
    kept.show_virtual_workspace(2, false);
    assert_eq!(kept.current_label().map(|s| s.as_str()), Some("VW 1"));
}
