use std::collections::HashSet;

use rustile::wm::{FocusChange, WmState};
use rustile::wm_core::RustileConfig;

fn state_with(clients: &[u32], focused: u32) -> WmState {
    let mut s = WmState::new();
    for &c in clients {
        s.push_client(c);
    }
    s.set_focus(focused);
    s
}

#[test]
fn new_state_has_nine_workspaces() {
    let s = WmState::new();
    assert_eq!(s.workspaces.len(), 9);
    for (k, w) in s.workspaces.iter().enumerate() {
        assert_eq!(w.id as usize, k + 1);
        assert_eq!(w.name, (k + 1).to_string());
        assert!(w.stack.clients.is_empty());
        assert_eq!(w.stack.focused, 0);
    }
    assert_eq!(s.current_workspace, 0);
    assert!(s.floating_windows.is_empty());
    assert_eq!(s.bar_height, 0);
    assert_eq!(s.config, RustileConfig::default());
}

#[test]
fn push_and_add_clients() {
    let mut s = WmState::new();
    s.push_client(10);
    assert_eq!(s.current().stack.clients, vec![10]);
    assert_eq!(s.focused(), 0);
    s.add_client(11);
    assert_eq!(s.current().stack.clients, vec![10, 11]);
    assert_eq!(s.focused(), 11);
}

#[test]
fn set_focus_reports_previous() {
    let mut s = state_with(&[1, 2], 1);
    assert_eq!(s.set_focus(2), FocusChange { previous: 1, current: 2 });
    assert_eq!(s.focused(), 2);
}

#[test]
fn unmapped_window_leaves_and_focus_moves() {
    let mut s = state_with(&[1, 2, 3], 3);
    assert_eq!(s.remove_client(3), 2);
    assert_eq!(s.current().stack.clients, vec![1, 2]);
    assert_eq!(s.remove_client(1), 2);
}

#[test]
fn move_focus_needs_two_clients() {
    let mut s = state_with(&[1], 1);
    assert_eq!(s.move_focus(1), None);
    let mut t = state_with(&[1, 2, 3], 1);
    assert_eq!(t.move_focus(-1), Some(FocusChange { previous: 1, current: 3 }));
    assert_eq!(t.focused(), 3);
}

#[test]
fn swap_in_current_workspace() {
    let mut s = state_with(&[1, 2, 3], 2);
    s.swap(1);
    assert_eq!(s.current().stack.clients, vec![1, 3, 2]);
}

#[test]
fn going_to_workspaces() {
    let mut s = state_with(&[1, 2], 1);
    assert!(s.go_to_workspace(0).is_none());
    assert!(s.go_to_workspace(9).is_none());
    assert_eq!(s.current_workspace, 0);
    let sw = s.go_to_workspace(3).unwrap();
    assert_eq!(sw.hidden, vec![1, 2]);
    assert!(sw.shown.is_empty());
    assert_eq!(sw.focus, None);
    assert_eq!(s.current_workspace, 3);
    s.push_client(7);
    let back = s.go_to_workspace(0).unwrap();
    assert_eq!(back.hidden, vec![7]);
    assert_eq!(back.shown, vec![1, 2]);
    assert_eq!(back.focus, Some(FocusChange { previous: 1, current: 1 }));
    assert_eq!(s.focused(), 1);
}

#[test]
fn the_first_window_gets_the_focus_on_a_switch() {
    let mut s = state_with(&[4, 5, 6], 6);
    s.go_to_workspace(2).unwrap();
    s.push_client(8);
    s.set_focus(8);
    let sw = s.go_to_workspace(0).unwrap();
    assert_eq!(sw.focus, Some(FocusChange { previous: 6, current: 4 }));
    assert_eq!(s.focused(), 4);
    assert_eq!(s.workspaces[0].stack.clients, vec![4, 5, 6]);
    assert_eq!(s.workspaces[2].stack.focused, 8);
}

#[test]
fn moving_the_focused_window_to_another_workspace() {
    let mut s = state_with(&[1, 2, 3], 2);
    assert_eq!(s.move_to_workspace(4), Some(2));
    assert_eq!(s.workspaces[0].stack.clients, vec![1, 3]);
    assert_eq!(s.workspaces[0].stack.focused, 1);
    assert_eq!(s.workspaces[4].stack.clients, vec![2]);
    assert_eq!(s.workspaces[4].stack.focused, 2);
    assert_eq!(s.current_workspace, 0);
}

#[test]
fn moving_without_focused_client_or_target_does_nothing() {
    let mut s = state_with(&[1, 2], 5);
    assert_eq!(s.move_to_workspace(1), None);
    assert_eq!(s.workspaces[0].stack.clients, vec![1, 2]);
    let mut t = state_with(&[1, 2], 1);
    assert_eq!(t.move_to_workspace(0), None);
    assert_eq!(t.move_to_workspace(12), None);
    assert_eq!(t.workspaces[0].stack.clients, vec![1, 2]);
}

#[test]
fn toggling_float_twice() {
    let mut s = state_with(&[1, 2], 2);
    assert_eq!(s.toggle_float(), Some(true));
    assert!(s.is_floating(2));
    assert_eq!(s.split_clients(), (vec![2], vec![1]));
    assert_eq!(s.toggle_float(), Some(false));
    assert!(!s.is_floating(2));
    assert!(s.floating_windows.is_empty());
    let mut none = WmState::new();
    assert_eq!(none.toggle_float(), None);
}

#[test]
fn floating_set_has_no_repeats() {
    let mut s = WmState::new();
    s.make_floating(4);
    s.make_floating(4);
    s.make_floating(5);
    assert_eq!(s.floating_windows, HashSet::from([4, 5]));
    s.make_tiled(4);
    s.make_tiled(9);
    assert_eq!(s.floating_windows, HashSet::from([5]));
}

#[test]
fn split_keeps_client_order() {
    let mut s = state_with(&[1, 2, 3, 4], 1);
    s.make_floating(3);
    s.make_floating(1);
    s.make_floating(99);
    assert_eq!(s.split_clients(), (vec![1, 3], vec![2, 4]));
}

#[test]
fn adoption_rules() {
    let mut s = WmState::new();
    assert_eq!(s.adopt(1, true, Some(2), true), None);
    assert_eq!(s.adopt(2, false, None, false), None);
    assert_eq!(s.adopt(3, false, None, true), Some(0));
    assert_eq!(s.adopt(4, false, Some(2), false), Some(2));
    assert_eq!(s.adopt(5, false, Some(40), true), Some(8));
    assert_eq!(s.workspaces[0].stack.clients, vec![3]);
    assert_eq!(s.workspaces[2].stack.clients, vec![4]);
    assert_eq!(s.workspaces[8].stack.clients, vec![5]);
}

#[test]
fn settings_and_panel() {
    let mut s = WmState::new();
    s.set_bar_height(24);
    assert_eq!(s.bar_height, 24);
    let c = RustileConfig { border_width: 1, color_focus: 2, color_normal: 3, gap_size: 4 };
    s.set_config(c);
    assert_eq!(s.config, c);
}

#[test]
fn adoption_targets_and_direct_pushes() {
    let mut s = WmState::new();
    assert_eq!(s.adoption_target(false, Some(3), false), Some(3));
    assert_eq!(s.adoption_target(false, None, true), Some(0));
    assert_eq!(s.adoption_target(true, None, true), None);
    s.push_client_to(6, 42);
    assert_eq!(s.workspaces[6].stack.clients, vec![42]);
    assert!(s.workspaces[0].stack.clients.is_empty());
}

#[test]
fn moving_windows_around_keeps_every_window() {
    let mut s = state_with(&[1, 2, 3], 3);
    s.move_to_workspace(1);
    s.set_focus(1);
    s.move_to_workspace(2);
    let mut all: Vec<u32> = s.workspaces.iter().flat_map(|w| w.stack.clients.clone()).collect();
    all.sort();
    assert_eq!(all, vec![1, 2, 3]);
    assert_eq!(s.workspaces[1].stack.clients, vec![3]);
    assert_eq!(s.workspaces[2].stack.clients, vec![1]);
}

#[test]
fn moving_the_last_window_leaves_no_focus_behind() {
    let mut s = state_with(&[7], 7);
    assert_eq!(s.move_to_workspace(2), Some(7));
    assert!(s.workspaces[0].stack.clients.is_empty());
    assert_eq!(s.workspaces[0].stack.focused, 0);
    assert_eq!(s.workspaces[2].stack.focused, 7);
}
