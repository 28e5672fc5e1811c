use rustile::mods;
use rustile::wm_core::{decimal_string, RustileConfig, Stack, Workspace};

fn stack(focused: u32, clients: &[u32]) -> Stack {
    Stack { focused, clients: clients.to_vec() }
}

#[test]
fn new_stack_is_empty() {
    let s = Stack::new();
    assert_eq!(s.focused, 0);
    assert!(s.clients.is_empty());
}

#[test]
fn add_appends_and_focuses() {
    let mut s = Stack::new();
    s.add(5);
    s.add(7);
    assert_eq!(s.clients, vec![5, 7]);
    assert_eq!(s.focused, 7);
}

#[test]
fn swap_moves_focused_window_forward() {
    let mut s = stack(1, &[1, 2, 3]);
    s.swap(1);
    assert_eq!(s.clients, vec![2, 1, 3]);
    assert_eq!(s.focused, 1);
}

#[test]
fn swap_wraps_backwards() {
    let mut s = stack(1, &[1, 2, 3]);
    s.swap(-1);
    assert_eq!(s.clients, vec![3, 2, 1]);
}

#[test]
fn swap_without_focused_client_does_nothing() {
    let mut s = stack(9, &[1, 2, 3]);
    s.swap(1);
    assert_eq!(s.clients, vec![1, 2, 3]);
    let mut t = stack(1, &[1]);
    t.swap(1);
    assert_eq!(t.clients, vec![1]);
}

#[test]
fn swap_there_and_back_restores_order() {
    let mut s = stack(2, &[1, 2, 3, 4]);
    s.swap(3);
    assert_eq!(s.clients, vec![2, 1, 3, 4]);
    s.swap(-3);
    assert_eq!(s.clients, vec![1, 2, 3, 4]);
}

#[test]
fn swap_by_a_full_turn_keeps_order() {
    let mut s = stack(2, &[1, 2, 3]);
    s.swap(3);
    assert_eq!(s.clients, vec![1, 2, 3]);
}

#[test]
fn swap_focus_starts_at_first_client_when_focus_is_unknown() {
    let mut s = stack(9, &[1, 2, 3]);
    s.swap_focus(1);
    assert_eq!(s.clients, vec![2, 1, 3]);
    assert_eq!(s.focused, 9);
}

#[test]
fn swap_focus_with_known_focus() {
    let mut s = stack(3, &[1, 2, 3]);
    s.swap_focus(1);
    assert_eq!(s.clients, vec![3, 2, 1]);
}

#[test]
fn rotate_focus_wraps_around() {
    let mut s = stack(3, &[1, 2, 3]);
    s.rotate_focus(1);
    assert_eq!(s.focused, 1);
    s.rotate_focus(-1);
    assert_eq!(s.focused, 3);
    s.rotate_focus(-4);
    assert_eq!(s.focused, 2);
    assert_eq!(s.clients, vec![1, 2, 3]);
}

#[test]
fn rotate_focus_from_unknown_focus_starts_at_first_client() {
    let mut s = stack(7, &[1, 2, 3]);
    s.rotate_focus(1);
    assert_eq!(s.focused, 2);
}

#[test]
fn rotate_focus_on_empty_stack_keeps_focus() {
    let mut s = stack(4, &[]);
    s.rotate_focus(1);
    assert_eq!(s.focused, 4);
}

#[test]
fn rotate_there_and_back_restores_focus() {
    let mut s = stack(2, &[5, 2, 9, 4]);
    s.rotate_focus(5);
    assert_eq!(s.focused, 9);
    s.rotate_focus(-5);
    assert_eq!(s.focused, 2);
}

#[test]
fn remove_focused_client_passes_focus_to_last() {
    let mut s = stack(2, &[1, 2, 3]);
    let f = s.remove_client(2);
    assert_eq!(s.clients, vec![1, 3]);
    assert_eq!(f, 3);
    assert_eq!(s.focused, 3);
}

#[test]
fn remove_other_client_keeps_focus() {
    let mut s = stack(1, &[1, 2, 3, 2]);
    let f = s.remove_client(2);
    assert_eq!(s.clients, vec![1, 3]);
    assert_eq!(f, 1);
}

#[test]
fn remove_only_client_leaves_no_focus() {
    let mut s = stack(4, &[4]);
    assert_eq!(s.remove_client(4), 0);
    assert!(s.clients.is_empty());
}

#[test]
fn position_finds_first_occurrence() {
    let s = stack(0, &[4, 6, 4]);
    assert_eq!(s.position(4), Some(0));
    assert_eq!(s.position(6), Some(1));
    assert_eq!(s.position(5), None);
}

#[test]
fn workspace_new_is_empty() {
    let w = Workspace::new(3, "3");
    assert_eq!(w.id, 3);
    assert_eq!(w.name, "3");
    assert_eq!(w.stack.focused, 0);
    assert!(w.stack.clients.is_empty());
}

#[test]
fn default_appearance() {
    let c = RustileConfig::default();
    assert_eq!(c.border_width, 2);
    assert_eq!(c.color_focus, 0x44475a);
    assert_eq!(c.color_normal, 0xbd93f9);
    assert_eq!(c.gap_size, 10);
    assert_eq!(c.border_color(true), 0x44475a);
    assert_eq!(c.border_color(false), 0xbd93f9);
}

#[test]
fn decimal_names() {
    assert_eq!(decimal_string(0), "0");
    assert_eq!(decimal_string(9), "9");
    assert_eq!(decimal_string(123), "123");
    assert_eq!(decimal_string(4294967295), "4294967295");
}

#[test]
fn modifier_constants() {
    assert_eq!(mods::ALT_SHIFT, 9);
    assert_eq!(mods::ALT_CONTROL, 12);
    assert_eq!(mods::SHIFT_CONTROL, 5);
    assert_eq!(mods::MOD_4, 64);
    assert_eq!(mods::NONE, 0);
}

#[test]
fn drop_client_keeps_focus() {
    let mut s = stack(2, &[1, 2, 3]);
    s.drop_client(2);
    assert_eq!(s.clients, vec![1, 3]);
    assert_eq!(s.focused, 2);
}

#[test]
fn step_range_checks() {
    let s = stack(3, &[1, 2, 3]);
    assert!(s.swap_fits(1));
    assert!(!s.swap_fits(i32::MAX));
    assert!(s.swap_fits(i32::MAX - 2));
    assert!(s.rotate_fits(-5));
    assert!(!s.rotate_fits(i32::MAX - 1));
    let unknown = stack(9, &[1, 2]);
    assert!(unknown.swap_fits(i32::MAX));
    assert!(unknown.rotate_fits(i32::MAX));
}
