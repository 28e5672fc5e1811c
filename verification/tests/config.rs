use rustile::config::{modifier_mask, Action, RustileConfig, Shortcut};
use rustile::keymap::BindingMap;

fn spawn_command(a: &Option<Action>) -> Option<String> {
    match a {
        Some(Action::Spawn(c)) => Some(c.clone()),
        _ => None,
    }
}

#[test]
fn default_settings() {
    let c = RustileConfig::default();
    assert_eq!(c.border_width, 2);
    assert_eq!(c.color_focus, 0xffaa00);
    assert_eq!(c.color_normal, 0x444444);
    assert_eq!(c.gap_size, 5);
    assert_eq!(c.workspaces, vec!["1", "2", "3", "4"]);
    assert_eq!(c.shortcuts.len(), 2);
}

#[test]
fn default_shortcuts() {
    let c = RustileConfig::default();
    let t = c.action_for(64, &vec![36]);
    assert_eq!(spawn_command(&t), Some("weston-terminal".to_string()));
    assert!(matches!(c.action_for(64, &vec![5, 24]), Some(Action::Quit)));
    assert!(c.action_for(0, &vec![36]).is_none());
    assert!(c.action_for(64, &vec![]).is_none());
}

#[test]
fn first_bound_shortcut_wins() {
    let mut keys = BindingMap::new();
    keys.insert(Shortcut { modifier: 8, key: 1 }, Action::Spawn("a".to_string()));
    keys.insert(Shortcut { modifier: 8, key: 2 }, Action::Spawn("b".to_string()));
    let mut c = RustileConfig::default();
    c.set_shortcut(keys);
    assert_eq!(spawn_command(&c.action_for(8, &vec![2, 1])), Some("a".to_string()));
    assert_eq!(spawn_command(&c.action_for(8, &vec![2])), Some("b".to_string()));
    assert!(c.action_for(64, &vec![36]).is_none());
    assert_eq!(c.gap_size, 5);
}

#[test]
fn action_copy() {
    let a = Action::Spawn("x".to_string());
    assert!(matches!(a.duplicate(), Action::Spawn(s) if s == "x"));
    assert!(matches!(Action::Quit.duplicate(), Action::Quit));
}

#[test]
fn modifier_masks() {
    assert_eq!(modifier_mask(false, false, false, false), 0);
    assert_eq!(modifier_mask(true, false, true, false), 72);
    assert_eq!(modifier_mask(true, true, true, true), 77);
    assert_eq!(modifier_mask(false, false, false, true), 1);
}
