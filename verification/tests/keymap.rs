use rustile::keymap::{BindingMap, KeyCombo};

#[test]
fn read_after_write() {
    let mut m: BindingMap<KeyCombo, &str> = BindingMap::new();
    let a = KeyCombo { modifiers: 64, keycode: 36 };
    let b = KeyCombo { modifiers: 64, keycode: 24 };
    assert_eq!(m.get(&a), None);
    m.insert(a, "terminal");
    m.insert(b, "quit");
    assert_eq!(m.get(&a), Some(&"terminal"));
    assert_eq!(m.get(&b), Some(&"quit"));
    m.insert(a, "browser");
    assert_eq!(m.get(&a), Some(&"browser"));
    assert_eq!(m.get(&b), Some(&"quit"));
    assert_eq!(m.len(), 2);
    assert_eq!(m.entry(0), (&a, &"browser"));
    assert_eq!(m.entry(1), (&b, &"quit"));
}
