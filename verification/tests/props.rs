use rustile::props::{
    class_property_floats, contains_atom, contains_bytes, keycode_for_keysym, keycode_in_range, largest_strut,
    property_first_value, property_holds_atom, property_is_set, role_property_floats,
    should_window_float, top_strut, top_strut_of_properties, window_types_float, Property,
};

#[test]
fn byte_search() {
    assert!(contains_bytes(b"hello world", b"o w"));
    assert!(contains_bytes(b"abc", b""));
    assert!(contains_bytes(b"abc", b"abc"));
    assert!(!contains_bytes(b"abc", b"abcd"));
    assert!(!contains_bytes(b"abcabd", b"abe"));
}

#[test]
fn atom_lists() {
    assert!(contains_atom(&[1, 5, 9], 9));
    assert!(!contains_atom(&[1, 5, 9], 4));
    assert!(!contains_atom(&[], 4));
}

#[test]
fn transient_windows_float() {
    assert!(should_window_float(true, &None, &vec![], &None, &None));
}

#[test]
fn listed_window_types_float() {
    let floating = vec![50, 51, 52];
    assert!(should_window_float(false, &Some(vec![10, 51]), &floating, &None, &None));
    assert!(!should_window_float(false, &Some(vec![10, 11]), &floating, &None, &None));
}

#[test]
fn dialog_roles_float() {
    let role = Some(b"GtkFileChooserDialog".to_vec());
    assert!(should_window_float(false, &None, &vec![], &role, &None));
    assert!(should_window_float(false, &None, &vec![], &Some(b"my-pop-up-1".to_vec()), &None));
    assert!(should_window_float(false, &None, &vec![], &Some(b"bubble".to_vec()), &None));
    assert!(!should_window_float(false, &None, &vec![], &Some(b"browser".to_vec()), &None));
}

#[test]
fn roles_that_are_not_text_do_not_count() {
    let mut bytes = b"pop-up".to_vec();
    bytes.push(0xff);
    assert!(!should_window_float(false, &None, &vec![], &Some(bytes), &None));
}

#[test]
fn portal_class_floats() {
    let class = Some(b"xdg-desktop-portal-gtk\0Xdg-desktop-portal-gtk\0".to_vec());
    assert!(should_window_float(false, &None, &vec![], &None, &class));
    assert!(!should_window_float(false, &None, &vec![], &None, &Some(b"firefox".to_vec())));
}

#[test]
fn struts() {
    assert_eq!(top_strut(&Some(vec![0, 0, 25, 0]), &None), 25);
    assert_eq!(top_strut(&Some(vec![0, 0, 0, 0]), &Some(vec![0, 0, 30, 0])), 30);
    assert_eq!(top_strut(&Some(vec![0, 40]), &None), 0);
    assert_eq!(top_strut(&None, &None), 0);
    assert_eq!(top_strut(&Some(vec![0, 0, 12]), &Some(vec![0, 0, 30])), 12);
}

#[test]
fn largest_strut_is_the_margin() {
    assert_eq!(largest_strut(&vec![5, 30, 12]), 30);
    assert_eq!(largest_strut(&vec![]), 0);
}

#[test]
fn keycode_lookup() {
    let syms = vec![10, 11, 20, 21, 30, 31];
    assert_eq!(keycode_for_keysym(&syms, 2, 8, 21), Some(9));
    assert_eq!(keycode_for_keysym(&syms, 2, 8, 10), Some(8));
    assert_eq!(keycode_for_keysym(&syms, 3, 8, 30), Some(9));
    assert_eq!(keycode_for_keysym(&syms, 2, 8, 99), None);
}

fn prop32(values: &[u32]) -> Property {
    Property { format: 32, value: values.iter().flat_map(|v| v.to_ne_bytes()).collect() }
}

fn prop8(bytes: &[u8]) -> Property {
    Property { format: 8, value: bytes.to_vec() }
}

fn missing() -> Property {
    Property { format: 0, value: vec![] }
}

#[test]
fn transient_property() {
    assert!(property_is_set(&prop32(&[77])));
    assert!(!property_is_set(&missing()));
    assert!(!property_is_set(&prop8(b"x")));
}

#[test]
fn window_type_properties() {
    assert!(window_types_float(&prop32(&[3, 50]), &[50, 51]));
    assert!(!window_types_float(&prop32(&[3, 4]), &[50, 51]));
    assert!(!window_types_float(&prop8(&[50, 0, 0, 0]), &[50]));
    assert!(property_holds_atom(&prop32(&[9, 8, 7]), 8));
    assert!(!property_holds_atom(&prop32(&[9, 8, 7]), 6));
    assert!(!property_holds_atom(&missing(), 6));
}

#[test]
fn first_value_of_property() {
    assert_eq!(property_first_value(&prop32(&[4, 5])), Some(4));
    assert_eq!(property_first_value(&prop32(&[])), None);
    assert_eq!(property_first_value(&missing()), None);
}

#[test]
fn role_and_class_properties() {
    assert!(role_property_floats(&prop8(b"pop-up")));
    assert!(!role_property_floats(&Property { format: 32, value: b"pop-up!!".to_vec() }));
    assert!(class_property_floats(&prop8(b"xdg-desktop-portal-gtk")));
    assert!(!class_property_floats(&prop8(b"xterm")));
}

#[test]
fn strut_properties() {
    assert_eq!(top_strut_of_properties(&Some(prop32(&[0, 0, 24, 0])), &None), 24);
    assert_eq!(top_strut_of_properties(&Some(prop32(&[0, 0, 0, 0])), &Some(prop32(&[0, 0, 18, 0]))), 18);
    assert_eq!(top_strut_of_properties(&None, &Some(prop8(&[0; 12]))), 0);
    assert_eq!(top_strut_of_properties(&None, &None), 0);
}

#[test]
fn items_are_read_four_bytes_at_a_time() {
    let p = Property { format: 32, value: vec![1, 2, 3, 4, 9, 9] };
    let first = property_first_value(&p).unwrap();
    assert!(first == 0x0403_0201 || first == 0x0102_0304);
    assert_eq!(first, u32::from_ne_bytes([1, 2, 3, 4]));
    assert_eq!(property_first_value(&Property { format: 32, value: vec![1, 2, 3] }), None);
    assert!(property_holds_atom(&p, first));
    assert!(!property_holds_atom(&p, 0x0909_0000));
    assert!(window_types_float(&p, &[7, first]));
    assert!(!window_types_float(&Property { format: 32, value: vec![1, 2, 3] }, &[0, 0x0003_0201]));
}

#[test]
fn keycodes_that_fit_in_a_byte() {
    let syms = vec![10, 11, 20, 21, 30, 31];
    assert!(keycode_in_range(&syms, 2, 8, 21));
    assert!(keycode_in_range(&syms, 2, 8, 99));
    assert!(keycode_in_range(&syms, 2, 254, 21));
    assert!(!keycode_in_range(&syms, 2, 255, 21));
    assert!(!keycode_in_range(&syms, 1, 253, 30));
    assert!(keycode_in_range(&syms, 1, 251, 30));
}
