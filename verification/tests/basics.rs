use notecypher::pdf_types::{FilterOptions, Orientation};
use notecypher::selection::{all_indices, contains_all, insert_all, remove_all, remove_keys_from, set_to_vec};
use notecypher::styles::{Button, Checkbox, Container, Scrollbar, Text};
use notecypher::text::{append_bytes, ascii_string, concat_strings, decimal_i64, decimal_u64, str_bytes};
use std::collections::{HashMap, HashSet};
use std::sync::Arc;

#[test]
fn decimal_notation() {
    assert_eq!(decimal_u64(0), b"0".to_vec());
    assert_eq!(decimal_u64(1234567890), b"1234567890".to_vec());
    assert_eq!(decimal_u64(u64::MAX), u64::MAX.to_string().into_bytes());
    assert_eq!(decimal_i64(-905), b"-905".to_vec());
    assert_eq!(decimal_i64(i64::MIN), i64::MIN.to_string().into_bytes());
    assert_eq!(decimal_i64(42), b"42".to_vec());
}

#[test]
fn string_helpers() {
    let mut v = b"ab".to_vec();
    append_bytes(&mut v, &b"cd".to_vec());
    assert_eq!(v, b"abcd".to_vec());
    assert_eq!(str_bytes("xyz"), b"xyz".to_vec());
    assert_eq!(ascii_string(b"hello".to_vec()), "hello");
    assert_eq!(concat_strings("foo", "bar"), "foobar");
}

#[test]
fn defaults() {
    assert_eq!(FilterOptions::default(), FilterOptions { invert: false, clear_background: false, grayscale: false });
    assert_eq!(Orientation::default(), Orientation::Portrait);
    assert_eq!(Container::default(), Container::Default);
    assert_eq!(Button::default(), Button::Primary);
    assert_eq!(Text::default(), Text::Default);
    assert_eq!(Checkbox::default(), Checkbox::Default);
    assert_eq!(Scrollbar::default(), Scrollbar::Default);
}

#[test]
fn buttons_with_a_hover_look() {
    assert!(Button::Primary.has_hover_look());
    assert!(Button::Upload.has_hover_look());
    assert!(!Button::Success.has_hover_look());
    assert!(!Button::Thumbnail.has_hover_look());
    assert!(!Button::Disabled.has_hover_look());
}

#[test]
fn selection_helpers() {
    let s = all_indices(4);
    let mut v = set_to_vec(&s);
    v.sort();
    assert_eq!(v, vec![0, 1, 2, 3]);
    let mut s2 = s.clone();
    remove_all(&mut s2, &vec![1, 3, 9]);
    let expected: HashSet<usize> = [0usize, 2].into_iter().collect();
    assert_eq!(s2, expected);
    insert_all(&mut s2, &vec![7, 0]);
    let expected: HashSet<usize> = [0usize, 2, 7].into_iter().collect();
    assert_eq!(s2, expected);
    assert!(contains_all(&s2, &vec![7, 2]));
    assert!(!contains_all(&s2, &vec![7, 3]));
    assert!(contains_all(&s2, &vec![]));
    let mut m: HashMap<usize, Arc<Vec<u8>>> = HashMap::new();
    m.insert(1, Arc::new(vec![1]));
    m.insert(2, Arc::new(vec![2]));
    remove_keys_from(&mut m, &vec![2, 5]);
    let keys: Vec<usize> = m.keys().copied().collect();
    assert_eq!(keys, vec![1]);
}
