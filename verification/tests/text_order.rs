use bitwig_launcher::text::{str_place, str_precedes, str_same, Place};

#[test]
fn earlier_version_comes_first() {
    assert_eq!(str_place("4.3", "4.4"), Place::Before);
    assert_eq!(str_place("4.4", "4.3"), Place::After);
    assert!(str_precedes("4.3", "4.4"));
    assert!(!str_precedes("4.4", "4.3"));
}

#[test]
fn a_string_is_the_same_as_itself() {
    assert_eq!(str_place("5.0", "5.0"), Place::Same);
    assert!(str_same("5.0", "5.0"));
    assert!(!str_precedes("5.0", "5.0"));
    assert_eq!(str_place("", ""), Place::Same);
}

#[test]
fn a_prefix_comes_before_what_extends_it() {
    assert_eq!(str_place("4", "4.3"), Place::Before);
    assert_eq!(str_place("4.3", "4"), Place::After);
    assert_eq!(str_place("", "4"), Place::Before);
    assert_eq!(str_place("4", ""), Place::After);
    assert!(!str_same("4", "4.3"));
}

#[test]
fn order_is_by_character_not_by_number() {
    assert_eq!(str_place("10.0", "9.0"), Place::Before);
    assert_eq!(str_place("4.10", "4.9"), Place::Before);
}

#[test]
fn capital_letters_come_before_small_ones() {
    assert_eq!(str_place("Beta", "alpha"), Place::Before);
    assert_eq!(str_place("alpha", "Beta"), Place::After);
}

#[test]
fn characters_outside_ascii_are_ordered_by_code_point() {
    assert_eq!(str_place("z", "\u{e9}"), Place::Before);
    assert_eq!(str_place("\u{e9}", "z"), Place::After);
    assert_eq!(str_place("\u{e9}", "\u{1F600}"), Place::Before);
    assert_eq!(str_place("\u{ffff}", "\u{10000}"), Place::Before);
    assert_eq!(str_place("a\u{e9}b", "a\u{e9}c"), Place::Before);
}

#[test]
fn order_agrees_with_the_standard_library() {
    let samples = ["", "4", "4.3", "4.4", "4.10", "5.0", "Beta", "alpha", "\u{e9}", "z", "\u{10000}", "\u{ffff}"];
    for a in samples.iter() {
        for b in samples.iter() {
            assert_eq!(str_precedes(a, b), a < b, "{:?} {:?}", a, b);
            assert_eq!(str_same(a, b), a == b, "{:?} {:?}", a, b);
        }
    }
}
