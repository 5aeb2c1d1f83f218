use gsn2x_lib::order::{compare_text, sort_texts, TextOrder};
use gsn2x_lib::text::{
    characters, copy_texts, decimal_text, join, replace_char, same_text, starts_with,
};
use gsn2x_lib::text_map::TextMap;

fn strings(list: &[&str]) -> Vec<String> {
    list.iter().map(|s| s.to_string()).collect()
}

#[test]
fn names_compare_like_strings() {
    let names = ["", "A", "AB", "B", "G1", "G10", "G2", "g1", "Ä", "€", "𝄞", "\u{ffff}"];
    for a in names {
        for b in names {
            let expected = if a < b {
                TextOrder::Before
            } else if a == b {
                TextOrder::Same
            } else {
                TextOrder::After
            };
            assert_eq!(compare_text(a, b), expected, "{a} {b}");
        }
    }
}

#[test]
fn order_is_total() {
    assert_eq!(compare_text("G1", "G2"), TextOrder::Before);
    assert_eq!(compare_text("G2", "G1"), TextOrder::After);
    assert_eq!(compare_text("G1", "G1"), TextOrder::Same);
    assert_eq!(compare_text("G1", "G11"), TextOrder::Before);
}

#[test]
fn names_sort_like_strings() {
    let list = strings(&["Sn2", "G1", "", "C1", "G1", "G10", "G2"]);
    let mut expected = list.clone();
    expected.sort();
    assert_eq!(sort_texts(list), expected);
    assert_eq!(sort_texts(vec![]), Vec::<String>::new());
}

#[test]
fn characters_are_not_bytes() {
    assert_eq!(characters("aä€"), vec!['a', 'ä', '€']);
}

#[test]
fn texts_are_compared_as_a_whole() {
    assert!(same_text("Unknown", "Unknown"));
    assert!(!same_text("Unknown", "Unknow"));
    assert!(!same_text("Unknown", "unknown"));
    assert!(same_text("", ""));
}

#[test]
fn prefixes() {
    assert!(starts_with("Sn1", "Sn"));
    assert!(starts_with("Sn1", ""));
    assert!(!starts_with("S", "Sn"));
    assert!(!starts_with("G1", "S"));
}

#[test]
fn characters_are_replaced() {
    assert_eq!(replace_char("a\\b\\\\c", '\\', '/'), "a/b//c");
    assert_eq!(replace_char("äöü", 'ö', '€'), "ä€ü");
    assert_eq!(replace_char("", 'a', 'b'), "");
}

#[test]
fn numbers_in_decimal() {
    for n in [0usize, 1, 9, 10, 42, 100, 1234567890, usize::MAX] {
        assert_eq!(decimal_text(n), n.to_string());
    }
}

#[test]
fn lists_are_joined() {
    assert_eq!(join(&vec![], ", "), "");
    assert_eq!(join(&strings(&["X1"]), ", "), "X1");
    assert_eq!(join(&strings(&["X1", "Y", "Z"]), ", "), "X1, Y, Z");
}

#[test]
fn lists_are_copied() {
    assert_eq!(copy_texts(&strings(&["b", "a", "b"])), strings(&["b", "a", "b"]));
}

#[test]
fn maps_are_walked_in_order() {
    let mut map: TextMap<String> = TextMap::new();
    assert!(map.is_empty());
    for name in ["G2", "Sn1", "C1", "G1", "G2"] {
        map.insert(name.to_string(), format!("value of {name}"));
    }
    assert_eq!(map.len(), 4);
    let names: Vec<&str> = (0..map.len()).map(|i| map.name_at(i).as_str()).collect();
    assert_eq!(names, vec!["C1", "G1", "G2", "Sn1"]);
    assert_eq!(map.value_at(1), "value of G1");
    assert!(map.contains_key("Sn1"));
    assert!(!map.contains_key("Sn"));
    assert_eq!(map.get("C1").map(|s| s.as_str()), Some("value of C1"));
    assert_eq!(map.get("C2"), None);
}

#[test]
fn maps_replace_and_remove() {
    let mut map: TextMap<String> = TextMap::new();
    map.insert("b".to_string(), "1".to_string());
    map.insert("a".to_string(), "2".to_string());
    map.insert("b".to_string(), "3".to_string());
    assert_eq!(map.get("b").map(|s| s.as_str()), Some("3"));
    assert_eq!(map.remove("c"), None);
    assert_eq!(map.remove("a"), Some("2".to_string()));
    assert_eq!(map.remove("a"), None);
    assert_eq!(map.pop_first(), Some(("b".to_string(), "3".to_string())));
    assert_eq!(map.pop_first(), None);
}
