use o11a_core::ordered::OrderedMap;
use o11a_core::text::{append_numeral, join_with, parse_int, split_on, text_eq, text_order, Standing};

#[test]
fn numerals_are_read_back() {
    for n in [0, 7, -7, 10, i64::MAX, i64::MIN] {
        let mut s = String::new();
        append_numeral(&mut s, n);
        assert_eq!(s, n.to_string());
        assert_eq!(parse_int(&s, i64::MIN as i128, i64::MAX as i128), Some(n as i128));
    }
}

#[test]
fn integers_have_signs_and_bounds() {
    assert_eq!(parse_int("+5", -10, 10), Some(5));
    assert_eq!(parse_int("-005", -10, 10), Some(-5));
    assert_eq!(parse_int("11", -10, 10), None);
    assert_eq!(parse_int("", -10, 10), None);
    assert_eq!(parse_int("-", -10, 10), None);
    assert_eq!(parse_int("1x", -10, 10), None);
    assert_eq!(parse_int("99999999999999999999999999999999999999999999", 0, 10), None);
}

#[test]
fn splitting_and_joining_undo_each_other() {
    assert_eq!(split_on("a::b", ':'), vec!["a", "", "b"]);
    assert_eq!(split_on("", ':'), vec![""]);
    assert_eq!(join_with(&split_on("a::b:", ':'), ':'), "a::b:");
}

#[test]
fn texts_compare_by_character() {
    assert!(text_eq("é", "é"));
    assert!(!text_eq("e", "é"));
    assert_eq!(text_order("ab", "b"), Standing::Before);
    assert_eq!(text_order("a", "ab"), Standing::Before);
    assert_eq!(text_order("ab", "ab"), Standing::Same);
    assert_eq!(text_order("é", "z"), Standing::After);
}

#[test]
fn maps_keep_their_keys_in_order() {
    let mut m: OrderedMap<String, u8> = OrderedMap::new();
    for (i, k) in ["c", "a", "b"].iter().enumerate() {
        m.insert(k.to_string(), i as u8);
    }
    assert_eq!(m.position(&"b".to_string()), Some(1));
    *m.get_mut(&"b".to_string()).unwrap() = 9;
    assert_eq!(m.take_first(), ("a".to_string(), 1));
    assert_eq!(m.get(&"b".to_string()), Some(&9));
    assert_eq!(m.remove(&"c".to_string()), Some(0));
    assert_eq!(m.len(), 1);
    m.clear();
    assert!(m.is_empty());
}
