use strom::property::{PropertyValue, StrMap};
use strom::text::{
    contains_str, parse_i32, parse_i64, parse_usize, prefix_before, replace_char, strip_prefix, strip_suffix,
    trim,
};

#[test]
fn integer_parsing_matches_std() {
    for s in ["0", "42", "+7", "-7", "", "-", "+", "1x", " 1", "9223372036854775807", "9223372036854775808", "-9223372036854775808"] {
        assert_eq!(parse_i64(s), s.parse::<i64>().ok(), "{:?}", s);
    }
    for s in ["2147483647", "2147483648", "-2147483648", "-2147483649", "12"] {
        assert_eq!(parse_i32(s), s.parse::<i32>().ok(), "{:?}", s);
    }
    for s in ["0", "18446744073709551615", "18446744073709551616", "-1", "+3", "3.0"] {
        assert_eq!(parse_usize(s), s.parse::<usize>().ok(), "{:?}", s);
    }
}

#[test]
fn string_helpers_match_std() {
    for s in ["", "  a b  ", "\t\nx\u{3000}", "abc"] {
        assert_eq!(trim(s), s.trim());
    }
    assert_eq!(replace_char("sizing-policy-x", '-', '_'), "sizing_policy_x");
    assert_eq!(prefix_before("b0:mixer:x", ':'), "b0");
    assert_eq!(prefix_before("b0", ':'), "b0");
    assert_eq!(strip_prefix("sink_3", "sink_").as_deref(), Some("3"));
    assert_eq!(strip_prefix("src_3", "sink_"), None);
    assert_eq!(strip_suffix("b1:ebur128level", ":ebur128level").as_deref(), Some("b1"));
    assert!(contains_str("ndideviceprovider", "ndi"));
    assert!(!contains_str("nd", "ndi"));
}

#[test]
fn property_maps_behave_like_hash_maps() {
    let mut m = StrMap::new();
    m.insert("a".to_string(), PropertyValue::Int(1));
    m.insert("b".to_string(), PropertyValue::Bool(true));
    m.insert("a".to_string(), PropertyValue::Int(2));
    assert_eq!(m.len(), 2);
    assert!(matches!(m.get("a"), Some(PropertyValue::Int(2))));
    assert!(m.remove("a"));
    assert!(!m.remove("a"));
    assert!(!m.contains_key("a"));
    assert_eq!(m.keys(), vec!["b".to_string()]);
}
