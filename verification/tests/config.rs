use gemini_pool::config::{char_is_white_space, parse_key_list};
use gemini_pool::pool::RotationPool;

fn strings(list: &[&str]) -> Vec<String> {
    list.iter().map(|k| k.to_string()).collect()
}

#[test]
fn a_line_is_split_at_its_commas() {
    assert_eq!(parse_key_list("a,b,c"), strings(&["a", "b", "c"]));
    assert_eq!(parse_key_list("only"), strings(&["only"]));
}

#[test]
fn white_space_at_the_ends_of_a_piece_is_dropped() {
    assert_eq!(parse_key_list(" a , b\t,\nc "), strings(&["a", "b", "c"]));
    assert_eq!(parse_key_list("a b , c\u{3000}"), strings(&["a b", "c"]));
    assert_eq!(parse_key_list("\u{a0}key\u{2003}"), strings(&["key"]));
}

#[test]
fn empty_pieces_are_kept() {
    assert_eq!(parse_key_list(""), strings(&[""]));
    assert_eq!(parse_key_list("   "), strings(&[""]));
    assert_eq!(parse_key_list(","), strings(&["", ""]));
    assert_eq!(parse_key_list("a,,b"), strings(&["a", "", "b"]));
    assert_eq!(parse_key_list("a, ,b,"), strings(&["a", "", "b", ""]));
}

#[test]
fn characters_of_several_bytes_are_kept_whole() {
    assert_eq!(parse_key_list("é€,😀 , ü"), strings(&["é€", "😀", "ü"]));
}

#[test]
fn parsing_agrees_with_split_and_trim() {
    for raw in ["", ",", " a,b ,, c\t", "x , y,z", "\u{2028}k\u{85},\u{1680}", "a,b,c,d,e,f", " , , "] {
        let wanted: Vec<String> = raw.split(',').map(|s| s.trim().to_string()).collect();
        assert_eq!(parse_key_list(raw), wanted);
    }
}

#[test]
fn white_space_is_what_the_standard_library_takes_for_it() {
    for code in 0..=0x10ffffu32 {
        if let Some(c) = char::from_u32(code) {
            assert_eq!(char_is_white_space(c), c.is_whitespace());
        }
    }
}

#[test]
fn a_pool_is_built_from_a_configured_line() {
    let pool = RotationPool::from_key_list("key-a, key-b ,key-c").unwrap();
    assert_eq!(pool.len(), 3);
    assert_eq!(pool.key_at(1), "key-b");
    assert!(RotationPool::from_key_list("").is_none());
    assert!(RotationPool::from_key_list("a,,b").is_none());
    assert!(RotationPool::from_key_list("a, ").is_none());
}
