use lan_cat::bytes::{append_u32, append_u64, read_be, u128_bytes, u64_bytes};
use lan_cat::idmap::IdMap;
use lan_cat::path::file_name;
use lan_cat::strmap::StrMap;
use lan_cat::text::{number_text, str_eq, str_lt, str_starts_with, trim};

#[test]
fn numbers_are_written_big_endian() {
    assert_eq!(u64_bytes(0x0102), vec![0, 0, 0, 0, 0, 0, 1, 2]);
    assert_eq!(u128_bytes(1)[15], 1);
    let mut out = Vec::new();
    append_u32(&mut out, 258);
    append_u64(&mut out, 7);
    assert_eq!(out, vec![0, 0, 1, 2, 0, 0, 0, 0, 0, 0, 0, 7]);
    assert_eq!(read_be(&out, 0, 4), 258);
    assert_eq!(read_be(&out, 4, 12), 7);
}

#[test]
fn texts_are_compared_by_bytes() {
    assert!(str_lt("a", "b") && str_lt("a", "aa") && str_lt("Z", "a") && str_lt("z", "é"));
    assert!(!str_lt("a", "a") && !str_lt("b", "a"));
    assert!(str_eq("é", "é") && !str_eq("e", "é"));
    assert!(str_starts_with("abc", "ab") && !str_starts_with("ab", "abc"));
}

#[test]
fn white_space_is_trimmed() {
    assert_eq!(trim(" \t\u{a0}a b\u{3000}\r\n"), "a b");
    assert_eq!(trim("  "), "");
}

#[test]
fn numbers_are_written_in_decimal() {
    assert_eq!(number_text(0), "0");
    assert_eq!(number_text(1234567890), "1234567890");
    assert_eq!(number_text(u128::MAX), u128::MAX.to_string());
}

#[test]
fn file_names_are_last_parts() {
    assert_eq!(file_name(b"/a/b.txt"), Some(b"b.txt".to_vec()));
    assert_eq!(file_name(b"/a/b/"), Some(b"b".to_vec()));
    assert_eq!(file_name(b"/a/b/."), Some(b"b".to_vec()));
    assert_eq!(file_name(b"/a/.."), None);
    assert_eq!(file_name(b"/"), None);
}

#[test]
fn maps_keep_their_entries_in_order() {
    let mut map: StrMap<u64> = StrMap::new();
    for (key, value) in [("b", 2), ("a", 1), ("c", 3), ("a", 4)] {
        map.insert(key.to_owned(), value);
    }
    assert_eq!(map.len(), 3);
    let keys: Vec<&str> = (0..3).map(|i| map.key_at(i)).collect();
    assert_eq!(keys, vec!["a", "b", "c"]);
    assert_eq!(*map.value_at(0), 4);
    assert_eq!(map.remove("b"), Some(2));
    assert_eq!(map.remove("b"), None);
    assert_eq!(map.get("c"), Some(&3));
    let mut ids: IdMap<u8> = IdMap::new();
    ids.insert(9, 1);
    ids.insert(3, 2);
    assert_eq!(*ids.value_at(0), 1);
    assert_eq!(ids.get(3), Some(&2));
    assert_eq!(ids.remove(9), Some(1));
    assert_eq!(ids.len(), 1);
}
