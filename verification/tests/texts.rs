use noda::paths::{extension, file_name, join, leads_to_root, trim_leading_slashes};
use noda::text::{
    ascii_lowercase, blank, comes_before, contains, hex_of, is_among, same, starts_with,
    trim, white_space,
};
use noda::text_map::TextMap;
use std::path::{Path, PathBuf};

const SAMPLES: [&str; 12] = [
    "", " ", "a", "ab", "b", "aa", "\u{e9}", "\u{1f600}", "\u{ffff}", " a b ", "\t\u{2003}x\n",
    "\u{85}\u{a0}",
];

#[test]
fn white_space_is_as_the_standard_library_has_it() {
    for n in 0..0x11_0000u32 {
        if let Some(c) = char::from_u32(n) {
            assert_eq!(white_space(c), c.is_whitespace(), "{n:x}");
        }
    }
}

#[test]
fn texts_are_handled_as_the_standard_library_does() {
    for a in SAMPLES {
        assert_eq!(trim(a), a.trim());
        assert_eq!(blank(a), a.trim().is_empty());
        assert_eq!(ascii_lowercase(a), a.to_ascii_lowercase());
        for b in SAMPLES {
            assert_eq!(same(a, b), a == b);
            assert_eq!(comes_before(a, b), a < b, "{a:?} {b:?}");
            assert_eq!(contains(a, b), a.contains(b), "{a:?} {b:?}");
            assert_eq!(starts_with(a, b), a.starts_with(b));
            assert_eq!(noda::text::concat(a, b), format!("{a}{b}"));
        }
    }
    assert_eq!(ascii_lowercase("DEADbeef\u{c9}"), "deadbeef\u{c9}");
    assert!(contains("release not found: x", "not found"));
    assert!(!contains("not foun", "not found"));
}

#[test]
fn bytes_are_written_in_hexadecimal() {
    assert_eq!(hex_of(&vec![0x00, 0x0f, 0xa0, 0xff]), "000fa0ff");
    assert_eq!(hex_of(&Vec::new()), "");
}

#[test]
fn membership() {
    let texts = vec!["a".to_string(), "b".to_string()];
    assert!(is_among(&texts, "b"));
    assert!(!is_among(&texts, "c"));
    assert!(!is_among(&Vec::new(), ""));
}

const PATHS: [&str; 24] = [
    "", "/", "//", "/.", "/./", "/..", ".", "..", "./", "a", "a/", "a/.", "a/..", "a/b", "/a//b/",
    "a.b", ".b", "a.", "..b", "a.b.c", "/tmp/rootfs.ext4.zst", "x/.hidden", "x/y.tar.gz/", "...",
];

#[test]
fn paths_are_handled_as_the_standard_library_does() {
    for a in PATHS {
        let path = Path::new(a);
        assert_eq!(
            file_name(a),
            path.file_name().map(|n| n.to_str().unwrap().to_string()),
            "{a:?}"
        );
        assert_eq!(
            extension(a),
            path.extension().map(|n| n.to_str().unwrap().to_string()),
            "{a:?}"
        );
        assert_eq!(leads_to_root(a), path == Path::new("/"), "{a:?}");
        assert_eq!(trim_leading_slashes(a), a.trim_start_matches('/'));
        for b in PATHS {
            assert_eq!(join(a, b), PathBuf::from(a).join(b).to_str().unwrap(), "{a:?} {b:?}");
        }
    }
}

#[test]
fn maps_keep_their_keys_in_order() {
    let mut map = TextMap::new();
    map.insert("b".to_string(), "1".to_string());
    map.insert("a".to_string(), "2".to_string());
    map.insert("b".to_string(), "3".to_string());
    assert_eq!(map.len(), 2);
    assert_eq!(map.key_at(0), "a");
    assert_eq!(map.value_at(1), "3");
    assert_eq!(map.get("b").unwrap(), "3");
    assert!(map.get("c").is_none());
    let copy = map.clone();
    assert_eq!(copy.value_at(0), "2");
}
