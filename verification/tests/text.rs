//! Texts, numbers and paths, held against what the standard library makes of them.

use std::path::{Path, PathBuf};

use thorium_reactor::names::{NameMap, NameSet};
use thorium_reactor::number::{decimal_text, parse_unsigned, signed_decimal_text};
use thorium_reactor::paths::{
    components, file_name, is_absolute, join, parent, same_path, with_extension,
};
use thorium_reactor::text::{
    chars_of, find_from, has_text, is_white_space, join2, join3, join5, last_chars, lines, same_text,
    split, split_whitespace, starts_with, strip_prefix, strip_suffix, text_between,
    to_ascii_lowercase, to_owned, trim, trim_start_matches,
};

/// All texts over some characters up to a length.
fn all_texts(alphabet: &[char], len: usize) -> Vec<String> {
    let mut out = vec![String::new()];
    let mut last = vec![String::new()];
    for _ in 0..len {
        let mut next = Vec::new();
        for s in &last {
            for c in alphabet {
                let mut t = s.clone();
                t.push(*c);
                next.push(t);
            }
        }
        out.extend(next.iter().cloned());
        last = next;
    }
    out
}

#[test]
fn white_space_is_that_of_unicode() {
    for p in 0..=0x10FFFFu32 {
        if let Some(c) = char::from_u32(p) {
            assert_eq!(is_white_space(c), c.is_whitespace(), "{p:x}");
        }
    }
}

#[test]
fn texts_are_taken_apart_as_by_std() {
    for s in all_texts(&['a', ' ', '\n', '\r', '\t', 'ä'], 5) {
        let t = s.as_str();
        assert_eq!(trim(t), t.trim());
        assert_eq!(split(t, ' '), t.split(' ').collect::<Vec<_>>());
        assert_eq!(split_whitespace(t), t.split_whitespace().collect::<Vec<_>>());
        assert_eq!(lines(t), t.lines().collect::<Vec<_>>());
        assert_eq!(trim_start_matches(t, 'a'), t.trim_start_matches('a'));
        assert_eq!(strip_prefix(t, "a "), t.strip_prefix("a ").map(str::to_string));
        assert_eq!(strip_suffix(t, " a"), t.strip_suffix(" a").map(str::to_string));
        assert_eq!(starts_with(t, "ä"), t.starts_with("ä"));
        assert_eq!(has_text(t, "a\n"), t.contains("a\n"));
        assert_eq!(same_text(t, "a a"), t == "a a");
        assert_eq!(chars_of(t), t.chars().collect::<Vec<_>>());
        assert_eq!(chars_of(t).iter().collect::<String>(), t);
        assert_eq!(to_owned(t), t);
    }
}

#[test]
fn texts_are_put_together() {
    assert_eq!(join2("a", "b"), "ab");
    assert_eq!(join3("a", "", "c"), "ac");
    assert_eq!(join5("a", "b", "c", "d", "e"), "abcde");
    assert_eq!(text_between(&chars_of("häuser"), 1, 3), "äu");
    assert_eq!(find_from(&chars_of("abab"), 1, &chars_of("ab")), Some(2));
    assert_eq!(find_from(&chars_of("abab"), 3, &chars_of("ab")), None);
    assert_eq!(to_ascii_lowercase("ÄÖ Does NOT Exist"), "ÄÖ does not exist");
}

#[test]
fn the_last_characters_of_a_text() {
    assert_eq!(last_chars("hello", 2), "lo");
    assert_eq!(last_chars("hello", 5), "hello");
    assert_eq!(last_chars("hello", 100), "hello");
    assert_eq!(last_chars("hello", 0), "");
    assert_eq!(last_chars("aäö", 2), "äö");
}

#[test]
fn numbers_are_read_as_by_std() {
    for s in all_texts(&['0', '1', '9', 'f', 'F', '+', '-', ' '], 4) {
        let t = s.as_str();
        assert_eq!(parse_unsigned(t, 10, u64::MAX), t.parse::<u64>().ok(), "{t}");
        assert_eq!(
            parse_unsigned(t, 16, u64::MAX),
            u64::from_str_radix(t, 16).ok(),
            "{t}"
        );
        assert_eq!(
            parse_unsigned(t, 10, 255),
            t.parse::<u8>().ok().map(u64::from),
            "{t}"
        );
    }
    assert_eq!(parse_unsigned("18446744073709551615", 10, u64::MAX), Some(u64::MAX));
    assert_eq!(parse_unsigned("18446744073709551616", 10, u64::MAX), None);
    assert_eq!(parse_unsigned("99999999999999999999999", 10, u64::MAX), None);
    assert_eq!(parse_unsigned("ffffffffffffffff", 16, u64::MAX), Some(u64::MAX));
    assert_eq!(parse_unsigned("10000000000000000", 16, u64::MAX), None);
    assert_eq!(parse_unsigned("4294967296", 10, u64::from(u32::MAX)), None);
}

#[test]
fn decimal_numbers_read_back() {
    for n in [0, 1, 9, 10, 99, 100, 4_194_304, u64::MAX] {
        assert_eq!(decimal_text(n), n.to_string());
        assert_eq!(parse_unsigned(&decimal_text(n), 10, u64::MAX), Some(n));
    }
    for n in [0, -1, 1, 42, -42, i64::MAX, i64::MIN] {
        assert_eq!(signed_decimal_text(n), n.to_string());
    }
}

#[test]
fn paths_are_taken_apart_as_by_std() {
    for s in all_texts(&['/', '.', 'a'], 7) {
        let path = Path::new(&s);
        assert_eq!(
            file_name(&s).as_deref(),
            path.file_name().map(|n| n.to_str().unwrap()),
            "{s}"
        );
        assert_eq!(
            parent(&s).as_deref(),
            path.parent().map(|n| n.to_str().unwrap()),
            "{s}"
        );
        assert_eq!(is_absolute(&s), path.is_absolute(), "{s}");
        let mut extended = PathBuf::from(&s);
        extended.set_extension("xml");
        assert_eq!(with_extension(&s, "xml"), extended.to_str().unwrap(), "{s}");
        let normal: Vec<_> = path
            .components()
            .map(|c| c.as_os_str().to_str().unwrap())
            .filter(|c| *c != "/")
            .collect();
        assert_eq!(components(&s), normal, "{s}");
    }
}

#[test]
fn paths_are_put_together_as_by_std() {
    let some = all_texts(&['/', '.', 'a'], 4);
    for a in &some {
        for b in &some {
            assert_eq!(join(a, b), Path::new(a).join(b).to_str().unwrap(), "{a} {b}");
            assert_eq!(same_path(a, b), Path::new(a) == Path::new(b), "{a} {b}");
        }
    }
    assert_eq!(join("/golden", "group"), "/golden/group");
    assert_eq!(with_extension("/g/i/i.v2", "qcow2"), "/g/i/i.qcow2");
}

#[test]
fn maps_of_names_hold_the_last_value() {
    let mut map: NameMap<u32> = NameMap::new();
    assert_eq!(map.len(), 0);
    map.insert("a".to_string(), 1);
    map.insert("b".to_string(), 2);
    map.insert("a".to_string(), 3);
    assert_eq!(map.len(), 2);
    assert_eq!(map.get("a"), Some(&3));
    assert_eq!(map.get("c"), None);
    assert!(map.contains_key("b"));
    assert_eq!(map.remove("b"), Some(2));
    assert_eq!(map.remove("b"), None);
    assert_eq!(map.keys(), vec!["a"]);
    map.insert("d".to_string(), 4);
    let mut gone = NameSet::new();
    gone.insert("a");
    gone.insert("x");
    map.remove_names(&gone);
    assert_eq!(map.keys(), vec!["d"]);
}

#[test]
fn sets_of_names_hold_a_name_once() {
    let mut set = NameSet::new();
    assert!(set.is_empty());
    set.insert("a");
    set.insert("a");
    set.insert("b");
    assert_eq!(set.len(), 2);
    assert!(set.contains("a"));
    set.remove("a");
    assert!(!set.contains("a"));
    assert_eq!(set.names(), vec!["b"]);
    assert!(!set.is_empty());
}
