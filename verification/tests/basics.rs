//! Texts, numbers and paths, held against the standard library on many inputs.
use std::path::Path;

use zeptoclaw::cut::{byte_length, truncate_utf8};
use zeptoclaw::metadata::Metadata;
use zeptoclaw::number::{decimal_text, parse_u64, parse_usize};
use zeptoclaw::paths::{
    cwd_contains_traversal, join_path, path_extension, path_file_name, path_is_absolute,
    relative_to,
};
use zeptoclaw::split::{join_text, lines_of, split_text};
use zeptoclaw::text::{
    char_is_space, contains_text, same_ignoring_case, same_text, split_word, starts_with_text,
    to_lower, trim_start_text, trim_text,
};
use zeptoclaw::textmap::TextMap;

const TEXTS: [&str; 18] = [
    "",
    " ",
    "a",
    " a ",
    "\t a b \r\n",
    "a\nb",
    "a\r\nb\r\n",
    "\n",
    "\r\n\r\n",
    "a\r",
    "\u{a0}x\u{2003}",
    "\u{85}\u{3000}",
    "Grüße, Ωmega",
    "<Tool_Call>",
    "one two  three",
    "€€",
    "a,b,,c",
    "\u{200b}zero width\u{200b}",
];

#[test]
fn white_space_is_trimmed() {
    for s in TEXTS {
        assert_eq!(trim_text(s), s.trim(), "{s:?}");
        assert_eq!(trim_start_text(s), s.trim_start(), "{s:?}");
        assert_eq!(to_lower(s), s.to_ascii_lowercase(), "{s:?}");
        assert_eq!(byte_length(s), s.len(), "{s:?}");
    }
}

#[test]
fn every_kind_of_white_space_is_known() {
    for u in 0..=0x10ffffu32 {
        if let Some(c) = char::from_u32(u) {
            assert_eq!(char_is_space(c), c.is_whitespace(), "{u:x}");
        }
    }
}

#[test]
fn texts_are_cut_into_pieces() {
    for s in TEXTS {
        assert_eq!(lines_of(s), s.lines().collect::<Vec<_>>(), "{s:?}");
        assert_eq!(split_text(s, ','), s.split(',').collect::<Vec<_>>(), "{s:?}");
        let word = s.split_whitespace().next();
        assert_eq!(split_word(s).as_ref().map(|w| w.0.as_str()), word, "{s:?}");
        let parts: Vec<String> = s.split(',').map(|p| p.to_string()).collect();
        assert_eq!(join_text(&parts, ", "), parts.join(", "), "{s:?}");
    }
}

#[test]
fn texts_are_searched() {
    for s in TEXTS {
        for p in ["", "a", "b\r", "\r\n", "€", "o t"] {
            assert_eq!(contains_text(s, p), s.contains(p), "{s:?} {p:?}");
            assert_eq!(starts_with_text(s, p), s.starts_with(p), "{s:?} {p:?}");
            assert_eq!(same_text(s, p), s == p, "{s:?} {p:?}");
            assert_eq!(same_ignoring_case(s, p), s.eq_ignore_ascii_case(p), "{s:?} {p:?}");
        }
        assert!(same_ignoring_case(s, &s.to_ascii_uppercase()));
    }
}

#[test]
fn texts_are_cut_between_characters() {
    for s in TEXTS {
        for max in 0..s.len() + 2 {
            let mut end = max.min(s.len());
            while !s.is_char_boundary(end) {
                end -= 1;
            }
            assert_eq!(truncate_utf8(s, max), &s[..end], "{s:?} {max}");
        }
    }
}

#[test]
fn numbers_are_read_and_written() {
    for n in [0, 7, 10, 99, 100, 12_345, u64::MAX - 1, u64::MAX] {
        assert_eq!(decimal_text(n), n.to_string());
        assert_eq!(parse_u64(&n.to_string()), Some(n));
    }
    for s in [
        "", "+", "-", "+1", "-1", "01", "1 ", " 1", "1a", "18446744073709551616", "٣", "++1",
    ] {
        assert_eq!(parse_u64(s), s.parse::<u64>().ok(), "{s:?}");
        assert_eq!(parse_usize(s), s.parse::<usize>().ok(), "{s:?}");
    }
}

const PATHS: [&str; 16] = [
    "", "/", "a", "/a", "a/b", "/a/b/", "a//b", "./a", "a/.", "a/..", "..", "/../x", ".hidden",
    "x/.hidden.txt", "archive.tar.gz", "dir.d/file",
];

#[test]
fn paths_are_taken_apart() {
    for p in PATHS {
        let path = Path::new(p);
        assert_eq!(path_is_absolute(p), path.is_absolute(), "{p:?}");
        assert_eq!(
            path_file_name(p).as_deref(),
            path.file_name().and_then(|n| n.to_str()),
            "{p:?}"
        );
        assert_eq!(
            path_extension(p).as_deref(),
            path.extension().and_then(|n| n.to_str()),
            "{p:?}"
        );
        let climbs = path
            .components()
            .any(|c| matches!(c, std::path::Component::ParentDir));
        assert_eq!(cwd_contains_traversal(p), climbs, "{p:?}");
        for base in ["", "/", "/ws", "ws/"] {
            let joined = Path::new(base).join(p);
            assert_eq!(join_path(base, p), joined.to_str().unwrap(), "{base:?} {p:?}");
        }
    }
}

#[test]
fn paths_are_told_from_a_directory() {
    for p in ["/ws", "/ws/a", "/ws/a/b.txt", "/wsx/a", "/", "/other"] {
        for base in ["/", "/ws"] {
            let expected = Path::new(p)
                .strip_prefix(base)
                .ok()
                .and_then(|r| r.to_str())
                .map(|r| r.to_string());
            assert_eq!(relative_to(base, p), expected, "{base:?} {p:?}");
        }
    }
}

#[test]
fn maps_hold_one_value_for_each_key() {
    let mut map: TextMap<u32> = TextMap::new();
    map.insert("a", 1);
    map.insert("b", 2);
    map.insert("a", 3);
    assert_eq!(map.len(), 2);
    assert_eq!(map.get("a"), Some(&3));
    assert_eq!(map.key_at(0), "a");
    assert_eq!(*map.value_at(1), 2);
    assert_eq!(map.remove("a"), Some(3));
    assert_eq!(map.remove("a"), None);
    assert!(!map.contains_key("a"));
    map.clear();
    assert_eq!(map.len(), 0);
    let mut metadata = Metadata::new();
    metadata.insert("k", "v");
    let copy = metadata.clone();
    metadata.insert("k", "w");
    assert!(copy.has("k", "v"));
    assert!(metadata.has("k", "w"));
}
