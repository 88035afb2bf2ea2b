use harbr_router::name_map::NameMap;
use harbr_router::plugin::loader::{is_plugin_path, path_extension};
use harbr_router::text::{
    ends_with, le, number, split_char, starts_with, trim, trim_end_char, trim_start_char,
};
use harbr_router::time::{Duration, Instant};

#[test]
fn texts_are_split_and_trimmed() {
    assert_eq!(split_char("a/b//c", '/'), vec!["a", "b", "", "c"]);
    assert_eq!(split_char("", '/'), vec![""]);
    assert_eq!(trim_start_char("//a/", '/'), "a/");
    assert_eq!(trim_end_char("/a//", '/'), "/a");
    assert_eq!(trim(" \t x y \n"), "x y");
    assert!(starts_with("hello", "he"));
    assert!(ends_with("hello", "lo"));
    assert!(!ends_with("lo", "hello"));
    assert_eq!(number(0), "0");
    assert_eq!(number(u64::MAX), u64::MAX.to_string());
}

#[test]
fn the_alphabet_is_that_of_strings() {
    let words = ["", "a", "ab", "b", "B", "é", "z", "日本"];
    for a in words {
        for b in words {
            assert_eq!(le(a, b), a <= b);
        }
    }
}

#[test]
fn names_keep_their_place() {
    let mut map: NameMap<u32> = NameMap::new();
    assert_eq!(map.insert("b".to_string(), 1), None);
    assert_eq!(map.insert("a".to_string(), 2), None);
    assert_eq!(map.insert("b".to_string(), 3), Some(1));
    assert_eq!(map.len(), 2);
    assert_eq!(map.position("b"), Some(0));
    *map.get_mut("a").unwrap() += 5;
    assert_eq!(map.get("a"), Some(&7));
    assert_eq!(map.remove("b"), Some(3));
    assert!(!map.contains_key("b"));
    assert_eq!(map.remove("b"), None);
}

#[test]
fn extensions_are_those_of_paths() {
    let paths = [
        "lib.so", "a/b.c/lib", "a/.so", ".so", "a.so/", "a.so/.", "a/..", "..", "", "/", "x.tar.gz",
        "a./b", "name.", "./plugins/p.dylib", "a//b.dll//", "./.", "...", "a/...", ".a.b",
    ];
    for p in paths {
        let wanted = std::path::Path::new(p).extension().and_then(|e| e.to_str());
        assert_eq!(path_extension(p).as_deref(), wanted, "{}", p);
    }
    assert!(is_plugin_path("p/x.so"));
    assert!(is_plugin_path("x.dylib"));
    assert!(is_plugin_path("x.dll"));
    assert!(!is_plugin_path("x.sox"));
    assert!(!is_plugin_path("so"));
}

#[test]
fn spans_are_measured() {
    assert_eq!(Duration::from_millis(1500), Duration { secs: 1, nanos: 500_000_000 });
    assert_eq!(Duration::from_secs(2).as_millis(), 2000);
    let start = Instant { nanos: 100 };
    assert_eq!(start.elapsed(Instant { nanos: 350 }).as_nanos(), 250);
    assert_eq!(start.elapsed(Instant { nanos: 50 }).as_nanos(), 0);
    assert!(Duration::from_secs(2).exceeds(&Duration::from_millis(1999)));
}
