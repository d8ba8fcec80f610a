use rargate::lru_map::LruMap;
use rargate::path::PathName;
use rargate::path_set::PathSet;
use rargate::text::byte_len_of;
use rargate::text::decimal_of;
use rargate::text::lowered_text;
use rargate::text::parse_decimal;
use rargate::text::parse_number;

fn chars(s: &str) -> Vec<char> {
    s.chars().collect()
}

fn name(s: Option<Vec<char>>) -> Option<String> {
    s.map(|v| v.into_iter().collect())
}

#[test]
fn paths_split_into_components() {
    let p = PathName::new("/data//Film/./a.rar/");
    assert_eq!(p.as_str(), "/data//Film/./a.rar/");
    let std_path = std::path::Path::new("/data//Film/./a.rar/");
    assert_eq!(p.component_count(), std_path.components().count());
    assert_eq!(name(p.file_name()), Some("a.rar".to_string()));
    assert_eq!(name(p.extension()), Some("rar".to_string()));
    assert_eq!(p.key(), "/data/Film/a.rar");
    assert!(p.same(&PathName::new("/data/Film/a.rar")));
    assert!(!p.same(&PathName::new("data/Film/a.rar")));
}

#[test]
fn path_operations_agree_with_std() {
    let paths = [
        "", "/", "//", ".", "..", "a", "a/", "/a", "/a/..", "a/./b", "./a", "/a//b/", "a.b.c", ".hidden",
        "a.", "/x/.hidden", "/x/..", "...", "/a/b/c.tar.gz",
    ];
    for t in paths {
        let p = PathName::new(t);
        let s = std::path::Path::new(t);
        let file = s.file_name().map(|x| x.to_string_lossy().into_owned());
        let extension = s.extension().map(|x| x.to_string_lossy().into_owned());
        assert_eq!(name(p.file_name()), file, "{}", t);
        assert_eq!(name(p.extension()), extension, "{}", t);
        assert_eq!(p.component_count(), s.components().count(), "{}", t);
        assert_eq!(
            p.parent().map(|q| q.to_text()),
            s.parent().map(|q| q.to_string_lossy().into_owned()),
            "{}",
            t
        );
        for u in paths {
            let q = PathName::new(u);
            let v = std::path::Path::new(u);
            assert_eq!(p.starts_with(&q), s.starts_with(v), "{} {}", t, u);
            assert_eq!(p.same(&q), s == v, "{} {}", t, u);
            assert_eq!(p.key() == q.key(), s == v, "{} {}", t, u);
            assert_eq!(
                p.strip_prefix(&q).map(|r| r.to_text()),
                s.strip_prefix(v).ok().map(|r| r.to_string_lossy().into_owned()),
                "{} {}",
                t,
                u
            );
            assert_eq!(p.join(u).to_text(), s.join(v).to_string_lossy().into_owned(), "{} {}", t, u);
        }
    }
}

#[test]
fn joining_and_stripping_cancel() {
    let base = PathName::new("/data/verified/");
    let whole = base.join("Film/a.rar");
    assert_eq!(whole.as_str(), "/data/verified/Film/a.rar");
    assert_eq!(whole.strip_prefix(&base).unwrap().as_str(), "Film/a.rar");
}

#[test]
fn path_sets_keep_the_first_of_equals() {
    let mut set = PathSet::new();
    set.insert(PathName::new("/a/b"));
    set.insert(PathName::new("/c"));
    set.insert(PathName::new("/a//b/"));
    assert_eq!(set.len(), 2);
    assert_eq!(set.get(0).as_str(), "/a/b");
    assert!(set.contains(&PathName::new("/a/./b")));
    assert!(!set.contains(&PathName::new("/a")));
    let all: Vec<&str> = set.items().iter().map(|p| p.as_str()).collect();
    assert_eq!(all, vec!["/a/b", "/c"]);
}

#[test]
fn the_least_recently_used_key_goes() {
    let mut m: LruMap<u64> = LruMap::new(2);
    assert_eq!(m.put("a".to_string(), 1), None);
    assert_eq!(m.put("b".to_string(), 2), None);
    assert_eq!(m.get("a"), Some(&1));
    assert_eq!(m.put("c".to_string(), 3), Some("b".to_string()));
    assert_eq!(m.keys(), vec!["c", "a"]);
    assert_eq!(m.peek("a"), Some(&1));
    assert_eq!(m.keys(), vec!["c", "a"]);
    assert_eq!(m.put("a".to_string(), 9), None);
    assert_eq!(m.peek("a"), Some(&9));
    assert_eq!(m.keys(), vec!["a", "c"]);
    assert!(m.pop("a"));
    assert!(!m.pop("a"));
    assert!(!m.contains("a"));
    assert!(m.contains("c"));
    m.clear();
    assert!(m.keys().is_empty());
    assert_eq!(m.get("c"), None);
}

#[test]
fn replaced_paths_come_back() {
    let mut m: LruMap<PathName> = LruMap::new(1);
    assert!(m.put_path("a".to_string(), PathName::new("/a")).is_none());
    let gone = m.put_path("b".to_string(), PathName::new("/b"));
    assert_eq!(gone.unwrap().as_str(), "/a");
}

#[test]
fn numbers_are_read_and_written() {
    assert_eq!(decimal_of(0), "0");
    assert_eq!(decimal_of(u64::MAX), "18446744073709551615");
    for t in ["0", "7", "+7", "-7", "", "+", "007", "1 ", "18446744073709551615", "18446744073709551616", "x"] {
        assert_eq!(parse_decimal(&chars(t), u64::MAX), t.parse::<u64>().ok(), "{}", t);
    }
    assert_eq!(parse_decimal(&chars("256"), 255), None);
    assert_eq!(parse_number(&chars("755"), 8, 4095), Some(493));
    assert_eq!(parse_number(&chars("758"), 8, 4095), None);
}

#[test]
fn lowering_goes_beyond_ascii() {
    for t in ["ABC", "ÄÖÜ", "ΑΣ", "İ", "straße", ""] {
        assert_eq!(lowered_text(t), t.to_lowercase());
    }
}

#[test]
fn lengths_count_bytes() {
    assert_eq!(byte_len_of("abc"), 3);
    assert_eq!(byte_len_of("Ä"), 2);
}
