use cas::names::{side_of, NameMap, Side};
use cas::path::FsPath;
use cas::text::{decimal, hex};

fn path(s: &str) -> FsPath {
    FsPath::parse(s.as_bytes())
}

fn shown(p: &FsPath) -> String {
    String::from_utf8(p.to_bytes()).expect("utf-8 path")
}

#[test]
fn parsing_canonicalises_as_components_do() {
    let cases = [
        ("/", "/"),
        ("", ""),
        (".", "."),
        ("./a", "./a"),
        ("a/./b", "a/b"),
        ("/a//b/", "/a/b"),
        ("/./a", "/a"),
        ("a/../b", "a/../b"),
        ("//", "/"),
    ];
    for (text, expected) in cases {
        assert_eq!(shown(&path(text)), expected, "{text:?}");
        let std_path: std::path::PathBuf = std::path::Path::new(text).components().collect();
        assert_eq!(std_path.to_str(), Some(expected), "{text:?}");
    }
}

#[test]
fn paths_behave_as_those_of_the_standard_library() {
    let texts = ["/", "", ".", "..", "/a", "a", "/a/b", "a/b", "a/..", "/..", "./a", "/a/../b"];
    for x in texts {
        let p = path(x);
        let sp = std::path::Path::new(x);
        assert_eq!(p.is_absolute(), sp.is_absolute());
        assert_eq!(
            p.parent().map(|q| shown(&q)),
            sp.parent().map(|q| q.to_str().unwrap().to_string()),
            "parent of {x:?}"
        );
        assert_eq!(
            p.file_name(),
            sp.file_name().map(|n| n.to_str().unwrap().as_bytes().to_vec()),
            "file name of {x:?}"
        );
        for y in texts {
            let q = path(y);
            let sq = std::path::Path::new(y);
            assert_eq!(p.starts_with(&q), sp.starts_with(sq), "{x:?} starts with {y:?}");
            assert_eq!(
                p.strip_prefix(&q).map(|r| shown(&r)),
                sp.strip_prefix(sq).ok().map(|r| r.to_str().unwrap().to_string()),
                "{x:?} without {y:?}"
            );
            let joined: std::path::PathBuf = sp.join(sq).components().collect();
            assert_eq!(shown(&p.join(&q)), joined.to_str().unwrap(), "{x:?} and {y:?}");
            assert_eq!(p.same(&q), sp == sq, "{x:?} same as {y:?}");
        }
    }
}

#[test]
fn normal_form_drops_dots() {
    assert_eq!(shown(&path("/a/./b/../c").normalize_abs()), "/a/c");
    assert_eq!(shown(&path("/../a").normalize_abs()), "/a");
}

#[test]
fn children_and_depth() {
    let p = path("/a").child(b"b");
    assert_eq!(shown(&p), "/a/b");
    assert_eq!(p.depth(), 2);
    assert_eq!(FsPath::root().depth(), 0);
    assert_eq!(shown(&p.prefix(1)), "/a");
    assert!(p.leads_from(&path("/a")));
    assert!(!path("/ab").leads_from(&path("/a")));
}

#[test]
fn numbers_as_text() {
    assert_eq!(hex(0xab, 2), b"ab".to_vec());
    assert_eq!(hex(0xab, 4), b"00ab".to_vec());
    assert_eq!(hex(u64::MAX, 16), b"ffffffffffffffff".to_vec());
    assert_eq!(decimal(0), b"0".to_vec());
    assert_eq!(decimal(u64::MAX), b"18446744073709551615".to_vec());
}

#[test]
fn names_are_kept_in_order() {
    let mut m = NameMap::new();
    for (name, v) in [("b", 2), ("a", 1), ("ab", 3), ("", 0), ("b", 4)] {
        m.insert(name.as_bytes().to_vec(), v);
    }
    let names: Vec<Vec<u8>> = (0..m.len()).map(|i| m.name_at(i).clone()).collect();
    assert_eq!(names, vec![b"".to_vec(), b"a".to_vec(), b"ab".to_vec(), b"b".to_vec()]);
    assert_eq!(m.get(b"b"), Some(&4));
    assert_eq!(m.get(b"c"), None);
    assert_eq!(m.take(b"a"), Some(1));
    assert_eq!(m.get(b"a"), None);
    assert_eq!(*m.value_at(0), 0);
    assert_eq!(side_of(b"a", b"ab"), Side::Before);
    assert_eq!(side_of(b"b", b"ab"), Side::After);
    assert_eq!(side_of(b"b", b"b"), Side::Same);
}
