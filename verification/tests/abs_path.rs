use paths::normalize::normalize_path;
use paths::{AbsPath, AbsPathBuf, ComponentKind, RelPath, RelPathBuf};

fn abs(s: &str) -> AbsPathBuf {
    AbsPathBuf::try_from(s.to_string()).unwrap()
}

#[test]
fn try_from_accepts_absolute_paths_only() {
    assert_eq!(abs("/foo.txt").as_str(), "/foo.txt");
    assert_eq!(AbsPathBuf::try_from("foo.txt".to_string()).unwrap_err(), "foo.txt");
    assert_eq!(AbsPathBuf::try_from(String::new()).unwrap_err(), "");
    assert!(AbsPath::try_from("/").is_ok());
    assert_eq!(AbsPath::try_from("tmp/foo.txt").unwrap_err(), "tmp/foo.txt");
}

#[test]
fn exactly_one_of_absolute_and_relative_accepts_a_path() {
    for s in ["/a", "a", "", "./a", "../a", "//a", "/"] {
        let a = AbsPathBuf::try_from(s.to_string()).is_ok();
        let r = RelPathBuf::try_from(s.to_string()).is_ok();
        assert!(a != r, "{s}");
    }
}

#[test]
fn into_string_round_trip() {
    let p = abs("/foo.txt");
    let s = p.into_string();
    assert_eq!(s, "/foo.txt");
    let back = AbsPathBuf::assert2(s);
    assert_eq!(back.as_str(), "/foo.txt");
    assert_eq!(AbsPathBuf::assert_absolute("/x").as_str(), "/x");
    assert_eq!(AbsPathBuf::new_unchecked("/y".to_string()).as_str(), "/y");
}

#[test]
fn file_name_examples() {
    assert_eq!(AbsPath::try_from("/usr/bin/").unwrap().file_name(), Some("bin"));
    assert_eq!(AbsPath::try_from("/tmp/foo.txt").unwrap().file_name(), Some("foo.txt"));
    assert_eq!(AbsPath::try_from("/foo.txt/.").unwrap().file_name(), Some("foo.txt"));
    assert_eq!(AbsPath::try_from("/foo.txt/.//").unwrap().file_name(), Some("foo.txt"));
    assert_eq!(AbsPath::try_from("/foo.txt/..").unwrap().file_name(), None);
    assert_eq!(AbsPath::try_from("/").unwrap().file_name(), None);
}

#[test]
fn normalize_example() {
    let p = abs("/a/../../b/.//c//");
    assert_eq!(p.as_path().normalize().as_str(), "/b/c");
}

#[test]
fn normalize_removes_separators_dots_and_parents() {
    assert_eq!(abs("/a//b").as_path().normalize().as_str(), "/a/b");
    assert_eq!(abs("/a/./b/.").as_path().normalize().as_str(), "/a/b");
    assert_eq!(abs("/a/b/").as_path().normalize().as_str(), "/a/b");
    assert_eq!(abs("/a/b/../c").as_path().normalize().as_str(), "/a/c");
    assert_eq!(abs("/..").as_path().normalize().as_str(), "/");
    assert_eq!(abs("/").as_path().normalize().as_str(), "/");
    assert_eq!(abs("//").as_path().normalize().as_str(), "/");
}

#[test]
fn normalize_is_idempotent_on_examples() {
    for s in ["/a/../../b/.//c//", "/x/./y/../z/", "/", "/a"] {
        let once = abs(s).as_path().normalize();
        let twice = once.as_path().normalize();
        assert_eq!(once.as_str(), twice.as_str());
        assert!(once == twice);
    }
}

#[test]
fn buf_join_adjoins_and_normalizes() {
    assert_eq!(abs("/etc").join("passwd").as_str(), "/etc/passwd");
    assert_eq!(abs("/a/b").join("../c").as_str(), "/a/c");
    assert_eq!(abs("/a").join("/b/./c").as_str(), "/b/c");
    assert_eq!(abs("/a").join("").as_str(), "/a");
    let p = abs("/x/y");
    assert!(p.join("z/") == p.as_path().join("z/"));
}

#[test]
fn path_join_adjoins_like_camino() {
    let p = AbsPath::try_from("/a").unwrap();
    assert_eq!(p.join("../b").as_str(), "/a/../b");
    assert_eq!(p.join("b/./c").as_str(), "/a/b/./c");
    assert_eq!(p.join("/etc").as_str(), "/etc");
    assert_eq!(AbsPath::try_from("/etc").unwrap().join("passwd").as_str(), "/etc/passwd");
}

#[test]
fn parent_dir_goes_up_one_level_after_normalizing() {
    for s in ["/a/b", "/a/./b/", "/", "/x"] {
        let p = AbsPath::try_from(s).unwrap();
        let n = p.normalize();
        let up = p.join("..").as_path().normalize();
        match n.as_path().parent() {
            Some(q) => assert!(up == q.to_path_buf()),
            None => assert!(up == n),
        }
        let back = p.join("x/..").as_path().normalize();
        assert!(back == n);
    }
}

#[test]
fn strip_prefix_round_trip() {
    let p = AbsPath::try_from("/test/haha/foo.txt").unwrap();
    for base in ["/", "/test", "/test/", "/test/haha/foo.txt"] {
        let base = AbsPath::try_from(base).unwrap();
        let rest = p.strip_prefix(&base).unwrap();
        assert!(base.join(rest.as_str()) == p.to_path_buf());
    }
}

#[test]
fn push_extends_or_replaces() {
    let mut p = abs("/tmp");
    p.push("file.bk");
    assert_eq!(p.as_str(), "/tmp/file.bk");
    p.push("/etc");
    assert_eq!(p.as_str(), "/etc");
    p.push("a/../b");
    assert_eq!(p.as_str(), "/etc/a/../b");
}

#[test]
fn pop_truncates_to_parent_and_keeps_root() {
    let mut p = abs("/spirited/away.rs");
    assert!(p.pop());
    assert_eq!(p.as_str(), "/spirited");
    assert!(p.pop());
    assert_eq!(p.as_str(), "/");
    assert!(!p.pop());
    assert_eq!(p.as_str(), "/");
}

#[test]
fn parent_examples() {
    let p = AbsPath::try_from("/foo/bar").unwrap();
    let parent = p.parent().unwrap();
    assert_eq!(parent.as_str(), "/foo");
    let grand = parent.parent().unwrap();
    assert_eq!(grand.as_str(), "/");
    assert!(grand.parent().is_none());
}

#[test]
fn extensions() {
    let mut p = abs("/feel/the");
    assert!(p.set_extension("force"));
    assert_eq!(p.as_str(), "/feel/the.force");
    assert!(p.set_extension("dark_side"));
    assert_eq!(p.as_str(), "/feel/the.dark_side");
    let mut root = abs("/");
    assert!(!root.set_extension("rs"));
    assert_eq!(root.as_str(), "/");

    assert_eq!(abs("/foo.rs").with_extension("txt").as_str(), "/foo.txt");
    assert_eq!(abs("/foo.tar.gz").with_extension("").as_str(), "/foo.tar");
    assert_eq!(abs("/foo.tar.gz").as_path().with_extension("xz").as_str(), "/foo.tar.xz");
    assert_eq!(abs("/").with_extension("rs").as_str(), "/");
}

#[test]
fn stem_and_extension() {
    let p = AbsPath::try_from("/x/foo.tar.gz").unwrap();
    assert_eq!(p.extension(), Some("gz"));
    assert_eq!(p.file_stem(), Some("foo.tar"));
    assert_eq!(p.name_and_extension(), Some(("foo.tar", Some("gz"))));

    let dot = AbsPath::try_from("/home/.bashrc").unwrap();
    assert_eq!(dot.extension(), None);
    assert_eq!(dot.file_stem(), Some(".bashrc"));
    assert_eq!(dot.name_and_extension(), Some((".bashrc", None)));

    let plain = AbsPath::try_from("/bin/cargo").unwrap();
    assert_eq!(plain.extension(), None);
    assert_eq!(plain.file_stem(), Some("cargo"));

    let trailing = AbsPath::try_from("/a/b.").unwrap();
    assert_eq!(trailing.extension(), Some(""));
    assert_eq!(trailing.file_stem(), Some("b"));

    let root = AbsPath::try_from("/").unwrap();
    assert_eq!(root.extension(), None);
    assert_eq!(root.file_stem(), None);
    assert_eq!(root.name_and_extension(), None);
}

#[test]
fn stem_dot_extension_is_the_file_name() {
    for s in ["/a/b.c", "/a/b.c.d", "/x.", "/.hidden", "/plain", "/.a.b"] {
        let p = AbsPath::try_from(s).unwrap();
        let name = p.file_name().unwrap();
        let stem = p.file_stem().unwrap();
        match p.extension() {
            Some(ext) => {
                assert_eq!(format!("{stem}.{ext}"), name);
                assert!(!ext.contains('.'));
            }
            None => assert_eq!(stem, name),
        }
    }
}

#[test]
fn strip_prefix_and_starts_with() {
    let p = AbsPath::try_from("/test/haha/foo.txt").unwrap();
    let cases = [
        ("/", Some("test/haha/foo.txt")),
        ("/test", Some("haha/foo.txt")),
        ("/test/", Some("haha/foo.txt")),
        ("/test/haha/foo.txt", Some("")),
        ("/test/haha/foo.txt/", Some("")),
        ("/haha", None),
        ("/te", None),
    ];
    for (base, expected) in cases {
        let base = AbsPath::try_from(base).unwrap();
        let rest = p.strip_prefix(&base);
        assert_eq!(rest.map(|r| r.as_str()), expected);
        assert_eq!(p.starts_with(&base), expected.is_some());
    }
}

#[test]
fn ends_with_whole_components() {
    let p = AbsPath::try_from("/etc/resolv.conf").unwrap();
    assert!(p.ends_with(&RelPath::new_unchecked("resolv.conf")));
    assert!(p.ends_with(&RelPath::new_unchecked("etc/resolv.conf")));
    assert!(!p.ends_with(&RelPath::new_unchecked("conf")));
}

#[test]
fn components_of_a_path() {
    let p = AbsPath::try_from("/tmp//foo.txt/").unwrap();
    let comps = p.components();
    let got: Vec<(ComponentKind, &str)> = comps.iter().map(|c| (c.kind, c.text.as_str())).collect();
    assert_eq!(
        got,
        vec![
            (ComponentKind::RootDir, "/"),
            (ComponentKind::Normal, "tmp"),
            (ComponentKind::Normal, "foo.txt"),
        ]
    );
    let q = AbsPath::try_from("/a/./../b").unwrap();
    let kinds: Vec<ComponentKind> = q.components().iter().map(|c| c.kind).collect();
    assert_eq!(
        kinds,
        vec![ComponentKind::RootDir, ComponentKind::Normal, ComponentKind::ParentDir, ComponentKind::Normal]
    );
}

#[test]
fn to_path_buf_copies() {
    let p = AbsPath::try_from("/a/b").unwrap();
    assert_eq!(p.to_path_buf().as_str(), "/a/b");
    assert_eq!(AbsPath::new_unchecked("/c").as_str(), "/c");
    assert_eq!(AbsPath::assert_absolute("/d").as_str(), "/d");
}

#[test]
fn pop_goes_to_the_parent() {
    for s in ["/a/b/c", "/a/b/", "/a", "/"] {
        let parent = AbsPath::try_from(s).unwrap().parent().map(|p| p.as_str().to_string());
        let mut buf = abs(s);
        let popped = buf.pop();
        assert_eq!(popped, parent.is_some());
        assert_eq!(buf.as_str(), parent.as_deref().unwrap_or(s));
    }
}

#[test]
fn set_extension_agrees_with_with_extension() {
    for s in ["/a/b.rs", "/a/b", "/", "/a/.hidden"] {
        let expected = abs(s).with_extension("txt");
        let mut buf = abs(s);
        buf.set_extension("txt");
        assert_eq!(buf.as_str(), expected.as_str());
    }
}

#[test]
fn equality_compares_components() {
    assert!(abs("/a/b/") == abs("/a/b"));
    assert!(abs("/a//b") == abs("/a/b"));
    assert!(abs("/a/b") != abs("/a/c"));
    assert!(abs("/a/./b") == abs("/a/b"));
    assert!(abs("/a/../b") != abs("/b"));
    let p = abs("/x/y");
    assert!(p.clone() == p);
    assert_eq!(p.clone().as_str(), "/x/y");
    assert!(AbsPath::try_from("/q/").unwrap() == AbsPath::try_from("/q").unwrap());
}

#[test]
fn strip_prefix_gives_relative_paths() {
    let p = AbsPath::try_from("/usr/lib/x").unwrap();
    for base in ["/", "/usr", "/usr/lib/", "/usr/lib/x"] {
        let base = AbsPath::try_from(base).unwrap();
        let rest = p.strip_prefix(&base).unwrap();
        assert!(!rest.as_str().starts_with('/'));
        assert_eq!(rest.to_path_buf().as_str(), rest.as_str());
    }
}

#[test]
fn paths_with_the_same_components_normalize_alike() {
    let forms = ["/a/b", "/a//b", "/a/./b", "/a/b/", "/a/b/."];
    let first = abs(forms[0]).as_path().normalize();
    for f in forms {
        assert_eq!(abs(f).as_path().normalize().as_str(), first.as_str());
    }
}

#[test]
fn normalize_path_keeps_relative_paths_relative() {
    assert_eq!(normalize_path("a/../.."), "");
    assert_eq!(normalize_path("./a//b/"), "a/b");
    assert_eq!(normalize_path("a/b/../c"), "a/c");
    assert_eq!(normalize_path(""), "");
    assert_eq!(normalize_path("/x/.."), "/");
}

#[test]
fn push_text_follows_the_separator_rule() {
    let mut p = abs("/a/");
    p.push("b");
    assert_eq!(p.as_str(), "/a/b");
    p.push("");
    assert_eq!(p.as_str(), "/a/b/");
    let mut root = abs("/");
    root.push("x");
    assert_eq!(root.as_str(), "/x");
}

#[test]
fn normal_text_has_no_repeated_or_trailing_separators() {
    for s in ["//a///b//", "/a/./b/./", "/x/../y/", "/"] {
        let n = abs(s).as_path().normalize();
        let t = n.as_str();
        assert!(!t.contains("//"), "{t}");
        assert!(t == "/" || !t.ends_with('/'), "{t}");
        assert!(!t.ends_with("/."), "{t}");
    }
}

#[test]
fn starts_and_ends_with_whole_components() {
    let p = AbsPath::try_from("/etc/passwd").unwrap();
    assert!(p.starts_with(&AbsPath::try_from("/etc/").unwrap()));
    assert!(!p.starts_with(&AbsPath::try_from("/e").unwrap()));
    assert!(p.ends_with(&RelPath::new_unchecked("passwd/")));
    assert!(!p.ends_with(&RelPath::new_unchecked("wd")));
    let rest = p.strip_prefix(&AbsPath::try_from("/").unwrap()).unwrap();
    assert_eq!(rest.as_str(), "etc/passwd");
}

fn hash_of<T: std::hash::Hash>(t: &T) -> u64 {
    let mut h = std::collections::hash_map::DefaultHasher::new();
    t.hash(&mut h);
    std::hash::Hasher::finish(&h)
}

#[test]
fn equal_paths_hash_alike() {
    assert!(abs("/a/b/") == abs("/a//b"));
    assert_eq!(hash_of(&abs("/a/b/")), hash_of(&abs("/a//b")));
    assert_eq!(
        hash_of(&AbsPath::try_from("/x/./y").unwrap()),
        hash_of(&AbsPath::try_from("/x/y").unwrap())
    );
    let r1 = RelPathBuf::try_from("a/b/".to_string()).unwrap();
    let r2 = RelPathBuf::try_from("a//b".to_string()).unwrap();
    assert_eq!(hash_of(&r1), hash_of(&r2));
}
