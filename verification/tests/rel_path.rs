use paths::{RelPath, RelPathBuf};

#[test]
fn try_from_accepts_relative_paths_only() {
    assert_eq!(RelPathBuf::try_from("a/b".to_string()).unwrap().as_str(), "a/b");
    assert_eq!(RelPathBuf::try_from("".to_string()).unwrap().as_str(), "");
    assert_eq!(RelPathBuf::try_from("/a".to_string()).unwrap_err(), "/a");
}

#[test]
fn constructors_and_views() {
    let p = RelPathBuf::assert_relative("x/y".to_string());
    assert_eq!(p.as_path().as_str(), "x/y");
    let q = RelPathBuf::assert_str("../z");
    assert_eq!(q.as_str(), "../z");
    let r = RelPath::new_unchecked_from_str("w");
    assert_eq!(r.to_path_buf().as_str(), "w");
    assert_eq!(RelPath::new_unchecked("v/u").as_str(), "v/u");
}

#[test]
fn relative_equality_compares_components() {
    let a = RelPathBuf::try_from("a/b/".to_string()).unwrap();
    let b = RelPathBuf::try_from("a/b".to_string()).unwrap();
    assert!(a == b);
    assert!(a.clone() == a);
    assert!(RelPath::new_unchecked("x") != RelPath::new_unchecked("y"));
}
