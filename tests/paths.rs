use apidoc::paths::{join_components, path_components, relative_components, relative_path};

#[test]
fn test_relative_path() {
    assert_eq!("b.foo", relative_path("a", "a/b.foo"));
    assert_eq!("b.foo", relative_path("/a", "/a/b.foo"));

    assert_eq!("b/c/d.foo", relative_path("/a", "/a/b/c/d.foo"));
    assert_eq!("c/d.foo", relative_path("/a/b", "/a/b/c/d.foo"));
    assert_eq!("d.foo", relative_path("/a/b/c", "/a/b/c/d.foo"));
    assert_eq!("", relative_path("/a/b/c/d.foo", "/a/b/c/d.foo"));

    assert_eq!("../c/d.foo", relative_path("/a/b/x", "/a/b/c/d.foo"));
    assert_eq!("../../c/d.foo", relative_path("/a/b/x/y", "/a/b/c/d.foo"));
    assert_eq!("../../c/d/e/f.foo", relative_path("/a/b/x/y", "/a/b/c/d/e/f.foo"));
    assert_eq!("../../../../f.foo", relative_path("/a/b/c/d/e", "/a/f.foo"));
}

#[test]
fn relative_path_to_itself_is_empty() {
    for p in ["", "/", "a", "/a/b/c", "out/index.html", "a//b/"] {
        assert_eq!("", relative_path(p, p));
    }
}

#[test]
fn relative_path_from_deeper_file() {
    assert_eq!("..", relative_path("/a/b/c/d.foo", "/a/b/c"));
    assert_eq!("../..", relative_path("/a/b/c", "/a"));
}

#[test]
fn path_components_split_on_slashes() {
    assert_eq!(vec!["/", "a", "b"], path_components("/a//b/"));
    assert_eq!(vec!["x", "y.html"], path_components("x/y.html"));
    assert!(path_components("").is_empty());
}

#[test]
fn relative_components_and_join() {
    let a = vec!["/".to_string(), "a".to_string(), "x".to_string()];
    let b = vec!["/".to_string(), "a".to_string(), "c".to_string(), "d".to_string()];
    let r = relative_components(&a, &b);
    assert_eq!(vec!["..", "c", "d"], r);
    assert_eq!("../c/d", join_components(&r));
    assert_eq!("/a/x", join_components(&a));
}
