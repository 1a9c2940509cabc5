use cursor_drop::place::{parts_of, same_place};

#[test]
fn the_parts_of_a_path() {
    assert_eq!(parts_of("/home/u/x y"), vec!["home", "u", "x y"]);
    assert_eq!(parts_of("/.../.hid/..x"), vec!["...", ".hid", "..x"]);
    assert_eq!(parts_of("/a/link/.."), vec!["a", "link", ".."]);
}

#[test]
fn the_root_has_no_parts() {
    for path in ["", "/", "//", "/.", "./", ".", "/./."] {
        assert_eq!(parts_of(path), Vec::<String>::new());
    }
}

#[test]
fn spelling_does_not_matter() {
    for path in ["/a/b", "/a/b/", "//a///b", "/./a/./b/.", "a/b"] {
        assert!(same_place(path, "/a/b"));
        assert!(same_place("/a/b", path));
    }
}

#[test]
fn other_places() {
    for path in ["/a", "/a/b/c", "/a/B", "/ab", "/b/a", "/", "/a/x/../b"] {
        assert!(!same_place(path, "/a/b"));
    }
}
