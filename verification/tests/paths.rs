use std::path::Path;

use agt::paths::{begins_at_root, begins_with, is_same_path, name_of_parent, parts_of, tidy_path};

const PATHS: [&str; 26] = [
    "", "/", "//", ".", "./", "./.", "..", "/.", "/..", "a", "a/", "a/.", "./a", "a/b", "a//b",
    "a/./b", "a/../b", "/a", "/a/", "/a/b", "/a//b/", "/a/b/.", "/a/b/..", "/./a/b", "a/b/c",
    "s//d",
];

#[test]
fn paths_compare_part_by_part() {
    for a in PATHS {
        for b in PATHS {
            let (p, q) = (Path::new(a), Path::new(b));
            assert_eq!(is_same_path(a, b), p == q, "{a:?} and {b:?}");
            assert_eq!(begins_with(a, b), p.starts_with(q), "{a:?} and {b:?}");
            assert_eq!(tidy_path(a) == tidy_path(b), p == q, "{a:?} and {b:?}");
        }
    }
}

#[test]
fn a_path_lies_in_a_directory() {
    for a in PATHS {
        let name = Path::new(a).parent().and_then(|p| p.file_name()).and_then(|n| n.to_str());
        assert_eq!(name_of_parent(a).as_deref(), name, "{a:?}");
        assert_eq!(begins_at_root(a), Path::new(a).has_root(), "{a:?}");
    }
    assert_eq!(name_of_parent("s//d").as_deref(), Some("s"));
    assert_eq!(parts_of("/a/./b//c"), ["a", "b", "c"]);
    assert_eq!(tidy_path("/a/./b//c/"), "/a/b/c");
    assert_eq!(tidy_path("./a"), "./a");
}
