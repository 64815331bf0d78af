use eutils::paths::split_extension;

fn triple(a: &str, b: &str, c: &str) -> (String, String, String) {
    (a.to_string(), b.to_string(), c.to_string())
}

#[test]
fn ecp_test_split() {
    assert_eq!(split_extension("foo/bar.txt"), triple("foo", "bar", ".txt"));

    assert_eq!(split_extension("a/b/bar.txt"), triple("a/b", "bar", ".txt"));

    assert_eq!(split_extension(".txt"), triple("", "", ".txt"));

    assert_eq!(split_extension(".log.txt"), triple("", ".log", ".txt"));
}

#[test]
fn lib_test_split() {
    assert_eq!(split_extension("foo/bar.txt"), triple("foo", "bar", ".txt"));

    assert_eq!(split_extension("a/b/bar.txt"), triple("a/b", "bar", ".txt"));

    assert_eq!(split_extension(".txt"), triple("", "", ".txt"));

    assert_eq!(split_extension(".log.txt"), triple("", ".log", ".txt"));
}

#[test]
fn test_split_directory() {
    assert_eq!(split_extension("a/b/"), triple("a", "b", ""));
}

#[test]
fn split_plain_file_name() {
    assert_eq!(split_extension("photo.png"), triple("", "photo", ".png"));
    assert_eq!(split_extension("photo"), triple("", "photo", ""));
}

#[test]
fn split_cur_and_parent_dir() {
    assert_eq!(split_extension("."), triple(".", "", ""));
    assert_eq!(split_extension(".."), triple("..", "", ""));
}

#[test]
fn split_rooted_paths() {
    assert_eq!(split_extension("/foo/bar.txt"), triple("/foo", "bar", ".txt"));
    assert_eq!(split_extension("/x.png"), triple("/", "x", ".png"));
    assert_eq!(split_extension("/"), triple("", "", ""));
}

#[test]
fn split_dotfile_in_directory() {
    assert_eq!(split_extension("dir/.png"), triple("dir", "", ".png"));
}

#[test]
fn split_trailing_dot_component() {
    // A trailing `.` component is dropped, as the platform's path parsing
    // drops it.
    assert_eq!(split_extension("a/."), triple("", "a", ""));
    assert_eq!(split_extension("a/b/."), triple("a", "b", ""));
    assert_eq!(split_extension("./"), triple("", "", ""));
}

#[test]
fn split_parent_dir_component() {
    // A `..` file name has neither stem nor extension.
    assert_eq!(split_extension("a/.."), triple("a", "", ""));
    assert_eq!(split_extension("a/b/.."), triple("a/b", "", ""));
    assert_eq!(split_extension("../"), triple("", "", ""));
}

#[test]
fn split_relative_prefix() {
    assert_eq!(split_extension("./a"), triple(".", "a", ""));
}

#[test]
fn split_empty_string() {
    assert_eq!(split_extension(""), triple("", "", ""));
}

#[test]
fn split_trailing_dot() {
    assert_eq!(split_extension("foo."), triple("", "foo", "."));
}
