use upstream::text::{first_line, join, split_once};
use upstream::version::version;

#[test]
fn split_agrees_with_std() {
    for text in ["", "/", "a", "a/", "/a", "a/b", "a/b/c", "é/ü", "//"] {
        assert_eq!(split_once(text, '/'), text.split_once('/'));
    }
}

#[test]
fn first_line_agrees_with_std() {
    for text in [
        "", "\n", "\r\n", "\r", "main", "main\n", "main\r\n", "main\r", "main\r\r\n", "a\nb\n",
        "a\rb\nc", "\n\n", "größe\nx", "a\r\nb\r\n",
    ] {
        assert_eq!(first_line(text), text.lines().next());
    }
}

#[test]
fn texts_are_joined() {
    assert_eq!(join("radicle-", "patch"), "radicle-patch");
    assert_eq!(join("", ""), "");
}

#[test]
fn version_names_commit_and_profile() {
    assert_eq!(version("0.1.0", "abc123", "release"), "0.1.0-gitabc123.release");
}
