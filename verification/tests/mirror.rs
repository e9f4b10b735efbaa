use ipfs_uploader::actions::Action;
use ipfs_uploader::errors::ErrorKind;
use ipfs_uploader::mirror::{join, mirror_begin, mirror_entry, relative_path};

#[test]
fn relative_path_under_a_base() {
    assert_eq!(relative_path("src", "src"), Some("".to_string()));
    assert_eq!(relative_path("src/a.png", "src"), Some("a.png".to_string()));
    assert_eq!(relative_path("src/sub/a.png", "src"), Some("sub/a.png".to_string()));
    assert_eq!(relative_path("src/a.png", "src/"), Some("a.png".to_string()));
    assert_eq!(relative_path("/a", ""), Some("a".to_string()));
}

#[test]
fn relative_path_of_what_lies_elsewhere() {
    assert_eq!(relative_path("srcx/a.png", "src"), None);
    assert_eq!(relative_path("other/a.png", "src"), None);
    assert_eq!(relative_path("sr", "src"), None);
    assert_eq!(relative_path("a", ""), None);
}

#[test]
fn join_puts_a_slash_between() {
    assert_eq!(join("dst", "a.png"), "dst/a.png");
    assert_eq!(join("dst", "sub/a.png"), "dst/sub/a.png");
    assert_eq!(join("dst", ""), "dst");
}

#[test]
fn joining_then_taking_the_relative_path_gives_it_back() {
    for base in ["src", "a/b", "", "src/"] {
        for relative in ["", "x", "x/y.png", "日本.png"] {
            assert_eq!(relative_path(&join(base, relative), base), Some(relative.to_string()));
        }
    }
}

#[test]
fn mirror_begins_by_making_the_destination() {
    assert_eq!(mirror_begin("out/images"), Action::CreateDir { path: "out/images".to_string() });
}

#[test]
fn mirror_keeps_every_place() {
    assert_eq!(
        mirror_entry("in", "out/images", "in", true),
        Ok(Action::CreateDir { path: "out/images".to_string() })
    );
    assert_eq!(
        mirror_entry("in", "out/images", "in/sub", true),
        Ok(Action::CreateDir { path: "out/images/sub".to_string() })
    );
    assert_eq!(
        mirror_entry("in", "out/images", "in/sub/1.png", false),
        Ok(Action::CopyFile {
            from: "in/sub/1.png".to_string(),
            to: "out/images/sub/1.png".to_string()
        })
    );
    assert_eq!(
        mirror_entry("in/1.png", "out/1.png", "in/1.png", false),
        Ok(Action::CopyFile { from: "in/1.png".to_string(), to: "out/1.png".to_string() })
    );
}

#[test]
fn mirror_refuses_an_entry_from_elsewhere() {
    let failure = mirror_entry("in", "out", "other/1.png", false).unwrap_err();
    assert_eq!(failure.kind, ErrorKind::IoError);
    assert_eq!(failure.detail, "other/1.png");
}
