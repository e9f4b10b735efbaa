use ipfs_uploader::paths::{
    collection_dir_of, collection_images_dir_of, collection_metadata_dir_of, file_stem,
    member_metadata_path_of, metadata_file_name_of, single_dir_of, single_image_path_of,
    single_metadata_path_of,
};
use std::path::Path;

#[test]
fn stem_is_what_stands_before_the_last_full_stop() {
    assert_eq!(file_stem("cat.jpg"), "cat");
    assert_eq!(file_stem("abc.png"), "abc");
    assert_eq!(file_stem("10.png"), "10");
    assert_eq!(file_stem("archive.tar.gz"), "archive.tar");
    assert_eq!(file_stem("noext"), "noext");
    assert_eq!(file_stem(".hidden"), ".hidden");
    assert_eq!(file_stem(".hidden.txt"), ".hidden");
    assert_eq!(file_stem("trailing."), "trailing");
    assert_eq!(file_stem(""), "");
    assert_eq!(file_stem(".."), "..");
}

#[test]
fn stem_agrees_with_the_standard_library() {
    for name in ["cat.jpg", "a.b.c", "noext", ".hidden", ".a.b", "x.", "1.png", "..a", "a..b", "é.png"] {
        let expected = Path::new(name).file_stem().unwrap().to_str().unwrap().to_string();
        assert_eq!(file_stem(name), expected, "on {:?}", name);
    }
}

#[test]
fn metadata_file_name_carries_the_suffix_only_when_asked() {
    assert_eq!(metadata_file_name_of("cat", false), "cat");
    assert_eq!(metadata_file_name_of("cat", true), "cat.json");
    assert_eq!(metadata_file_name_of("10", true), "10.json");
}

#[test]
fn layout_of_a_single_token() {
    assert_eq!(single_dir_of("cat.jpg"), "output/cat");
    assert_eq!(single_image_path_of("cat.jpg"), "output/cat/cat.jpg");
    assert_eq!(single_metadata_path_of("cat.jpg", false), "output/cat/cat");
    assert_eq!(single_metadata_path_of("cat.jpg", true), "output/cat/cat.json");
}

#[test]
fn layout_of_a_collection() {
    let stamp = "20250728_092506";
    assert_eq!(collection_dir_of(stamp), "output/collection_20250728_092506");
    assert_eq!(collection_images_dir_of(stamp), "output/collection_20250728_092506/images");
    assert_eq!(collection_metadata_dir_of(stamp), "output/collection_20250728_092506/metadata");
    assert_eq!(
        member_metadata_path_of(stamp, 10, false),
        "output/collection_20250728_092506/metadata/10"
    );
    assert_eq!(
        member_metadata_path_of(stamp, 10, true),
        "output/collection_20250728_092506/metadata/10.json"
    );
}

#[test]
fn different_stamps_give_different_directories() {
    let first = "20250728_092506";
    let second = "20250728_092723";
    assert_ne!(collection_dir_of(first), collection_dir_of(second));
    assert_ne!(collection_images_dir_of(first), collection_images_dir_of(second));
    assert_ne!(collection_metadata_dir_of(first), collection_metadata_dir_of(second));
}
