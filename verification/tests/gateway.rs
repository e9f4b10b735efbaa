use ipfs_uploader::errors::{ErrorKind, Failure};
use ipfs_uploader::gateway::{
    plan_probe, plan_upload, plan_upload_bytes, read_probe, read_reply, root_of_listing,
};

#[test]
fn upload_of_a_path_is_a_recursive_quiet_add() {
    let arguments = plan_upload("assets/cat.jpg", true).unwrap();
    assert_eq!(arguments, vec!["add", "-r", "-Q", "--cid-version", "1", "assets/cat.jpg"]);
}

#[test]
fn upload_of_a_missing_path_is_not_found() {
    let failure = plan_upload("assets/none.jpg", false).unwrap_err();
    assert_eq!(failure, Failure { kind: ErrorKind::NotFound, detail: "assets/none.jpg".to_string() });
}

#[test]
fn upload_of_bytes_reads_standard_input() {
    assert_eq!(plan_upload_bytes(), vec!["add", "-Q", "--cid-version", "1"]);
}

#[test]
fn probe_asks_for_the_identity() {
    assert_eq!(plan_probe(), vec!["id"]);
}

#[test]
fn probe_that_fails_is_a_failed_connection() {
    assert_eq!(read_probe(true), Ok(()));
    let failure = read_probe(false).unwrap_err();
    assert_eq!(failure.kind, ErrorKind::ConnectionFailed);
    assert_eq!(failure.detail, "the storage daemon is not running");
}

#[test]
fn reply_is_trimmed_to_the_identifier() {
    assert_eq!(read_reply(true, b"bafy000IMAGE\n".to_vec(), ""), Ok("bafy000IMAGE".to_string()));
    assert_eq!(read_reply(true, b"  bafy1 \r\n".to_vec(), "noise"), Ok("bafy1".to_string()));
}

#[test]
fn reply_with_a_bad_status_is_a_failed_upload_with_the_daemon_text() {
    let failure = read_reply(false, b"bafy000IMAGE\n".to_vec(), "Error: lock held").unwrap_err();
    assert_eq!(
        failure,
        Failure { kind: ErrorKind::UploadFailed, detail: "Error: lock held".to_string() }
    );
}

#[test]
fn reply_that_is_not_utf8_is_invalid_input() {
    let failure = read_reply(true, vec![0x62, 0xff, 0xfe], "").unwrap_err();
    assert_eq!(failure.kind, ErrorKind::InvalidInput);
    assert_eq!(failure.detail, "the reply is not UTF-8");
    let failure = read_reply(true, vec![0xed, 0xa0, 0x80], "").unwrap_err();
    assert_eq!(failure.kind, ErrorKind::InvalidInput);
}

#[test]
fn reply_without_an_identifier_is_a_failed_upload() {
    let failure = read_reply(true, b" \n".to_vec(), "").unwrap_err();
    assert_eq!(failure, Failure { kind: ErrorKind::UploadFailed, detail: " \n".to_string() });
    let failure = read_reply(true, Vec::new(), "").unwrap_err();
    assert_eq!(failure.kind, ErrorKind::UploadFailed);
}

#[test]
fn reply_may_hold_any_text() {
    assert_eq!(read_reply(true, "é日本\n".as_bytes().to_vec(), ""), Ok("é日本".to_string()));
}

#[test]
fn root_of_a_listing_is_its_last_entry() {
    let hashes = vec!["QmA".to_string(), "QmB".to_string(), "QmROOT".to_string()];
    assert_eq!(root_of_listing(&hashes), Ok("QmROOT".to_string()));
    assert_eq!(root_of_listing(&vec!["QmONLY".to_string()]), Ok("QmONLY".to_string()));
}

#[test]
fn empty_listing_is_a_failed_upload() {
    let failure = root_of_listing(&Vec::new()).unwrap_err();
    assert_eq!(failure.kind, ErrorKind::UploadFailed);
    assert_eq!(failure.detail, "the daemon listed no entry");
}

#[test]
fn failure_in_words() {
    let failure = Failure::new(ErrorKind::NotFound, "a/b");
    assert_eq!(failure.describe(), "not found: a/b");
    assert_eq!(Failure::new(ErrorKind::ConnectionFailed, "x").describe(), "connection failed: x");
    assert_eq!(Failure::new(ErrorKind::UploadFailed, "x").describe(), "upload failed: x");
    assert_eq!(Failure::new(ErrorKind::InvalidInput, "x").describe(), "invalid input: x");
    assert_eq!(Failure::new(ErrorKind::IoError, "").describe(), "I/O error: ");
    assert_eq!(failure.clone(), failure);
}
