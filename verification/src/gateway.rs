//! What is asked of the storage daemon, and how its replies are read.

use crate::errors::{ErrorKind, Failure, FailureView};
use crate::text::{trim, trimmed};
use vstd::prelude::*;
use vstd::utf8::{decode_utf8, valid_utf8};

verus! {

/// The arguments with which the daemon's command stores a file or a whole
/// directory and prints the identifier of its root alone.
pub open spec fn add_path_arguments(path: Seq<char>) -> Seq<Seq<char>> {
    seq!["add"@, "-r"@, "-Q"@, "--cid-version"@, "1"@, path]
}

/// The arguments with which the daemon's command stores what it reads from
/// its standard input.
pub open spec fn add_input_arguments() -> Seq<Seq<char>> {
    seq!["add"@, "-Q"@, "--cid-version"@, "1"@]
}

/// The arguments with which the daemon's command tells who it is.
pub open spec fn probe_arguments() -> Seq<Seq<char>> {
    seq!["id"@]
}

/// The texts of a list of strings, in order.
pub open spec fn texts(v: Seq<String>) -> Seq<Seq<char>> {
    v.map_values(|s: String| s@)
}

/// How a reply of the daemon's command reads. A status other than success
/// is a failed upload, with what the daemon wrote to its error stream. Else
/// the output must be UTF-8, and what is left of it without the white space
/// around it is the identifier, which must not be empty.
pub open spec fn reply_reading(success: bool, output: Seq<u8>, errors: Seq<char>) -> Result<
    Seq<char>,
    FailureView,
> {
    if !success {
        Err(FailureView { kind: ErrorKind::UploadFailed, detail: errors })
    } else if !valid_utf8(output) {
        Err(FailureView { kind: ErrorKind::InvalidInput, detail: "the reply is not UTF-8"@ })
    } else if trimmed(decode_utf8(output)).len() == 0 {
        Err(FailureView { kind: ErrorKind::UploadFailed, detail: decode_utf8(output) })
    } else {
        Ok(trimmed(decode_utf8(output)))
    }
}

/// `String::from_utf8`, which gives the text that the bytes encode where
/// they are valid UTF-8 and an error where they are not.
#[verifier::external_body]
fn text_of_bytes(bytes: Vec<u8>) -> (r: Option<String>)
    ensures
        r is Some <==> valid_utf8(bytes@),
        r is Some ==> r->Some_0@ == decode_utf8(bytes@),
{
    String::from_utf8(bytes).ok()
}

/// What is asked of the daemon to store the file or directory at `path`,
/// given whether the path exists: a path that does not exist is not found.
pub fn plan_upload(path: &str, exists: bool) -> (r: Result<Vec<String>, Failure>)
    ensures
        exists ==> r is Ok && texts(r->Ok_0@) == add_path_arguments(path@),
        !exists ==> r is Err && r->Err_0@ == (FailureView {
            kind: ErrorKind::NotFound,
            detail: path@,
        }),
{
    if !exists {
        return Err(Failure::new(ErrorKind::NotFound, path));
    }
    let mut arguments: Vec<String> = Vec::new();
    arguments.push("add".to_owned());
    arguments.push("-r".to_owned());
    arguments.push("-Q".to_owned());
    arguments.push("--cid-version".to_owned());
    arguments.push("1".to_owned());
    arguments.push(path.to_owned());
    assert(texts(arguments@) =~= add_path_arguments(path@));
    Ok(arguments)
}

/// What is asked of the daemon to store bytes handed to it on its standard
/// input.
pub fn plan_upload_bytes() -> (arguments: Vec<String>)
    ensures
        texts(arguments@) == add_input_arguments(),
{
    let mut arguments: Vec<String> = Vec::new();
    arguments.push("add".to_owned());
    arguments.push("-Q".to_owned());
    arguments.push("--cid-version".to_owned());
    arguments.push("1".to_owned());
    assert(texts(arguments@) =~= add_input_arguments());
    arguments
}

/// What is asked of the daemon to learn whether it can be reached.
pub fn plan_probe() -> (arguments: Vec<String>)
    ensures
        texts(arguments@) == probe_arguments(),
{
    let mut arguments: Vec<String> = Vec::new();
    arguments.push("id".to_owned());
    assert(texts(arguments@) =~= probe_arguments());
    arguments
}

/// Reads the answer to a probe: a daemon that did not answer with success
/// cannot be reached.
pub fn read_probe(success: bool) -> (r: Result<(), Failure>)
    ensures
        success ==> r is Ok,
        !success ==> r is Err && r->Err_0@ == (FailureView {
            kind: ErrorKind::ConnectionFailed,
            detail: "the storage daemon is not running"@,
        }),
{
    if success {
        Ok(())
    } else {
        Err(Failure::new(ErrorKind::ConnectionFailed, "the storage daemon is not running"))
    }
}

/// Reads the reply to an upload: the identifier of what was stored, or the
/// failure.
pub fn read_reply(success: bool, output: Vec<u8>, errors: &str) -> (r: Result<String, Failure>)
    ensures
        match reply_reading(success, output@, errors@) {
            Ok(cid) => r is Ok && r->Ok_0@ == cid,
            Err(failure) => r is Err && r->Err_0@ == failure,
        },
{
    if !success {
        return Err(Failure::new(ErrorKind::UploadFailed, errors));
    }
    match text_of_bytes(output) {
        None => Err(Failure::new(ErrorKind::InvalidInput, "the reply is not UTF-8")),
        Some(text) => {
            let cid = trim(text.as_str());
            if cid.as_str().is_empty() {
                Err(Failure { kind: ErrorKind::UploadFailed, detail: text })
            } else {
                Ok(cid)
            }
        },
    }
}

/// The identifier of the root of a directory that was stored entry by
/// entry: the daemon lists the root last.
pub open spec fn listing_root(hashes: Seq<Seq<char>>) -> Result<Seq<char>, FailureView> {
    if hashes.len() == 0 {
        Err(FailureView { kind: ErrorKind::UploadFailed, detail: "the daemon listed no entry"@ })
    } else {
        Ok(hashes.last())
    }
}

/// Picks the identifier of the root out of the identifiers that the daemon
/// listed for a directory: the last one. An empty list is a failed upload.
pub fn root_of_listing(hashes: &Vec<String>) -> (r: Result<String, Failure>)
    ensures
        match listing_root(texts(hashes@)) {
            Ok(cid) => r is Ok && r->Ok_0@ == cid,
            Err(failure) => r is Err && r->Err_0@ == failure,
        },
{
    if hashes.len() == 0 {
        Err(Failure::new(ErrorKind::UploadFailed, "the daemon listed no entry"))
    } else {
        Ok(hashes[hashes.len() - 1].clone())
    }
}

} // verus!
