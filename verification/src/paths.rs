//! File names and the layout of what is written locally.

use crate::decimal::{decimal, render_u64};
use crate::text::{chars_of, glue, glue3, string_of};
use vstd::prelude::*;

verus! {

/// The position of the last full stop in `s`, or -1 where there is none.
pub open spec fn last_dot(s: Seq<char>) -> int
    decreases s.len(),
{
    if s.len() == 0 {
        -1
    } else if s.last() == '.' {
        s.len() - 1
    } else {
        last_dot(s.drop_last())
    }
}

/// The stem of a file name: the whole name where it holds no full stop, or
/// only one at its very start, or is `..`; else what stands before its last
/// full stop.
pub open spec fn file_stem_spec(name: Seq<char>) -> Seq<char> {
    let k = last_dot(name);
    if k <= 0 || name == seq!['.', '.'] {
        name
    } else {
        name.take(k)
    }
}

/// The stem of a file name.
pub fn file_stem(name: &str) -> (out: String)
    ensures
        out@ == file_stem_spec(name@),
{
    let chars = chars_of(name);
    let n = chars.len();
    let mut k: usize = n;
    assert(chars@.take(n as int) =~= chars@);
    while k > 0 && chars[k - 1] != '.'
        invariant
            k <= n,
            n == chars@.len(),
            last_dot(chars@) == last_dot(chars@.take(k as int)),
        decreases k,
    {
        assert(chars@.take(k as int).last() == chars@[k - 1]);
        assert(chars@.take(k as int).drop_last() =~= chars@.take(k - 1));
        k -= 1;
    }
    proof {
        if k > 0 {
            assert(chars@.take(k as int).last() == chars@[k - 1]);
        }
        assert(last_dot(chars@) == k - 1);
    }
    let whole = k <= 1 || (n == 2 && chars[0] == '.' && chars[1] == '.');
    proof {
        if n == 2 && chars@[0] == '.' && chars@[1] == '.' {
            assert(chars@ =~= seq!['.', '.']);
        }
        assert(chars@.subrange(0, n as int) =~= chars@);
    }
    if whole {
        string_of(&chars, 0, n)
    } else {
        string_of(&chars, 0, k - 1)
    }
}

/// The name of a metadata file: its base, with `.json` behind it where the
/// suffix is switched on.
pub open spec fn metadata_file_name(base: Seq<char>, json_suffix: bool) -> Seq<char> {
    if json_suffix {
        base + ".json"@
    } else {
        base
    }
}

/// The directory that holds what is kept of a single token: `output/` and
/// the image's stem.
pub open spec fn single_dir(file_name: Seq<char>) -> Seq<char> {
    "output/"@ + file_stem_spec(file_name)
}

/// Where the copy of a single token's image goes.
pub open spec fn single_image_path(file_name: Seq<char>) -> Seq<char> {
    single_dir(file_name) + "/"@ + file_name
}

/// Where the metadata of a single token goes.
pub open spec fn single_metadata_path(file_name: Seq<char>, json_suffix: bool) -> Seq<char> {
    single_dir(file_name) + "/"@ + metadata_file_name(file_stem_spec(file_name), json_suffix)
}

/// The directory of a collection: `output/collection_` and the time stamp.
pub open spec fn collection_dir(stamp: Seq<char>) -> Seq<char> {
    "output/collection_"@ + stamp
}

/// Where the copies of a collection's images go.
pub open spec fn collection_images_dir(stamp: Seq<char>) -> Seq<char> {
    collection_dir(stamp) + "/images"@
}

/// Where the metadata files of a collection go.
pub open spec fn collection_metadata_dir(stamp: Seq<char>) -> Seq<char> {
    collection_dir(stamp) + "/metadata"@
}

/// Where the metadata of one member of a collection goes: a file named by
/// the member's id.
pub open spec fn member_metadata_path(stamp: Seq<char>, token_id: u64, json_suffix: bool) -> Seq<
    char,
> {
    collection_metadata_dir(stamp) + "/"@ + metadata_file_name(
        decimal(token_id as nat),
        json_suffix,
    )
}

/// The name of a metadata file.
pub fn metadata_file_name_of(base: &str, json_suffix: bool) -> (out: String)
    ensures
        out@ == metadata_file_name(base@, json_suffix),
{
    if json_suffix {
        glue(base, ".json")
    } else {
        base.to_owned()
    }
}

/// The directory that holds what is kept of a single token.
pub fn single_dir_of(file_name: &str) -> (out: String)
    ensures
        out@ == single_dir(file_name@),
{
    let stem = file_stem(file_name);
    glue("output/", stem.as_str())
}

/// Where the copy of a single token's image goes.
pub fn single_image_path_of(file_name: &str) -> (out: String)
    ensures
        out@ == single_image_path(file_name@),
{
    let dir = single_dir_of(file_name);
    glue3(dir.as_str(), "/", file_name)
}

/// Where the metadata of a single token goes.
pub fn single_metadata_path_of(file_name: &str, json_suffix: bool) -> (out: String)
    ensures
        out@ == single_metadata_path(file_name@, json_suffix),
{
    let dir = single_dir_of(file_name);
    let stem = file_stem(file_name);
    let name = metadata_file_name_of(stem.as_str(), json_suffix);
    glue3(dir.as_str(), "/", name.as_str())
}

/// The directory of a collection.
pub fn collection_dir_of(stamp: &str) -> (out: String)
    ensures
        out@ == collection_dir(stamp@),
{
    glue("output/collection_", stamp)
}

/// Where the copies of a collection's images go.
pub fn collection_images_dir_of(stamp: &str) -> (out: String)
    ensures
        out@ == collection_images_dir(stamp@),
{
    let dir = collection_dir_of(stamp);
    glue(dir.as_str(), "/images")
}

/// Where the metadata files of a collection go.
pub fn collection_metadata_dir_of(stamp: &str) -> (out: String)
    ensures
        out@ == collection_metadata_dir(stamp@),
{
    let dir = collection_dir_of(stamp);
    glue(dir.as_str(), "/metadata")
}

/// Where the metadata of one member of a collection goes.
pub fn member_metadata_path_of(stamp: &str, token_id: u64, json_suffix: bool) -> (out: String)
    ensures
        out@ == member_metadata_path(stamp@, token_id, json_suffix),
{
    let dir = collection_metadata_dir_of(stamp);
    let id = render_u64(token_id);
    let name = metadata_file_name_of(id.as_str(), json_suffix);
    glue3(dir.as_str(), "/", name.as_str())
}

/// Collections made at different times are kept apart: two time stamps that
/// differ give two different directories, so neither run writes over the
/// other.
pub proof fn lemma_collections_kept_apart(first: Seq<char>, second: Seq<char>)
    requires
        first != second,
    ensures
        collection_dir(first) != collection_dir(second),
        collection_images_dir(first) != collection_images_dir(second),
        collection_metadata_dir(first) != collection_metadata_dir(second),
{
    let p = "output/collection_"@;
    assert(collection_dir(first).skip(p.len() as int) =~= first);
    assert(collection_dir(second).skip(p.len() as int) =~= second);
    let n1 = collection_dir(first).len() as int;
    let n2 = collection_dir(second).len() as int;
    assert(collection_images_dir(first).take(n1) =~= collection_dir(first));
    assert(collection_images_dir(second).take(n2) =~= collection_dir(second));
    assert(collection_metadata_dir(first).take(n1) =~= collection_dir(first));
    assert(collection_metadata_dir(second).take(n2) =~= collection_dir(second));
    if n1 != n2 {
        assert(collection_images_dir(first).len() != collection_images_dir(second).len());
        assert(collection_metadata_dir(first).len() != collection_metadata_dir(second).len());
    }
}

} // verus!
