//! Guessing the MIME type of files in inexpensive ways.

use vstd::prelude::*;
use vstd::slice::slice_subrange;
use crate::bytes::{bytes_eq, lit, opt_view, to_vec};

verus! {

/// The extension of a path: the bytes behind its last period, or all of it
/// where it holds none.  Things like `.tar.gz` thus count as `gz`.
pub open spec fn extension(path: Seq<u8>) -> Seq<u8>
    decreases path.len(),
{
    if path.len() == 0 {
        Seq::empty()
    } else if path.last() == '.' as u8 {
        Seq::empty()
    } else {
        extension(path.drop_last()).push(path.last())
    }
}

/// The MIME type that the built-in table gives for an extension.
pub open spec fn canned(ext: Seq<u8>) -> Seq<u8> {
    if ext == lit("html") {
        lit("text/html")
    } else if ext == lit("gif") {
        lit("image/gif")
    } else if ext == lit("jpeg") || ext == lit("jpg") {
        lit("image/jpeg")
    } else if ext == lit("png") {
        lit("image/png")
    } else if ext == lit("pdf") {
        lit("application/pdf")
    } else if ext == lit("css") {
        lit("text/css")
    } else {
        lit("text/plain")
    }
}

/// The name under which an override for a path's MIME type is looked up:
/// `CT_` and the path's extension.
pub open spec fn override_name(path: Seq<u8>) -> Seq<u8> {
    lit("CT_") + extension(path)
}

/// The MIME type of a path: the override where one is set, else what the
/// built-in table gives for the extension.
pub open spec fn mime_type(path: Seq<u8>, overridden: Option<Seq<u8>>) -> Seq<u8> {
    match overridden {
        Some(t) => t,
        None => canned(extension(path)),
    }
}

/// Returns the extension of a path.
pub fn extension_of(file_path: &[u8]) -> (ext: &[u8])
    ensures
        ext@ == extension(file_path@),
{
    let mut start: usize = 0;
    let mut i: usize = 0;
    assert(file_path@.take(0) == Seq::<u8>::empty());
    while i < file_path.len()
        invariant
            start <= i <= file_path.len(),
            file_path@.subrange(start as int, i as int) == extension(file_path@.take(i as int)),
        decreases file_path.len() - i,
    {
        assert(file_path@.take(i + 1).drop_last() == file_path@.take(i as int));
        if file_path[i] == '.' as u8 {
            start = i + 1;
        } else {
            assert(file_path@.subrange(start as int, i + 1) == file_path@.subrange(
                start as int,
                i as int,
            ).push(file_path@[i as int]));
        }
        i += 1;
    }
    assert(file_path@.take(i as int) == file_path@);
    slice_subrange(file_path, start, i)
}

fn canned_mapping(ext: &[u8]) -> (mime: Vec<u8>)
    ensures
        mime@ == canned(ext@),
{
    let mimetype = if bytes_eq(ext, "html".as_bytes()) {
        "text/html"
    } else if bytes_eq(ext, "gif".as_bytes()) {
        "image/gif"
    } else if bytes_eq(ext, "jpeg".as_bytes()) || bytes_eq(ext, "jpg".as_bytes()) {
        "image/jpeg"
    } else if bytes_eq(ext, "png".as_bytes()) {
        "image/png"
    } else if bytes_eq(ext, "pdf".as_bytes()) {
        "application/pdf"
    } else if bytes_eq(ext, "css".as_bytes()) {
        "text/css"
    } else {
        "text/plain"
    };
    to_vec(mimetype.as_bytes())
}

/// Returns the name of the environment variable that overrides the MIME
/// type of `file_path`: for a file `foo.ext`, the variable `CT_ext`.
pub fn override_key(file_path: &[u8]) -> (key: Vec<u8>)
    ensures
        key@ == override_name(file_path@),
{
    let mut key = to_vec("CT_".as_bytes());
    key.extend_from_slice(extension_of(file_path));
    key
}

/// Takes a guess at a file's MIME type using its file extension.
///
/// `overridden` is the content of the environment variable that
/// `override_key` names, if it is set.  It is returned as the MIME type if
/// present; else a hardcoded mapping of common extensions is consulted.
pub fn from_path(file_path: &[u8], overridden: Option<Vec<u8>>) -> (mime: Vec<u8>)
    ensures
        mime@ == mime_type(file_path@, opt_view(overridden)),
{
    match overridden {
        Some(t) => t,
        None => canned_mapping(extension_of(file_path)),
    }
}

} // verus!
