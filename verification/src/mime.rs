//! Media types of files.

use crate::path::{extension, join, law_extension, law_no_extension};
use vstd::prelude::*;

verus! {

/// The media type of files of which nothing is known.
pub const DEFAULT_MIME: &'static str = "application/octet-stream";

/// The media type that `mime_guess` knows for a file extension.
pub uninterp spec fn mime_for_extension(ext: Seq<char>) -> Seq<char>;

/// The media type of the file at `path`, by the extension of its name.
pub open spec fn mime_for_path(path: Seq<char>) -> Seq<char> {
    match extension(path) {
        Some(ext) => mime_for_extension(ext),
        None => DEFAULT_MIME@,
    }
}

/// `mime_guess::from_path` and `MimeGuess::first_or_octet_stream` give the media
/// type for the extension of a path, which is named by `mime_for_extension`.
/// Without an extension, or with an empty one, it is `application/octet-stream`.
#[verifier::external_body]
pub(crate) fn guess_mime(path: &str) -> (r: String)
    ensures
        match extension(path@) {
            Some(ext) => r@ == mime_for_extension(ext) && (ext.len() == 0 ==> r@ == DEFAULT_MIME@),
            None => r@ == DEFAULT_MIME@,
        },
{
    mime_guess::from_path(path).first_or_octet_stream().to_string()
}

/// The media type of a file goes by its extension alone.
pub proof fn law_mime_for_path(dir: Seq<char>, stem: Seq<char>, ext: Seq<char>)
    requires
        stem.len() > 0,
        ext.len() > 0,
        !stem.contains('/'),
        !ext.contains('/'),
        !ext.contains('.'),
    ensures
        mime_for_path(join(dir, stem + seq!['.'] + ext)) == mime_for_extension(ext),
        !stem.contains('.') ==> mime_for_path(join(dir, stem)) == "application/octet-stream"@,
{
    law_extension(dir, stem, ext, ext);
    if !stem.contains('.') {
        law_no_extension(dir, stem);
    }
}

} // verus!
