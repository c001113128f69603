//! File name extensions by media type, looked up in `mime_guess`. Stated
//! here, not proved.

use vstd::prelude::*;

verus! {

/// The extensions that `mime_guess` knows for a media type, in the order of
/// its table; `None` where it does not know the type.
pub uninterp spec fn mime_extensions(media_type: Seq<char>) -> Option<Seq<Seq<char>>>;

/// The texts behind a slice of string slices.
pub open spec fn words_of(all: Seq<&'static str>) -> Seq<Seq<char>> {
    Seq::new(all.len(), |i: int| all[i]@)
}

/// `mime_guess::get_mime_extensions_str`. The crate's documentation warns of
/// a panic on a malformed type; its source has none: surrounding blanks and
/// parameters are cut off, and a type without `/` is unknown.
#[verifier::external_body]
pub(crate) fn extensions_of(media_type: &str) -> (r: Option<&'static [&'static str]>)
    ensures
        r is Some <==> mime_extensions(media_type@) is Some,
        r matches Some(all) ==> mime_extensions(media_type@) == Some(words_of(all@)),
{
    mime_guess::get_mime_extensions_str(media_type)
}

/// The media type that `mime_guess` gives first for the extension of a
/// path; `None` where the path has no extension or none that it knows.
pub uninterp spec fn mime_of_path(path: Seq<char>) -> Option<Seq<char>>;

/// `mime_guess::from_path`, then `first_raw`. No file is looked at.
#[verifier::external_body]
pub(crate) fn type_of_path(path: &str) -> (r: Option<&'static str>)
    ensures
        r is Some <==> mime_of_path(path@) is Some,
        r matches Some(t) ==> mime_of_path(path@) == Some(t@),
{
    mime_guess::from_path(path).first_raw()
}

} // verus!
