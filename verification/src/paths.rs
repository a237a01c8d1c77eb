//! What the standard library tells of a path and of letter case.
use crate::text::occurs_at;
use vstd::prelude::*;

verus! {

/// Whether `part` is a run of consecutive characters of `whole`.
pub open spec fn is_part_of(part: Seq<char>, whole: Seq<char>) -> bool {
    exists|at: int| occurs_at(whole, part, at)
}

/// The lowercase form that the standard library gives a text.
pub uninterp spec fn lowercase_of(text: Seq<char>) -> Seq<char>;

/// `str::to_lowercase` of the standard library. The result depends on the
/// text alone; it is known here only by its name, `lowercase_of`.
#[verifier::external_body]
pub(crate) fn to_lowercase(text: &str) -> (r: String)
    ensures
        r@ == lowercase_of(text@),
{
    text.to_lowercase()
}

/// `Path::file_stem` of the standard library, on a path given as text. How a
/// path falls into components differs between platforms, so all that is
/// claimed is that a stem, where there is one, is a part of the path.
#[verifier::external_body]
pub(crate) fn file_stem(path: &str) -> (r: Option<String>)
    ensures
        r matches Some(stem) ==> is_part_of(stem@, path@),
{
    std::path::Path::new(path).file_stem().and_then(|s| s.to_str()).map(|s| s.to_string())
}

/// `Path::extension` of the standard library, on a path given as text. An
/// extension, where there is one, is a part of the path and holds no dot.
#[verifier::external_body]
pub(crate) fn extension(path: &str) -> (r: Option<String>)
    ensures
        r matches Some(ext) ==> is_part_of(ext@, path@) && !ext@.contains('.'),
{
    std::path::Path::new(path).extension().and_then(|s| s.to_str()).map(|s| s.to_string())
}

} // verus!
