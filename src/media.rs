//! The media type of a served file, looked up by its extension.
use vstd::prelude::*;

verus! {

/// The media type that the extension table gives for a path, if any.
pub uninterp spec fn guessed_media_type(path: Seq<char>) -> Option<Seq<char>>;

pub open spec fn octet_stream() -> Seq<char> {
    seq![
        'a', 'p', 'p', 'l', 'i', 'c', 'a', 't', 'i', 'o', 'n', '/',
        'o', 'c', 't', 'e', 't', '-', 's', 't', 'r', 'e', 'a', 'm',
    ]
}

/// The media type of a file: the table's entry, or the binary fallback.
pub open spec fn media_type_of(guess: Option<Seq<char>>) -> Seq<char> {
    match guess {
        Some(m) => m,
        None => octet_stream(),
    }
}

/// Relies on mime_guess::guess_mime_type_opt: the first media type that its
/// static table lists for the path's extension; the contents are never read.
#[verifier::external_body]
#[allow(deprecated)]
fn guess_media_type(path: &str) -> (r: Option<String>)
    ensures
        match r {
            Some(m) => guessed_media_type(path@) == Some(m@),
            None => guessed_media_type(path@) is None,
        },
{
    mime_guess::guess_mime_type_opt(path).map(|m| m.to_string())
}

/// Relies on mime::APPLICATION_OCTET_STREAM, the generic binary type.
#[verifier::external_body]
fn application_octet_stream() -> (r: String)
    ensures
        r@ == octet_stream(),
{
    mime::APPLICATION_OCTET_STREAM.to_string()
}

/// The media type to report once the table has been consulted.
pub fn media_type_from_guess(guess: Option<String>) -> (r: String)
    ensures
        r@ == media_type_of(match guess {
            Some(m) => Some(m@),
            None => None,
        }),
{
    match guess {
        Some(m) => m,
        None => application_octet_stream(),
    }
}

/// The media type of the file at `path`, from its extension alone, with
/// `application/octet-stream` where the extension is unknown.
pub fn mime_for_path(path: &str) -> (r: String)
    ensures
        r@ == media_type_of(guessed_media_type(path@)),
{
    let g = guess_media_type(path);
    media_type_from_guess(g)
}

} // verus!
