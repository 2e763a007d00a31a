//! The few places where this library leans on code that Verus does not read.
//! Each item here states a contract that is believed, not proved.

use vstd::prelude::*;
use vstd::utf8::{decode_utf8, valid_utf8};
use crate::text::{ends_with, starts_with};

verus! {

/// The text that `str::to_lowercase` gives for a text, as a function of its characters.
pub uninterp spec fn lowercase_of(s: Seq<char>) -> Seq<char>;

/// The text that `str::to_uppercase` gives for a text, as a function of its characters.
pub uninterp spec fn uppercase_of(s: Seq<char>) -> Seq<char>;

/// The text that `String::from_utf8_lossy` gives for a run of bytes that is not valid
/// UTF-8.
pub uninterp spec fn utf8_lossy_of(bytes: Seq<u8>) -> Seq<char>;

/// The text that `String::from_utf8_lossy` gives for a run of bytes: the text that the
/// bytes encode, where they are valid UTF-8; else a text with replacement characters in
/// it, of which only the name is known here.
pub open spec fn lossy_text(bytes: Seq<u8>) -> Seq<char> {
    if valid_utf8(bytes) {
        decode_utf8(bytes)
    } else {
        utf8_lossy_of(bytes)
    }
}

/// Calls `String::push`: the character is added at the end, the rest stays.
#[verifier::external_body]
pub(crate) fn string_push(s: &mut String, c: char)
    ensures
        final(s)@ == old(s)@.push(c),
{
    s.push(c);
}

/// Calls `str::to_lowercase`. Unicode decides the result; the contract only gives it its name.
#[verifier::external_body]
pub(crate) fn to_lowercase(s: &str) -> (r: String)
    ensures
        r@ == lowercase_of(s@),
{
    s.to_lowercase()
}

/// Calls `str::to_uppercase`. Unicode decides the result; the contract only gives it its name.
#[verifier::external_body]
pub(crate) fn to_uppercase(s: &str) -> (r: String)
    ensures
        r@ == uppercase_of(s@),
{
    s.to_uppercase()
}

/// Calls `String::from_utf8_lossy`. Valid UTF-8 comes back as the text that it encodes;
/// in anything else each malformed sequence is replaced by U+FFFD, and of that result the
/// contract only gives the name.
#[verifier::external_body]
pub(crate) fn utf8_lossy(bytes: &[u8]) -> (r: String)
    ensures
        r@ == if valid_utf8(bytes@) {
            decode_utf8(bytes@)
        } else {
            utf8_lossy_of(bytes@)
        },
{
    String::from_utf8_lossy(bytes).into_owned()
}

/// Whether a character parts the components of a path, on some platform.
pub open spec fn is_separator(c: char) -> bool {
    c == '/' || c == '\\'
}

/// Whether a text is one plain component of a path: not empty, not `.` or `..`, and
/// without a separator, a colon or the zero character.
pub open spec fn is_plain_name(file: Seq<char>) -> bool {
    &&& file.len() > 0
    &&& file != seq!['.']
    &&& file != seq!['.', '.']
    &&& forall|i: int|
        0 <= i < file.len() ==> !is_separator(#[trigger] file[i]) && file[i] != ':' && file[i]
            != '\0'
}

/// Whether a path begins like those that Windows takes verbatim: two separators, a
/// question mark, a separator.
pub open spec fn is_verbatim(directory: Seq<char>) -> bool {
    directory.len() >= 4 && is_separator(directory[0]) && is_separator(directory[1])
        && directory[2] == '?' && is_separator(directory[3])
}

/// Calls `Path::join` on a directory and one plain component. The path is extended by
/// the component, so it ends with it; and it begins with the directory as it was given,
/// unless that is a verbatim path, which Windows rebuilds when it is extended. Whether
/// a separator comes between the two, and which, is the platform's affair.
#[verifier::external_body]
pub(crate) fn path_join(directory: &str, file: &str) -> (r: String)
    requires
        is_plain_name(file@),
    ensures
        ends_with(r@, file@),
        !is_verbatim(directory@) ==> starts_with(r@, directory@),
{
    std::path::Path::new(directory).join(file).to_string_lossy().into_owned()
}

/// Whether a character is an ASCII letter or digit.
pub open spec fn is_alphanumeric(c: char) -> bool {
    ('a' <= c <= 'z') || ('A' <= c <= 'Z') || ('0' <= c <= '9')
}

/// Draws `count` characters with `rand::distributions::Alphanumeric` from
/// `rand::thread_rng`. Which characters come is chance; each is an ASCII letter or digit,
/// and there are `count` of them.
#[verifier::external_body]
pub(crate) fn random_alphanumeric(count: usize) -> (r: String)
    ensures
        r@.len() == count,
        forall|i: int| 0 <= i < r@.len() ==> is_alphanumeric(#[trigger] r@[i]),
{
    rand::Rng::sample_iter(rand::thread_rng(), rand::distributions::Alphanumeric)
        .take(count)
        .map(char::from)
        .collect()
}

} // verus!
