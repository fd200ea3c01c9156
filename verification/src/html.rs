//! Sanitised HTML on its way to pandoc and back.

use vstd::prelude::*;

verus! {

/// The longest HTML, in bytes, that the sanitiser is given. The sanitiser keeps text
/// in buffers that cannot grow beyond 2 GiB, and a byte of its input can become
/// three bytes of such a text.
pub const SANITIZE_LIMIT: usize = 0x2aaa_aaaa;

/// What ammonia makes of HTML under its default rules.
pub uninterp spec fn ammonia_clean(html: Seq<char>) -> Seq<char>;

/// What ammonia makes of HTML that it reads from bytes, under its default rules.
pub uninterp spec fn ammonia_clean_from_reader(bytes: Seq<u8>) -> Seq<char>;

/// The error type of std for input and output.
#[verifier::external_type_specification]
#[verifier::external_body]
pub struct ExIoError(std::io::Error);

/// `Builder::clean` of ammonia, with the default rules, printed: a function of the
/// HTML alone, named [`ammonia_clean`]. Nothing is claimed of what it is.
#[verifier::external_body]
fn clean(html: &str) -> (cleaned: String)
    requires
        vstd::utf8::encode_utf8(html@).len() <= SANITIZE_LIMIT,
    ensures
        cleaned@ == ammonia_clean(html@),
{
    ammonia::Builder::new().clean(html).to_string()
}

/// `Builder::clean_from_reader` of ammonia, with the default rules, on bytes in
/// memory, printed: a function of the bytes alone, named
/// [`ammonia_clean_from_reader`]. The call fails only where the reader does, and reading
/// a byte slice does not. Nothing is claimed of what the cleaned HTML is.
#[verifier::external_body]
fn clean_from_bytes(bytes: &[u8]) -> (r: Result<String, std::io::Error>)
    requires
        bytes@.len() <= SANITIZE_LIMIT,
    ensures
        r is Ok,
        r->Ok_0@ == ammonia_clean_from_reader(bytes@),
{
    match ammonia::Builder::new().clean_from_reader(bytes) {
        Ok(document) => Ok(document.to_string()),
        Err(error) => Err(error),
    }
}

/// What pandoc is given to turn HTML into Markdown: the HTML, sanitised.
pub fn pandoc_input(html: &str) -> (input: String)
    requires
        vstd::utf8::encode_utf8(html@).len() <= SANITIZE_LIMIT,
    ensures
        input@ == ammonia_clean(html@),
{
    clean(html)
}

/// The HTML that pandoc has printed, sanitised.
pub fn html_from_pandoc(output: &[u8]) -> (r: Result<String, std::io::Error>)
    requires
        output@.len() <= SANITIZE_LIMIT,
    ensures
        r is Ok,
        r->Ok_0@ == ammonia_clean_from_reader(output@),
{
    clean_from_bytes(output)
}

} // verus!
