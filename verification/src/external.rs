//! The calls this library makes into `std` functions that vstd leaves
//! unspecified and into the crates `base64`, `regex`, `url` and `scraper`.
//! Each item here is trusted: its contract is believed, not proved.
use vstd::prelude::*;
use base64::Engine;
use crate::html::{HtmlElement, TagAttributes, elements_view};

verus! {

#[verifier::external_type_specification]
#[verifier::external_body]
pub struct ExDecodeError(base64::DecodeError);

#[verifier::external_type_specification]
#[verifier::external_body]
pub struct ExFromUtf8Error(std::string::FromUtf8Error);

#[verifier::external_type_specification]
#[verifier::external_body]
pub struct ExUrlParseError(url::ParseError);

#[verifier::external_type_specification]
#[verifier::external_body]
pub struct ExRegexError(regex::Error);

#[verifier::external_type_specification]
#[verifier::external_body]
pub struct ExSelectorErrorKind(scraper::error::SelectorErrorKind);

/// The bytes that the `base64` crate's standard engine (RFC 4648 alphabet,
/// canonical `=` padding required) decodes from `input`, or `None` where it
/// reports a `DecodeError`.
pub uninterp spec fn base64_standard_decoding(input: Seq<char>) -> Option<Seq<u8>>;

/// The serialization of the URL that `url::Url::parse` makes of `input`, or
/// `None` where it reports a `ParseError`.
pub uninterp spec fn url_parsing(input: Seq<char>) -> Option<Seq<char>>;

/// The serialization of the URL that `url::Url::join` makes of `input`
/// against the URL parsed from `base`, or `None` where either step reports a
/// `ParseError`.
pub uninterp spec fn url_joining(base: Seq<char>, input: Seq<char>) -> Option<Seq<char>>;

/// The text of capture group `group` in the first match of the regular
/// expression `pattern` in `text` (`regex::Regex::captures`), or `None`
/// where the pattern does not compile, there is no match, or the group did
/// not take part in the match.
pub uninterp spec fn regex_first_capture(pattern: Seq<char>, text: Seq<char>, group: nat) -> Option<
    Seq<char>,
>;

/// The elements that match the CSS selector `selector` in the HTML document
/// `html`, in document order, each as its inner HTML and its attribute
/// name/value pairs (`scraper::Html::parse_document`, `Html::select`,
/// `ElementRef::inner_html`, `Element::attrs`), or `None` where
/// `scraper::Selector::parse` rejects the selector.
pub uninterp spec fn html_selection(html: Seq<char>, selector: Seq<char>) -> Option<
    Seq<(Seq<char>, Seq<(Seq<char>, Seq<char>)>)>,
>;

/// `String::push`: appends the character `c`.
#[verifier::external_body]
pub fn push_char(s: &mut String, c: char)
    ensures
        final(s)@ == old(s)@.push(c),
{
    s.push(c);
}

/// `String::from_utf8`: succeeds exactly when `bytes` is valid UTF-8, and
/// then holds the characters that the bytes encode.
#[verifier::external_body]
pub fn string_from_utf8(bytes: Vec<u8>) -> (res: Result<String, std::string::FromUtf8Error>)
    ensures
        res is Ok <==> vstd::utf8::valid_utf8(bytes@),
        res matches Ok(s) ==> s@ == vstd::utf8::decode_utf8(bytes@),
{
    String::from_utf8(bytes)
}

/// `base64::engine::general_purpose::STANDARD.decode`: its result is the
/// named decoding of `input`.
#[verifier::external_body]
pub fn base64_decode(input: &str) -> (res: Result<Vec<u8>, base64::DecodeError>)
    ensures
        res is Ok <==> base64_standard_decoding(input@) is Some,
        res matches Ok(v) ==> base64_standard_decoding(input@) == Some(v@),
{
    base64::engine::general_purpose::STANDARD.decode(input)
}

/// `url::Url::parse`, giving the parsed URL's serialization
/// (`Url::as_str`).
#[verifier::external_body]
pub fn url_parse(input: &str) -> (res: Result<String, url::ParseError>)
    ensures
        res is Ok <==> url_parsing(input@) is Some,
        res matches Ok(u) ==> url_parsing(input@) == Some(u@),
{
    match url::Url::parse(input) {
        Ok(u) => Ok(u.as_str().to_string()),
        Err(e) => Err(e),
    }
}

/// `url::Url::join` of `input` against `base`, where `base` is first
/// parsed with `url::Url::parse`; gives the serialization of the result.
#[verifier::external_body]
pub fn url_join(base: &str, input: &str) -> (res: Result<String, url::ParseError>)
    ensures
        res is Ok <==> url_joining(base@, input@) is Some,
        res matches Ok(u) ==> url_joining(base@, input@) == Some(u@),
{
    match url::Url::parse(base) {
        Ok(b) => match b.join(input) {
            Ok(u) => Ok(u.as_str().to_string()),
            Err(e) => Err(e),
        },
        Err(e) => Err(e),
    }
}

/// `regex::Regex::new(pattern)` followed by `Regex::captures(text)` and
/// `Captures::get(group)`: an error where the pattern does not compile, else
/// the named capture.
#[verifier::external_body]
pub fn regex_capture(pattern: &str, text: &str, group: usize) -> (res: Result<
    Option<String>,
    regex::Error,
>)
    ensures
        res matches Ok(c) ==> match c {
            Some(t) => regex_first_capture(pattern@, text@, group as nat) == Some(t@),
            None => regex_first_capture(pattern@, text@, group as nat) is None,
        },
        res is Err ==> regex_first_capture(pattern@, text@, group as nat) is None,
{
    let re = regex::Regex::new(pattern)?;
    let captures = match re.captures(text) {
        Some(c) => c,
        None => return Ok(None),
    };
    match captures.get(group) {
        Some(m) => Ok(Some(m.as_str().to_string())),
        None => Ok(None),
    }
}

/// `scraper::Html::parse_document(html)` and `Html::select` with the
/// selector that `scraper::Selector::parse(selector)` gives; each matching
/// element is handed out as its inner HTML and its attributes.
#[verifier::external_body]
pub fn html_select(html: &str, selector: &str) -> (res: Result<
    Vec<HtmlElement>,
    scraper::error::SelectorErrorKind,
>)
    ensures
        res matches Ok(v) ==> html_selection(html@, selector@) == Some(elements_view(v@)),
        res is Err ==> html_selection(html@, selector@) is None,
{
    let selector = scraper::Selector::parse(selector)?;
    let document = scraper::Html::parse_document(html);
    let mut out = Vec::new();
    for e in document.select(&selector) {
        let attributes = e.value().attrs().map(|(k, v)| (k.to_string(), v.to_string())).collect();
        out.push(HtmlElement { inner_html: e.inner_html(), attributes: TagAttributes { attributes } });
    }
    Ok(out)
}

} // verus!
