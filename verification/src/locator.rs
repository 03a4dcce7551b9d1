//! Reading and joining URLs. The URL syntax is that of the `url` crate; this
//! module names what it makes of a text.

use vstd::prelude::*;

verus! {

/// The scheme of the URL that `text` writes, lower-cased and without its
/// colon, or `None` where `text` is no URL.
pub uninterp spec fn url_scheme(text: Seq<char>) -> Option<Seq<char>>;

/// The URL that `reference` denotes relative to the URL `base`, serialized,
/// or `None` where `base` is no URL or the reference cannot be resolved
/// against it.
pub uninterp spec fn url_join(base: Seq<char>, reference: Seq<char>) -> Option<Seq<char>>;

/// Parses `text` with `url::Url::parse` and returns what `Url::scheme` gives
/// for it. The outcome depends on the text alone and is named [`url_scheme`];
/// a text that does not parse gives `None`.
#[verifier::external_body]
pub(crate) fn scheme_of(text: &str) -> (r: Option<String>)
    ensures
        match r {
            Some(scheme) => url_scheme(text@) == Some(scheme@),
            None => url_scheme(text@) is None,
        },
{
    match url::Url::parse(text) {
        Ok(parsed) => Some(parsed.scheme().to_string()),
        Err(_) => None,
    }
}

/// Parses `base` with `url::Url::parse` and resolves `reference` against it
/// with `Url::join`, returning the serialization of the result. The outcome
/// depends on the two texts alone and is named [`url_join`]; a failure of
/// either step gives `None`.
#[verifier::external_body]
pub(crate) fn join(base: &str, reference: &str) -> (r: Option<String>)
    ensures
        match r {
            Some(joined) => url_join(base@, reference@) == Some(joined@),
            None => url_join(base@, reference@) is None,
        },
{
    match url::Url::parse(base) {
        Ok(parsed) => match parsed.join(reference) {
            Ok(joined) => Some(String::from(joined)),
            Err(_) => None,
        },
        Err(_) => None,
    }
}

} // verus!
