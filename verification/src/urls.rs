use vstd::prelude::*;

verus! {

/// `url::Url`, declared so that resolved base URLs can be held and handed to
/// collaborators. The library never looks inside a value of it.
#[verifier::external_type_specification]
#[verifier::external_body]
pub struct ExUrl(url::Url);

/// What `url::Url::parse` yields on a given input: the serialization of the
/// parsed URL, or nothing when the input is not a well-formed absolute URL.
/// The outcome depends on the input characters alone.
pub uninterp spec fn url_parse_of(s: Seq<char>) -> Option<Seq<char>>;

/// The serialization a `url::Url` value holds; `url::Url::as_str` returns it.
pub uninterp spec fn url_serialization(u: url::Url) -> Seq<char>;

/// Relies on url::Url::parse: it succeeds exactly when the input is a
/// well-formed absolute URL, and the value returned holds that parse's
/// serialization. A failure is carried as its displayed diagnostic.
#[verifier::external_body]
pub(crate) fn url_parse(s: &str) -> (r: Result<url::Url, String>)
    ensures
        r is Ok <==> url_parse_of(s@) is Some,
        r matches Ok(u) ==> Some(url_serialization(u)) == url_parse_of(s@),
{
    url::Url::parse(s).map_err(|e| e.to_string())
}

/// Relies on hostname::get: the local machine's host identity. The name
/// depends on the machine, so nothing is promised of either outcome; a
/// failure is carried as its displayed diagnostic.
#[verifier::external_body]
pub(crate) fn hostname_lookup() -> (r: Result<String, String>) {
    match hostname::get() {
        Ok(h) => Ok(h.to_string_lossy().into_owned()),
        Err(e) => Err(e.to_string()),
    }
}

} // verus!
