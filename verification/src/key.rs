use vstd::prelude::*;

verus! {

/// The cookie-signing master key of `axum_extra`, declared so that resolved
/// keys can be held and handed to the cookie-signing collaborator. The
/// library never looks inside a value of it.
#[verifier::external_type_specification]
#[verifier::external_body]
pub struct ExKey(axum_extra::extract::cookie::Key);

/// The byte material a key holds; `Key::master` returns it.
pub uninterp spec fn key_bytes(k: axum_extra::extract::cookie::Key) -> Seq<u8>;

/// Relies on cookie's Key::generate: a fresh key drawn from the operating
/// system's secure random source. Every key holds exactly 64 bytes of
/// material. Aborts the process only if that source itself fails.
#[verifier::external_body]
pub(crate) fn key_generate() -> (r: axum_extra::extract::cookie::Key)
    ensures
        key_bytes(r).len() == 64,
{
    axum_extra::extract::cookie::Key::generate()
}

/// Relies on cookie's Key::try_from for byte slices: it succeeds exactly on
/// 64 or more bytes of material and keeps the first 64; shorter material is
/// rejected, never padded.
#[verifier::external_body]
pub(crate) fn key_from_material(m: &[u8]) -> (r: Result<axum_extra::extract::cookie::Key, ()>)
    ensures
        r is Ok <==> m@.len() >= 64,
        r matches Ok(k) ==> key_bytes(k) == m@.take(64),
{
    axum_extra::extract::cookie::Key::try_from(m).map_err(|_| ())
}

} // verus!
