use vstd::prelude::*;
use hmac::Mac;

verus! {

/// HMAC-SHA256 of `msg` under `key`, as the `hmac` crate computes it with `sha2::Sha256`.
pub uninterp spec fn hmac_sha256(key: Seq<u8>, msg: Seq<u8>) -> Seq<u8>;

/// Calls `KeyInit::new_from_slice(key)` on `hmac::Hmac<sha2::Sha256>`, then `update(msg)`
/// and `finalize().into_bytes()`. Trusted: the tag is `hmac_sha256(key, msg)` and,
/// SHA-256 having a 32-byte output, is 32 bytes long. `HmacCore::new_from_slice` takes
/// keys of any length and always returns `Ok`, so the `expect` never fires.
#[verifier::external_body]
pub(crate) fn hmac_tag(key: &[u8], msg: &[u8]) -> (tag: Vec<u8>)
    ensures
        tag@ == hmac_sha256(key@, msg@),
        tag@.len() == 32,
{
    let mut mac = <hmac::Hmac<sha2::Sha256> as hmac::KeyInit>::new_from_slice(key).expect("any key length");
    mac.update(msg);
    mac.finalize().into_bytes().to_vec()
}

/// Calls `Mac::verify_slice(tag)` on `hmac::Hmac<sha2::Sha256>` keyed with `key` after
/// `update(msg)`. Trusted: it succeeds exactly when `tag` equals the HMAC-SHA256 tag of
/// `msg` (the source rejects a tag whose length differs from 32, then compares the bytes
/// in constant time).
#[verifier::external_body]
pub(crate) fn hmac_verify(key: &[u8], msg: &[u8], tag: &[u8]) -> (ok: bool)
    ensures
        ok == (tag@ == hmac_sha256(key@, msg@)),
{
    let mut mac = <hmac::Hmac<sha2::Sha256> as hmac::KeyInit>::new_from_slice(key).expect("any key length");
    mac.update(msg);
    mac.verify_slice(tag).is_ok()
}

/// `getrandom::Error`, declared so that `fill_random` can hand it back; nothing in it is
/// read.
#[verifier::external_type_specification]
#[verifier::external_body]
pub struct ExGetrandomError(getrandom::Error);

/// Calls `getrandom::fill` on the buffer. Trusted: the buffer keeps its length; its
/// bytes come from the system's random source, so nothing is said of their values.
/// An empty buffer is not handed to the system at all (`fill_uninit` only calls the
/// backend for a non-empty buffer) and the call returns `Ok`.
#[verifier::external_body]
fn fill_random(buf: &mut Vec<u8>) -> (r: Result<(), getrandom::Error>)
    ensures
        final(buf)@.len() == old(buf)@.len(),
        old(buf)@.len() == 0 ==> r is Ok,
{
    getrandom::fill(buf.as_mut_slice())
}

/// `n` random bytes, or `None` when the system's random source fails; asking for no
/// bytes always succeeds, since the source is then not consulted.
pub fn rand_bytes(n: usize) -> (r: Option<Vec<u8>>)
    ensures
        r matches Some(v) ==> v@.len() == n,
        n == 0 ==> r is Some,
{
    let mut buf: Vec<u8> = Vec::new();
    for i in 0..n
        invariant
            buf@.len() == i,
    {
        buf.push(0u8);
    }
    match fill_random(&mut buf) {
        Ok(()) => Some(buf),
        Err(_) => None,
    }
}

} // verus!
