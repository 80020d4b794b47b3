//! String containers for credentials, password hashing and uuid minting,
//! and a character-wise string comparison.

use vstd::prelude::*;
use vstd::string::*;

verus! {

/// Character-wise equality of two string slices.
pub fn str_eq(a: &str, b: &str) -> (r: bool)
    ensures
        r == (a@ == b@),
{
    let n = a.unicode_len();
    if n != b.unicode_len() {
        return false;
    }
    let mut i: usize = 0;
    while i < n
        invariant
            n == a@.len(),
            n == b@.len(),
            0 <= i <= n,
            forall|j: int| 0 <= j < i ==> a@[j] == b@[j],
        decreases n - i,
    {
        if a.get_char(i) != b.get_char(i) {
            return false;
        }
        i += 1;
    }
    proof {
        assert(a@ =~= b@);
    }
    true
}

/// A bcrypt hash of a password, never the password itself.
pub struct HashedPassword(pub String);

/// A freshly minted identity token: 32 lowercase hex characters.
pub struct Uuid(pub String);

pub const HASH_STRENGTH: u32 = 8;

pub open spec fn is_lower_hex(c: char) -> bool {
    ('0' <= c && c <= '9') || ('a' <= c && c <= 'f')
}

/// Relies on bcrypt::hash: a successful hash is the 60-character bcrypt
/// string format, and it verifies against its own password — verify
/// reads the salt and cost back out of the hash string, and both sides
/// truncate the password identically at 72 bytes. The salt is drawn from
/// the OS, so nothing more is known of the result; failure is possible
/// (e.g. the OS entropy source).
#[verifier::external_body]
fn bcrypt_hash(password: &str, cost: u32) -> (r: Option<String>)
    requires
        4 <= cost <= 31,
    ensures
        r matches Some(h) ==> h@.len() == 60 && bcrypt_match(password@, h@) == Some(true),
{
    match bcrypt::hash(password, cost) {
        Ok(h) => Some(h),
        Err(_) => None,
    }
}

/// What bcrypt::verify answers for a password against a stored hash:
/// `Some(true)` on a match, `Some(false)` on a mismatch, `None` for a
/// malformed hash. The result depends on the two strings alone.
pub uninterp spec fn bcrypt_match(password: Seq<char>, hashed: Seq<char>) -> Option<bool>;

/// Relies on bcrypt::verify: deterministic in the password and the hash
/// (the salt and cost are read back out of the hash string); it errors
/// exactly on hashes not in bcrypt format.
#[verifier::external_body]
pub fn bcrypt_verify(password: &str, hashed: &str) -> (r: Option<bool>)
    ensures
        r == bcrypt_match(password@, hashed@),
{
    match bcrypt::verify(password, hashed) {
        Ok(b) => Some(b),
        Err(_) => None,
    }
}

/// Relies on uuid::Uuid::new_v4 rendered in the simple format: 32
/// lowercase hex characters. The value is random; only its shape is known.
#[verifier::external_body]
fn fresh_uuid_string() -> (r: String)
    ensures
        r@.len() == 32,
        forall|i: int| 0 <= i < r@.len() ==> is_lower_hex(#[trigger] r@[i]),
{
    uuid::Uuid::new_v4().simple().to_string()
}

/// Hashes a password for storage: a fresh hash verifies against the
/// password it was made from. Failure (the hashing backend declining)
/// surfaces as a client-visible token.
pub fn hash_password(password: &str) -> (r: Result<HashedPassword, String>)
    ensures
        r matches Ok(hp) ==> hp.0@.len() == 60 && bcrypt_match(password@, hp.0@) == Some(true),
        r matches Err(msg) ==> msg@ == "PW_HASHING_FAILED"@,
{
    match bcrypt_hash(password, HASH_STRENGTH) {
        Some(pw) => Ok(HashedPassword(pw)),
        None => Err("PW_HASHING_FAILED".to_owned()),
    }
}

/// Whether `s` begins with the characters of `prefix`.
pub fn str_starts_with(s: &str, prefix: &str) -> (r: bool)
    ensures
        r == (s@.len() >= prefix@.len() && s@.subrange(0, prefix@.len() as int) == prefix@),
{
    let np = prefix.unicode_len();
    let ns = s.unicode_len();
    if ns < np {
        return false;
    }
    let mut i: usize = 0;
    while i < np
        invariant
            np == prefix@.len(),
            ns == s@.len(),
            np <= ns,
            0 <= i <= np,
            forall|j: int| 0 <= j < i ==> s@[j] == prefix@[j],
        decreases np - i,
    {
        if s.get_char(i) != prefix.get_char(i) {
            proof {
                assert(s@.subrange(0, prefix@.len() as int)[i as int] == s@[i as int]);
            }
            return false;
        }
        i += 1;
    }
    proof {
        assert(s@.subrange(0, prefix@.len() as int) =~= prefix@);
    }
    true
}

/// What str::to_lowercase returns: a function of the characters alone.
pub uninterp spec fn lower_of(s: Seq<char>) -> Seq<char>;

/// Relies on str::to_lowercase: the result depends on the characters
/// alone, an empty string stays empty, and a string made of lowercase
/// ASCII letters is returned unchanged (such characters are their own
/// lowercase form).
#[verifier::external_body]
pub fn lowercase(s: &str) -> (r: String)
    ensures
        r@ == lower_of(s@),
        s@.len() == 0 ==> r@.len() == 0,
        (forall|i: int| 0 <= i < s@.len() ==> 'a' <= #[trigger] s@[i] <= 'z') ==> r@ == s@,
{
    s.to_lowercase()
}

/// Mints a fresh identity token.
pub fn uuid() -> (r: Uuid)
    ensures
        r.0@.len() == 32,
        forall|i: int| 0 <= i < r.0@.len() ==> is_lower_hex(#[trigger] r.0@[i]),
{
    Uuid(fresh_uuid_string())
}

} // verus!
