//! The reversible id codec: published albums are addressed by a short,
//! URL-safe transform of their numeric id rather than the id itself. The
//! transform is the hashids scheme as the `harsh` crate implements it,
//! configured with a salt and its default alphabet; an id travels through
//! it as its decimal digit string.

use vstd::prelude::*;
use crate::decimal::{dec_rep, is_dec_digit, lemma_dec_rep_val, parse_dec_i32};
use crate::util::is_lower_hex;

verus! {

#[verifier::external_type_specification]
#[verifier::external_body]
pub struct ExHarsh(harsh::Harsh);

/// What the codec emits for a string of hex digits under a salt: a
/// function of the two strings alone.
pub uninterp spec fn hash_encoded(salt: Seq<char>, digits: Seq<char>) -> Seq<char>;

/// What the codec recovers from an input under a salt: the digit string
/// it decodes to, or nothing when no encode under this salt produced the
/// input.
pub uninterp spec fn hash_decoded(salt: Seq<char>, input: Seq<char>) -> Option<Seq<char>>;

/// A hashids codec fixed to one salt and the default alphabet.
pub struct Codec {
    salt: String,
    harsh: harsh::Harsh,
}

impl Codec {
    /// The salt this codec was built with.
    pub closed spec fn spec_salt(self) -> Seq<char> {
        self.salt@
    }

    /// Relies on harsh::HarshBuilder::build: with the default alphabet
    /// (62 distinct characters, far above the required 16) it succeeds
    /// for every salt, so the codec always comes into being.
    #[verifier::external_body]
    pub fn new(salt: &str) -> (c: Codec)
        ensures
            c.spec_salt() == salt@,
    {
        let harsh = harsh::HarshBuilder::new().salt(salt).build().expect(
            "the default alphabet always builds",
        );
        Codec { salt: salt.to_owned(), harsh }
    }
}

/// Relies on harsh::Harsh::encode_hex: deterministic in the salt and the
/// digits. A non-empty string of lowercase hex digits always encodes
/// (each 12-digit chunk is parsed with a leading 1 into a value far below
/// the 64-bit bound), and decode_hex inverts the result exactly (decode
/// checks itself by re-encoding, and the per-chunk leading digit is
/// stripped back off).
#[verifier::external_body]
fn harsh_encode_hex(c: &Codec, digits: &str) -> (r: Option<String>)
    requires
        digits@.len() > 0,
        forall|i: int| 0 <= i < digits@.len() ==> is_lower_hex(#[trigger] digits@[i]),
    ensures
        r is Some,
        r matches Some(s) ==> s@ == hash_encoded(c.spec_salt(), digits@) && hash_decoded(
            c.spec_salt(),
            s@,
        ) == Some(digits@),
{
    match c.harsh.encode_hex(digits) {
        Ok(s) => Some(s),
        Err(_) => None,
    }
}

/// Relies on harsh::Harsh::decode_hex: deterministic in the salt and the
/// input. It rejects inputs no encode produced (it re-encodes its result
/// and compares), and its arithmetic is checked, so arbitrary input is
/// answered, never panicked on.
#[verifier::external_body]
pub(crate) fn harsh_decode_hex(c: &Codec, input: &str) -> (r: Option<String>)
    ensures
        match r {
            Some(s) => hash_decoded(c.spec_salt(), input@) == Some(s@),
            None => hash_decoded(c.spec_salt(), input@) is None,
        },
{
    match c.harsh.decode_hex(input) {
        Ok(s) => Some(s),
        Err(_) => None,
    }
}

/// Encodes a non-negative id: its decimal digits, pushed through the
/// codec. Total: the codec accepts every such digit string.
pub fn encode_id(codec: &Codec, id: i32) -> (r: String)
    requires
        id >= 0,
    ensures
        r@ == hash_encoded(codec.spec_salt(), dec_rep(id as int)),
        hash_decoded(codec.spec_salt(), r@) == Some(dec_rep(id as int)),
{
    let digits = crate::decimal::u64_to_string(id as u64);
    proof {
        lemma_dec_rep_val(id as int);
        assert(forall|i: int|
            0 <= i < digits@.len() ==> is_lower_hex(#[trigger] digits@[i])) by {
            assert(forall|i: int|
                0 <= i < digits@.len() ==> is_dec_digit(#[trigger] digits@[i]));
        }
    }
    match harsh_encode_hex(codec, digits.as_str()) {
        Some(h) => h,
        None => {
            proof {
                assert(false);
            }
            String::new()
        },
    }
}

/// What a user-supplied hash stands for: the id whose decimal digits the
/// codec decodes it to, when it decodes and the digits parse.
pub open spec fn decoded_pub_id(salt: Seq<char>, hash: Seq<char>) -> Option<i32> {
    match hash_decoded(salt, hash) {
        Some(d) => parse_dec_i32(d),
        None => None,
    }
}

} // verus!
