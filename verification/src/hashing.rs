use vstd::prelude::*;
use crate::text::{
    all_digits, decimal, digits_value, hex, hex_value, law_decimal_is_standard_text,
    law_hex_is_lower_case_text,
};

verus! {

/// The host environment of the contract, used here for its hash function.
#[verifier::external_type_specification]
#[verifier::external_body]
pub struct ExEnv(soroban_sdk::Env);

/// The SHA-256 digest of `data`, as the host computes it.
pub uninterp spec fn sha256_digest(data: Seq<u8>) -> Seq<u8>;

/// Calls `soroban_sdk::crypto::Crypto::sha256` on the bytes of `data`.
/// Claimed: the returned digest is a function of `data` alone, named
/// `sha256_digest`. Left unsaid: the host charges the call to its budget and
/// panics once the budget is spent, which depends on the environment.
#[verifier::external_body]
pub(crate) fn sha256(env: &soroban_sdk::Env, data: &Vec<u8>) -> (digest: Vec<u8>)
    ensures
        digest@ == sha256_digest(data@),
{
    let bytes = soroban_sdk::Bytes::from_slice(env, data.as_slice());
    env.crypto().sha256(&bytes).to_array().to_vec()
}

/// The bytes that a commitment hashes: the decimal text of the amount
/// followed by the secret.
pub open spec fn commitment_preimage(bid_amount: u64, secret: Seq<u8>) -> Seq<u8> {
    decimal(bid_amount as nat) + secret
}

/// The commitment to a bid: the lower-case hexadecimal text of the SHA-256
/// digest of its preimage.
pub open spec fn commitment_of(bid_amount: u64, secret: Seq<u8>) -> Seq<u8> {
    hex(sha256_digest(commitment_preimage(bid_amount, secret)))
}

/// A commitment hashes the standard decimal text of the amount (digits only,
/// denoting the amount, no leading zero) directly followed by the secret, and
/// is the lower-case hexadecimal text of that digest, two digits per byte.
pub proof fn law_commitment_text(bid_amount: u64, secret: Seq<u8>)
    ensures
        ({
            let digits = commitment_preimage(bid_amount, secret).subrange(
                0,
                commitment_preimage(bid_amount, secret).len() - secret.len(),
            );
            let digest = sha256_digest(commitment_preimage(bid_amount, secret));
            &&& commitment_preimage(bid_amount, secret) == digits + secret
            &&& all_digits(digits)
            &&& digits_value(digits) == bid_amount
            &&& digits.len() >= 1
            &&& (bid_amount >= 1 ==> digits[0] != 48)
            &&& commitment_of(bid_amount, secret) == hex(digest)
            &&& commitment_of(bid_amount, secret).len() == 2 * digest.len()
            &&& forall|i: int|
                0 <= i < digest.len() ==> 16 * hex_value(#[trigger] commitment_of(bid_amount, secret)[2 * i])
                    + hex_value(commitment_of(bid_amount, secret)[2 * i + 1]) == digest[i]
        }),
{
    law_decimal_is_standard_text(bid_amount as nat);
    law_hex_is_lower_case_text(sha256_digest(commitment_preimage(bid_amount, secret)));
    let p = commitment_preimage(bid_amount, secret);
    assert(p.subrange(0, p.len() - secret.len()) =~= decimal(bid_amount as nat));
}

} // verus!
