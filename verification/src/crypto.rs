//! Signature verification and hashing utilities.
//!
//! The hash and public-key-recovery primitives are the host's; their results
//! are pure functions of their inputs, so they enter the proofs under names
//! — [`blake2b256_of`], [`ecdsa_recover_of`], [`eth_address_of`] — and the
//! decisions built on them are verified.

use vstd::prelude::*;

use crate::types::{account_eq, AccountId};

verus! {

broadcast use vstd::array::group_array_axioms;

/// Errors of the crypto utilities.
#[derive(Clone, Debug, PartialEq, Eq)]
pub enum CryptoError {
    /// Public-key recovery failed.
    EcdsaRecoverFailed,
    /// Deriving an Ethereum address from a public key failed.
    EcdsaToEthAddressFailed,
    /// Anything else, described in words.
    Other(String),
}

/// The BLAKE2b 256-bit digest of a byte string; it depends on the bytes
/// alone.
pub uninterp spec fn blake2b256_of(input: Seq<u8>) -> Seq<u8>;

/// Relies on the host's BLAKE2b-256 hash (`ink::env::hash_bytes`): the
/// 32-byte digest of the input, a pure function of it.
#[verifier::external_body]
pub fn hash_blake2b256(input: &[u8]) -> (r: [u8; 32])
    ensures
        r@ == blake2b256_of(input@),
{
    let mut output = [0u8; 32];
    ink::env::hash_bytes::<ink::env::hash::Blake2x256>(input, &mut output);
    output
}

/// Converts a compressed public key to SS58 form: its BLAKE2b-256 digest as
/// an account identifier.
pub fn pub_key_to_ss58(pub_key: &[u8; 33]) -> (r: AccountId)
    ensures
        r.0@ == blake2b256_of(pub_key@),
{
    AccountId(hash_blake2b256(pub_key.as_slice()))
}

/// The Ethereum address a compressed public key maps to: `Some` for a key
/// that parses as a curve point, `None` otherwise; it depends on the key
/// alone.
pub uninterp spec fn eth_address_of(pub_key: Seq<u8>) -> Option<Seq<u8>>;

/// Relies on the host's `ink::env::ecdsa_to_eth_address`: the Keccak-derived
/// address of a compressed public key, failing exactly on keys that do not
/// parse.
#[verifier::external_body]
fn ecdsa_to_eth_address(pub_key: &[u8; 33]) -> (r: Result<[u8; 20], ()>)
    ensures
        match r {
            Ok(addr) => eth_address_of(pub_key@) == Some(addr@),
            Err(_) => eth_address_of(pub_key@) is None,
        },
{
    let mut output = [0u8; 20];
    match ink::env::ecdsa_to_eth_address(pub_key, &mut output) {
        Ok(_) => Ok(output),
        Err(_) => Err(()),
    }
}

/// Converts a public key to an Ethereum address.
pub fn pub_key_to_eth_address(pub_key: &[u8; 33]) -> (r: Result<[u8; 20], CryptoError>)
    ensures
        match r {
            Ok(addr) => eth_address_of(pub_key@) == Some(addr@),
            Err(e) => eth_address_of(pub_key@) is None && e
                == CryptoError::EcdsaToEthAddressFailed,
        },
{
    match ecdsa_to_eth_address(pub_key) {
        Ok(addr) => Ok(addr),
        Err(_) => Err(CryptoError::EcdsaToEthAddressFailed),
    }
}

/// The bytes of the secp256k1 group order, big-endian.
pub open spec fn secp256k1_order_bytes() -> Seq<u8> {
    seq![
        0xffu8, 0xff, 0xff, 0xff, 0xff, 0xff, 0xff, 0xff, 0xff, 0xff, 0xff, 0xff, 0xff, 0xff,
        0xff, 0xfe, 0xba, 0xae, 0xdc, 0xe6, 0xaf, 0x48, 0xa0, 0x3b, 0xbf, 0xd2, 0x5e, 0x8c,
        0xd0, 0x36, 0x41, 0x41,
    ]
}

/// Is `a` lexicographically below `b`? For big-endian scalars of equal
/// length this is exactly numeric order.
pub open spec fn lex_below(a: Seq<u8>, b: Seq<u8>) -> bool
    recommends
        a.len() == b.len(),
{
    exists|i: int|
        0 <= i < a.len() && (#[trigger] a[i]) < b[i] && (forall|j: int|
            0 <= j < i ==> a[j] == b[j])
}

/// A recoverable signature the host can parse: a recovery byte of `0..=3`,
/// raw or with the Bitcoin-style offset of 27, and `r` and `s` scalars below
/// the group order. The recovery primitive rejects everything else outright.
pub open spec fn ecdsa_sig_well_formed(sig: Seq<u8>) -> bool
    recommends
        sig.len() == 65,
{
    &&& (sig[64] < 4 || (27 <= sig[64] && sig[64] < 31))
    &&& lex_below(sig.subrange(0, 32), secp256k1_order_bytes())
    &&& lex_below(sig.subrange(32, 64), secp256k1_order_bytes())
}

/// What public-key recovery yields for a signature and a message hash:
/// `Some` compressed key or `None`; it depends on the two inputs alone.
pub uninterp spec fn ecdsa_recover_of(sig: Seq<u8>, message_hash: Seq<u8>) -> Option<Seq<u8>>;

/// Relies on the host's `ink::env::ecdsa_recover`: the compressed public key
/// behind a recoverable signature, failing exactly when recovery fails. The
/// primitive refuses a signature it cannot parse, so only well-formed ones
/// may reach it.
#[verifier::external_body]
fn ecdsa_recover(signature: &[u8; 65], message_hash: &[u8; 32]) -> (r: Result<[u8; 33], ()>)
    requires
        ecdsa_sig_well_formed(signature@),
    ensures
        match r {
            Ok(pk) => ecdsa_recover_of(signature@, message_hash@) == Some(pk@),
            Err(_) => ecdsa_recover_of(signature@, message_hash@) is None,
        },
{
    let mut output = [0u8; 33];
    match ink::env::ecdsa_recover(signature, message_hash, &mut output) {
        Ok(_) => Ok(output),
        Err(_) => Err(()),
    }
}

/// Is the 32-byte big-endian scalar at `sig[offset..offset + 32]` below the
/// secp256k1 group order?
fn scalar_below_order(sig: &[u8; 65], offset: usize) -> (r: bool)
    requires
        offset == 0 || offset == 32,
    ensures
        r == lex_below(
            sig@.subrange(offset as int, offset as int + 32),
            secp256k1_order_bytes(),
        ),
{
    let order: [u8; 32] = [
        0xff, 0xff, 0xff, 0xff, 0xff, 0xff, 0xff, 0xff, 0xff, 0xff, 0xff, 0xff, 0xff, 0xff,
        0xff, 0xfe, 0xba, 0xae, 0xdc, 0xe6, 0xaf, 0x48, 0xa0, 0x3b, 0xbf, 0xd2, 0x5e, 0x8c,
        0xd0, 0x36, 0x41, 0x41,
    ];
    proof {
        assert(order@ =~= secp256k1_order_bytes());
    }
    let ghost a = sig@.subrange(offset as int, offset as int + 32);
    let mut i: usize = 0;
    while i < 32
        invariant
            offset == 0 || offset == 32,
            i <= 32,
            order@ == secp256k1_order_bytes(),
            a == sig@.subrange(offset as int, offset as int + 32),
            forall|j: int| 0 <= j < i ==> a[j] == secp256k1_order_bytes()[j],
        decreases 32 - i,
    {
        let x = sig[offset + i];
        let o = order[i];
        proof {
            assert(a[i as int] == sig@[offset + i]);
        }
        if x < o {
            proof {
                assert(a[i as int] < secp256k1_order_bytes()[i as int]);
                assert(lex_below(a, secp256k1_order_bytes()));
            }
            return true;
        }
        if x > o {
            proof {
                assert forall|k: int|
                    0 <= k < a.len() && (#[trigger] a[k]) < secp256k1_order_bytes()[k] implies !(
                forall|j: int| 0 <= j < k ==> a[j] == secp256k1_order_bytes()[j]) by {
                    assert(a[i as int] != secp256k1_order_bytes()[i as int]);
                    assert(k > i);
                }
                assert(!lex_below(a, secp256k1_order_bytes()));
            }
            return false;
        }
        i = i + 1;
    }
    proof {
        assert forall|k: int|
            0 <= k < a.len() implies !((#[trigger] a[k]) < secp256k1_order_bytes()[k]) by {
            assert(a[k] == secp256k1_order_bytes()[k]);
        }
        assert(!lex_below(a, secp256k1_order_bytes()));
    }
    false
}

/// A signature, by algorithm; ECDSA carries the 65 recoverable bytes.
#[derive(Debug, PartialEq, Eq)]
pub enum Signature {
    /// An ECDSA recoverable signature.
    ECDSA([u8; 65]),
}

impl Signature {
    /// What verification means: the signature parses, public-key recovery
    /// over the BLAKE2b-256 hash of the message succeeds, and the recovered
    /// key's SS58 account is exactly `address`.
    pub open spec fn verify_spec(self, message: Seq<u8>, address: AccountId) -> bool {
        match self {
            Signature::ECDSA(sig) => ecdsa_sig_well_formed(sig@) && match ecdsa_recover_of(
                sig@,
                blake2b256_of(message),
            ) {
                Some(pk) => blake2b256_of(pk) == address.0@,
                None => false,
            },
        }
    }

    /// Verifies the signature of `message` against `address`: true exactly
    /// when the recovered signer is that account.
    pub fn verify(&self, message: &[u8], address: &AccountId) -> (r: bool)
        ensures
            r == self.verify_spec(message@, *address),
    {
        match self {
            Signature::ECDSA(sig) => {
                if !(sig[64] < 4 || (sig[64] >= 27 && sig[64] < 31)) {
                    return false;
                }
                if !scalar_below_order(sig, 0) {
                    return false;
                }
                if !scalar_below_order(sig, 32) {
                    return false;
                }
                let message_hash = hash_blake2b256(message);
                match ecdsa_recover(sig, &message_hash) {
                    Ok(output) => {
                        let ss58 = pub_key_to_ss58(&output);
                        let r = account_eq(&ss58, address);
                        proof {
                            if ss58.0@ == address.0@ {
                                assert(ss58.0 =~= address.0);
                            }
                        }
                        r
                    },
                    Err(_) => false,
                }
            },
        }
    }
}

} // verus!
