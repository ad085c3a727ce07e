use pendzl::crypto::{
    hash_blake2b256, pub_key_to_eth_address, pub_key_to_ss58, CryptoError, Signature,
};
use pendzl::hashing::ConstHasher;
use pendzl::types::AccountId;

// A recoverable ECDSA signature over MESSAGE_HASH and the key it recovers to.
const SIGNATURE: [u8; 65] = [
    195, 218, 227, 165, 226, 17, 25, 160, 37, 92, 142, 238, 4, 41, 244, 211, 18, 94, 131, 116,
    231, 116, 255, 164, 252, 248, 85, 233, 173, 225, 26, 185, 119, 235, 137, 35, 204, 251, 134,
    131, 186, 215, 76, 112, 17, 192, 114, 243, 102, 166, 176, 140, 180, 124, 213, 102, 117, 212,
    89, 89, 92, 209, 116, 17, 28,
];

const COMPRESSED_PUBLIC_KEY: [u8; 33] = [
    3, 110, 192, 35, 209, 24, 189, 55, 218, 250, 100, 89, 40, 76, 222, 208, 202, 127, 31, 13, 58,
    51, 242, 179, 13, 63, 19, 22, 252, 164, 226, 248, 98,
];

#[test]
fn const_hasher_empty_string() {
    assert_eq!(ConstHasher::hash(""), 0x02cc_5d05);
}

#[test]
fn const_hasher_known_vector() {
    assert_eq!(
        ConstHasher::hash("Nobody inspects the spammish repetition"),
        0xe229_3b2f
    );
}

#[test]
fn const_hasher_distinguishes_paths() {
    assert_ne!(
        ConstHasher::hash("contracts::psp22::Data"),
        ConstHasher::hash("contracts::psp34::Data")
    );
}

#[test]
fn blake2b256_known_vector() {
    let digest = hash_blake2b256(&[]);
    let expected: [u8; 32] = [
        0x0e, 0x57, 0x51, 0xc0, 0x26, 0xe5, 0x43, 0xb2, 0xe8, 0xab, 0x2e, 0xb0, 0x60, 0x99,
        0xda, 0xa1, 0xd1, 0xe5, 0xdf, 0x47, 0x77, 0x8f, 0x77, 0x87, 0xfa, 0xab, 0x45, 0xcd,
        0xf1, 0x2f, 0xe3, 0xa8,
    ];
    assert_eq!(digest, expected);
}

#[test]
fn pub_key_to_ss58_is_blake2_of_key() {
    let account = pub_key_to_ss58(&COMPRESSED_PUBLIC_KEY);
    assert_eq!(account.0, hash_blake2b256(&COMPRESSED_PUBLIC_KEY));
}

#[test]
fn pub_key_to_eth_address_known_vector() {
    let address = pub_key_to_eth_address(&COMPRESSED_PUBLIC_KEY).unwrap();
    let expected: [u8; 20] = [
        253, 240, 181, 194, 143, 66, 163, 109, 18, 211, 78, 49, 177, 94, 159, 79, 207, 37, 21,
        191,
    ];
    assert_eq!(address, expected);
}

#[test]
fn pub_key_to_eth_address_rejects_invalid_key() {
    let res = pub_key_to_eth_address(&[0u8; 33]);
    assert_eq!(res, Err(CryptoError::EcdsaToEthAddressFailed));
}

#[test]
fn signature_verify_accepts_the_signer() {
    // Recover the key the host sees for this message, independently of the
    // library, and check that `verify` agrees that its account signed.
    let message = b"hello world";
    let digest = hash_blake2b256(message);
    let mut recovered = [0u8; 33];
    ink::env::ecdsa_recover(&SIGNATURE, &digest, &mut recovered)
        .expect("recovery of a well-formed signature");
    let signer = pub_key_to_ss58(&recovered);
    let sig = Signature::ECDSA(SIGNATURE);
    assert!(sig.verify(message, &signer));
}

#[test]
fn signature_verify_rejects_wrong_address() {
    let message = b"hello world";
    let sig = Signature::ECDSA(SIGNATURE);
    let stranger = AccountId([0x11; 32]);
    assert!(!sig.verify(message, &stranger));
}

#[test]
fn signature_verify_rejects_bad_recovery_byte() {
    let mut bytes = SIGNATURE;
    bytes[64] = 5;
    let sig = Signature::ECDSA(bytes);
    let signer = pub_key_to_ss58(&COMPRESSED_PUBLIC_KEY);
    assert!(!sig.verify(b"hello world", &signer));
}

#[test]
fn signature_verify_rejects_oversized_scalar() {
    let mut bytes = SIGNATURE;
    for b in bytes.iter_mut().take(32) {
        *b = 0xff;
    }
    let sig = Signature::ECDSA(bytes);
    let signer = pub_key_to_ss58(&COMPRESSED_PUBLIC_KEY);
    assert!(!sig.verify(b"hello world", &signer));
}
