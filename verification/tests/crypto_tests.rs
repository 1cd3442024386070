use rust_workshop::crypto::{
    derive_eth_keypair, eth_address, hash_blake3, hash_keccak256, hash_sha256,
    mnemonic_from_entropy, mnemonic_from_phrase, public_key_from_secret, sign_message,
    verify_message, MnemonicError,
};

fn secret_one() -> [u8; 32] {
    let mut s = [0u8; 32];
    s[31] = 1;
    s
}

#[test]
fn sha256_known_values() {
    assert_eq!(
        hash_sha256(""),
        "e3b0c44298fc1c149afbf4c8996fb92427ae41e4649b934ca495991b7852b855"
    );
    assert_eq!(
        hash_sha256("abc"),
        "ba7816bf8f01cfea414140de5dae2223b00361a396177a9cb410ff61f20015ad"
    );
}

#[test]
fn blake3_known_value() {
    assert_eq!(
        hash_blake3(b""),
        "af1349b9f5f9a1a6a0404dea36dcc9499bcb25c9adc112b7cc9a93cae41f3262"
    );
    assert_eq!(hash_blake3(b"hello crypto").len(), 64);
}

#[test]
fn keccak_known_value() {
    let digest = hash_keccak256(b"");
    assert_eq!(
        hex::encode(digest),
        "c5d2460186f7233c927e7db2dcc703c0e500b653ca82273b7bfad8045d85a470"
    );
}

#[test]
fn address_of_secret_one() {
    let public = public_key_from_secret(&secret_one()).unwrap();
    assert_eq!(public.len(), 65);
    assert_eq!(public[0], 4);
    assert_eq!(eth_address(&public), "0x7e5f4552091a69125d5dfcb7b8c2659029395bdf");
}

#[test]
fn zero_is_no_secret_key() {
    assert_eq!(public_key_from_secret(&[0u8; 32]), None);
    assert_eq!(sign_message(&[0u8; 32], "hello"), None);
    assert_eq!(public_key_from_secret(&[0xff; 32]), None);
}

#[test]
fn signatures_verify_and_detect_tampering() {
    let secret = secret_one();
    let public = public_key_from_secret(&secret).unwrap();
    let sig = sign_message(&secret, "hello crypto").unwrap();
    assert_eq!(sig.len(), 64);
    assert!(verify_message(&public, "hello crypto", &sig));
    assert!(!verify_message(&public, "evil", &sig));
    assert!(!verify_message(&[1, 2, 3], "hello crypto", &sig));
    assert!(!verify_message(&public, "hello crypto", &sig[..10]));
    assert_eq!(sign_message(&secret, "hello crypto").unwrap(), sig);
}

#[test]
fn mnemonic_round_trip() {
    let m = mnemonic_from_entropy(&[0u8; 16]);
    assert_eq!(
        m.phrase(),
        "abandon abandon abandon abandon abandon abandon abandon abandon abandon abandon abandon about"
    );
    let seed = m.to_seed("").unwrap();
    assert_eq!(
        hex::encode(seed),
        "5eb00bbddcf069084889a8ab9155568165f5c453ccb85e70811aaed6f6da5fc19a5ac40b389cd370d086206dec8aa6c43daea6690f20ad3d8d48b2d2ce9e38e4"
    );
    let parsed = mnemonic_from_phrase(m.phrase()).ok().unwrap();
    assert_eq!(parsed.phrase(), m.phrase());
}

#[test]
fn bad_phrases_are_refused() {
    assert_eq!(mnemonic_from_phrase("abandon abandon").err(), Some(MnemonicError::BadWordCount(2)));
    let bad_checksum = "abandon abandon abandon abandon abandon abandon abandon abandon abandon abandon abandon abandon";
    assert_eq!(mnemonic_from_phrase(bad_checksum).err(), Some(MnemonicError::InvalidChecksum));
    let unknown = "abandon abandon abandon abandon abandon abandon abandon abandon abandon abandon abandon zzzz";
    assert!(mnemonic_from_phrase(unknown).is_err());
}

#[test]
fn derived_accounts_match_known_addresses() {
    let seed = mnemonic_from_entropy(&[0u8; 16]).to_seed("").unwrap();
    let (secret, public) = derive_eth_keypair(&seed, 0).unwrap();
    assert_eq!(eth_address(&public), "0x9858effd232b4033e47d90003d41ec34ecaeda94");
    assert_eq!(public_key_from_secret(&secret), Some(public));
    let (_, public1) = derive_eth_keypair(&seed, 1).unwrap();
    assert_ne!(eth_address(&public1), "0x9858effd232b4033e47d90003d41ec34ecaeda94");
    assert!(derive_eth_keypair(&[1u8; 8], 0).is_none());
}

#[test]
fn sixteen_bytes_of_entropy_give_twelve_words() {
    for e in [[0u8; 16], [0xffu8; 16], [0x5au8; 16]] {
        let m = mnemonic_from_entropy(&e);
        assert_eq!(m.phrase().split_whitespace().count(), 12);
        assert_eq!(m.phrase().split(' ').count(), 12);
    }
}
