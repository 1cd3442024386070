//! Hashing, secp256k1 keys and signatures, Ethereum addresses, BIP-32 key
//! derivation and BIP-39 mnemonics.
//!
//! The cryptographic primitives come from `sha2`, `blake3`, `tiny_keccak`,
//! `k256`, `coins_bip32` and `bip39`; keys, signatures and phrases travel
//! through this module as plain bytes and text.
use vstd::prelude::*;
use vstd::string::StringSliceAdditionalSpecFns;
use crate::collections::words_of;
use crate::text::{decimal, lemma_decimal_digits, push_decimal};
use k256::ecdsa::signature::{Signer, Verifier};
use sha2::Digest;
use tiny_keccak::Hasher;

verus! {

/// The lowercase hexadecimal digit for `d` (`0 <= d < 16`).
pub open spec fn hex_digit(d: int) -> char {
    if d < 10 {
        (48 + d) as char
    } else {
        (87 + d) as char
    }
}

/// Lowercase hexadecimal text of `bytes`: two digits per byte, high nibble
/// first.
pub open spec fn hex_of(bytes: Seq<u8>) -> Seq<char> {
    Seq::new(
        2 * bytes.len(),
        |i: int|
            if i % 2 == 0 {
                hex_digit((bytes[i / 2] / 16) as int)
            } else {
                hex_digit((bytes[i / 2] % 16) as int)
            },
    )
}

/// `hex::encode`: two lowercase hexadecimal digits per byte, high nibble
/// first (the crate's table is `0123456789abcdef`).
#[verifier::external_body]
fn hex_encode(data: &[u8]) -> (r: String)
    ensures
        r@ == hex_of(data@),
{
    hex::encode(data)
}

/// The SHA-256 digest of `data`.
pub uninterp spec fn sha256_of(data: Seq<u8>) -> Seq<u8>;

/// The BLAKE3 hash (32 bytes) of `data`.
pub uninterp spec fn blake3_of(data: Seq<u8>) -> Seq<u8>;

/// The Keccak-256 digest of `data` (Ethereum's variant, not SHA3-256).
pub uninterp spec fn keccak256_of(data: Seq<u8>) -> Seq<u8>;

/// `sha2::Sha256`: the digest is named [`sha256_of`]; it has 32 bytes.
#[verifier::external_body]
fn sha256_digest(data: &[u8]) -> (r: Vec<u8>)
    ensures
        r@ == sha256_of(data@),
        r@.len() == 32,
{
    let mut hasher = sha2::Sha256::new();
    hasher.update(data);
    hasher.finalize().to_vec()
}

/// `blake3::hash`: the hash is named [`blake3_of`]; it has 32 bytes.
#[verifier::external_body]
fn blake3_digest(data: &[u8]) -> (r: Vec<u8>)
    ensures
        r@ == blake3_of(data@),
        r@.len() == 32,
{
    blake3::hash(data).as_bytes().to_vec()
}

/// `tiny_keccak::Keccak::v256`: the digest is named [`keccak256_of`].
#[verifier::external_body]
fn keccak256_digest(data: &[u8]) -> (r: [u8; 32])
    ensures
        r@ == keccak256_of(data@),
{
    let mut hasher = tiny_keccak::Keccak::v256();
    let mut output = [0u8; 32];
    hasher.update(data);
    hasher.finalize(&mut output);
    output
}

/// The SHA-256 digest of the text's UTF-8 bytes, in lowercase hex.
pub fn hash_sha256(input: &str) -> (r: String)
    ensures
        r@ == hex_of(sha256_of(input.spec_bytes())),
        r@.len() == 64,
{
    let digest = sha256_digest(input.as_bytes());
    hex_encode(digest.as_slice())
}

/// The BLAKE3 hash of the bytes, in lowercase hex.
pub fn hash_blake3(input: &[u8]) -> (r: String)
    ensures
        r@ == hex_of(blake3_of(input@)),
        r@.len() == 64,
{
    let digest = blake3_digest(input);
    hex_encode(digest.as_slice())
}

/// The Keccak-256 digest of the bytes.
pub fn hash_keccak256(input: &[u8]) -> (r: [u8; 32])
    ensures
        r@ == keccak256_of(input@),
{
    keccak256_digest(input)
}

/// The uncompressed SEC1 public key (65 bytes, starting with 4) of a
/// secp256k1 secret scalar, or `None` when the bytes are no valid scalar
/// (zero, or not below the group order).
pub uninterp spec fn secp256k1_public_key(secret: Seq<u8>) -> Option<Seq<u8>>;

/// The ECDSA/secp256k1 signature (64 bytes, `r` then `s`) of `message`,
/// hashed with SHA-256, under `secret`, with the nonce chosen by RFC 6979;
/// `None` when the secret is no valid scalar.
pub uninterp spec fn secp256k1_signature(secret: Seq<u8>, message: Seq<u8>) -> Option<Seq<u8>>;

/// Whether `signature` is a valid ECDSA/secp256k1 signature of `message`
/// under the SEC1-encoded `public_key` (false when either does not parse).
pub uninterp spec fn secp256k1_accepts(public_key: Seq<u8>, message: Seq<u8>, signature: Seq<u8>) -> bool;

/// The bytes inside an optional vector.
pub open spec fn opt_bytes(o: Option<Vec<u8>>) -> Option<Seq<u8>> {
    match o {
        Some(v) => Some(v@),
        None => None,
    }
}

/// `k256::ecdsa::SigningKey::from_bytes` followed by the verifying key's
/// `to_encoded_point(false)`. The key is named [`secp256k1_public_key`];
/// the SEC1 uncompressed form has 65 bytes and starts with 4.
#[verifier::external_body]
fn secp256k1_public(secret: &[u8; 32]) -> (r: Option<Vec<u8>>)
    ensures
        opt_bytes(r) == secp256k1_public_key(secret@),
        r matches Some(p) ==> p@.len() == 65 && p@[0] == 4,
{
    match k256::ecdsa::SigningKey::from_bytes(&(*secret).into()) {
        Ok(key) => Some(key.verifying_key().to_encoded_point(false).as_bytes().to_vec()),
        Err(_) => None,
    }
}

/// `k256::ecdsa::SigningKey::from_bytes` followed by `Signer::sign`. The
/// signature is named [`secp256k1_signature`]; it exists exactly when the
/// secret is a valid key (the same `from_bytes` decides), has 64 bytes,
/// and the crate's documented round trip holds: the matching verifying key
/// accepts it.
#[verifier::external_body]
fn secp256k1_sign(secret: &[u8; 32], message: &[u8]) -> (r: Option<Vec<u8>>)
    ensures
        opt_bytes(r) == secp256k1_signature(secret@, message@),
        r is Some <==> secp256k1_public_key(secret@) is Some,
        r matches Some(sig) ==> sig@.len() == 64 && secp256k1_accepts(
            secp256k1_public_key(secret@)->0,
            message@,
            sig@,
        ),
{
    match k256::ecdsa::SigningKey::from_bytes(&(*secret).into()) {
        Ok(key) => {
            let signature: k256::ecdsa::Signature = key.sign(message);
            Some(signature.to_bytes().to_vec())
        },
        Err(_) => None,
    }
}

/// `k256::ecdsa::VerifyingKey::from_sec1_bytes`, `Signature::from_slice`
/// and `Verifier::verify`; the answer is named [`secp256k1_accepts`].
#[verifier::external_body]
fn secp256k1_verify(public_key: &[u8], message: &[u8], signature: &[u8]) -> (r: bool)
    ensures
        r == secp256k1_accepts(public_key@, message@, signature@),
{
    match (
        k256::ecdsa::VerifyingKey::from_sec1_bytes(public_key),
        k256::ecdsa::Signature::from_slice(signature),
    ) {
        (Ok(key), Ok(sig)) => key.verify(message, &sig).is_ok(),
        _ => false,
    }
}

/// The uncompressed public key of a secret key, or `None` when the bytes
/// are no valid secret key.
pub fn public_key_from_secret(secret: &[u8; 32]) -> (r: Option<Vec<u8>>)
    ensures
        opt_bytes(r) == secp256k1_public_key(secret@),
        r matches Some(p) ==> p@.len() == 65 && p@[0] == 4,
{
    secp256k1_public(secret)
}

/// Signs the text's UTF-8 bytes (ECDSA over SHA-256); `None` when the
/// secret is no valid key. The signature has 64 bytes, and the matching
/// public key accepts it.
pub fn sign_message(secret: &[u8; 32], message: &str) -> (r: Option<Vec<u8>>)
    ensures
        opt_bytes(r) == secp256k1_signature(secret@, message.spec_bytes()),
        r is Some <==> secp256k1_public_key(secret@) is Some,
        r matches Some(sig) ==> sig@.len() == 64 && secp256k1_accepts(
            secp256k1_public_key(secret@)->0,
            message.spec_bytes(),
            sig@,
        ),
{
    secp256k1_sign(secret, message.as_bytes())
}

/// Whether `signature` signs the text's UTF-8 bytes under `public_key`.
pub fn verify_message(public_key: &[u8], message: &str, signature: &[u8]) -> (r: bool)
    ensures
        r == secp256k1_accepts(public_key@, message.spec_bytes(), signature@),
{
    secp256k1_verify(public_key, message.as_bytes(), signature)
}

/// The Ethereum address of an uncompressed public key: `0x` and the last
/// 20 bytes of the Keccak-256 digest of the key without its leading byte.
pub open spec fn eth_address_of(public_key: Seq<u8>) -> Seq<char> {
    "0x"@ + hex_of(keccak256_of(public_key.skip(1)).skip(12))
}

/// The Ethereum address of an uncompressed SEC1 public key (65 bytes, as
/// [`public_key_from_secret`] gives it); the leading format byte is cut
/// off, which needs at least one byte.
pub fn eth_address(public_key: &[u8]) -> (r: String)
    requires
        public_key@.len() >= 1,
    ensures
        r@ == eth_address_of(public_key@),
{
    let body = vstd::slice::slice_subrange(public_key, 1, public_key.len());
    assert(body@ =~= public_key@.skip(1));
    let hash = keccak256_digest(body);
    let tail = vstd::slice::slice_subrange(hash.as_slice(), 12, 32);
    assert(tail@ =~= keccak256_of(public_key@.skip(1)).skip(12));
    let mut s = String::from_str("0x");
    s.append(hex_encode(tail).as_str());
    s
}

/// The secret key (32 bytes) and uncompressed public key (65 bytes) that
/// BIP-32 derives from `seed` along `path`, or `None` when the seed is
/// refused or the path does not parse or cannot be followed.
pub uninterp spec fn bip32_child_keys(seed: Seq<u8>, path: Seq<char>) -> Option<(Seq<u8>, Seq<u8>)>;

/// `coins_bip32`: `XPriv::root_from_seed`, the path parsed as a
/// `DerivationPath`, `derive_path`, then the child's signing key bytes and
/// uncompressed verifying key. The pair is named [`bip32_child_keys`]. The
/// source refuses seeds under 16 bytes; the public key is the one `k256`
/// computes from the secret (both come from the same signing key). Only
/// Ethereum account paths are admitted: the crate adds 2^31 to a hardened
/// component without an overflow check, which panics for components of
/// 2^31 and above.
#[verifier::external_body]
fn bip32_derive(seed: &[u8], path: &str) -> (r: Option<([u8; 32], Vec<u8>)>)
    requires
        exists|i: u32| path@ == eth_path(i),
    ensures
        (match r {
            Some(k) => Some((k.0@, k.1@)),
            None => None,
        }) == bip32_child_keys(seed@, path@),
        seed@.len() < 16 ==> r is None,
        r matches Some(k) ==> k.1@.len() == 65 && k.1@[0] == 4 && secp256k1_public_key(k.0@)
            == Some(k.1@),
{
    let path: coins_bip32::path::DerivationPath = path.parse().ok()?;
    let root = coins_bip32::xkeys::XPriv::root_from_seed(seed, None).ok()?;
    let child = root.derive_path(path).ok()?;
    let key: &k256::ecdsa::SigningKey = child.as_ref();
    let secret: [u8; 32] = key.to_bytes().into();
    Some((secret, key.verifying_key().to_encoded_point(false).as_bytes().to_vec()))
}

/// The BIP-44 path of the `index`-th Ethereum account key.
pub open spec fn eth_path(index: u32) -> Seq<char> {
    "m/44'/60'/0'/0/"@ + decimal(index as nat)
}

/// The account path is BIP-44's for Ethereum, written out: purpose `44'`,
/// coin type `60'`, account `0'`, the external chain `0`, and the account
/// index, in decimal, as the last component (which holds no `/`).
pub proof fn eth_path_is_bip44_external_chain(index: u32)
    ensures
        eth_path(index) == "m/44'/60'/0'/0/"@ + decimal(index as nat),
        eth_path(index).take(15) == seq!['m', '/', '4', '4', '\'', '/', '6', '0', '\'', '/', '0', '\'', '/', '0', '/'],
        eth_path(index).skip(15) == decimal(index as nat),
        forall|k: int| 15 <= k < eth_path(index).len() ==> eth_path(index)[k] != '/',
{
    reveal_strlit("m/44'/60'/0'/0/");
    let p = "m/44'/60'/0'/0/"@;
    assert(p =~= seq!['m', '/', '4', '4', '\'', '/', '6', '0', '\'', '/', '0', '\'', '/', '0', '/']);
    assert(eth_path(index).take(15) =~= p);
    assert(eth_path(index).skip(15) =~= decimal(index as nat));
    lemma_decimal_digits(index as nat);
}

/// The secret and public key of the `index`-th Ethereum account (BIP-44
/// path `m/44'/60'/0'/0/index`) of a seed, or `None` when derivation fails
/// (as for a seed under 16 bytes).
pub fn derive_eth_keypair(seed: &[u8], index: u32) -> (r: Option<([u8; 32], Vec<u8>)>)
    ensures
        (match r {
            Some(k) => Some((k.0@, k.1@)),
            None => None,
        }) == bip32_child_keys(seed@, eth_path(index)),
        (match r {
            Some(k) => Some((k.0@, k.1@)),
            None => None,
        }) == bip32_child_keys(seed@, "m/44'/60'/0'/0/"@ + decimal(index as nat)),
        seed@.len() < 16 ==> r is None,
        r matches Some(k) ==> secp256k1_public_key(k.0@) == Some(k.1@),
{
    let mut path = String::from_str("m/44'/60'/0'/0/");
    push_decimal(&mut path, index as u64);
    assert(path@ == eth_path(index));
    bip32_derive(seed, path.as_str())
}

/// Why a phrase or an entropy was refused.
#[derive(Debug, Clone, Copy, PartialEq, Eq)]
pub enum MnemonicError {
    /// The word count is not 12, 15, 18, 21 or 24.
    BadWordCount(usize),
    /// The word at this position is not in the word list.
    UnknownWord(usize),
    /// The entropy has a number of bits that BIP-39 does not allow.
    BadEntropyBitCount(usize),
    /// The checksum words do not match.
    InvalidChecksum,
    /// The words belong to several word lists.
    AmbiguousLanguages,
}

/// The English BIP-39 phrase of `entropy` (words joined by single spaces),
/// or `None` when the entropy is not 16 to 32 bytes in steps of 4.
pub uninterp spec fn bip39_phrase(entropy: Seq<u8>) -> Option<Seq<char>>;

/// The canonical phrase (normalized, words joined by single spaces) of a
/// mnemonic text, or why BIP-39 refuses it.
pub uninterp spec fn bip39_parsed(phrase: Seq<char>) -> Result<Seq<char>, MnemonicError>;

/// The 64-byte BIP-39 seed of a phrase and passphrase, or `None` when the
/// phrase does not parse.
pub uninterp spec fn bip39_seed(phrase: Seq<char>, passphrase: Seq<char>) -> Option<Seq<u8>>;

/// `bip39::Mnemonic::from_entropy_in` (English) and its `Display` text.
/// The phrase is named [`bip39_phrase`]; the source refuses exactly the
/// entropies whose bit count is not a multiple of 32 between 128 and 256.
/// It makes three words for every four bytes of entropy, and `Display`
/// writes them (word-list entries, without white space) separated by
/// single spaces.
#[verifier::external_body]
fn bip39_from_entropy(entropy: &[u8]) -> (r: Option<String>)
    ensures
        (match r {
            Some(s) => Some(s@),
            None => None,
        }) == bip39_phrase(entropy@),
        r is Some <==> (entropy@.len() % 4 == 0 && 16 <= entropy@.len() <= 32),
        r matches Some(s) ==> words_of(s@).len() == entropy@.len() * 3 / 4,
{
    match bip39::Mnemonic::from_entropy_in(bip39::Language::English, entropy) {
        Ok(m) => Some(m.to_string()),
        Err(_) => None,
    }
}

/// `bip39::Mnemonic::parse` and its `Display` text; the outcome is named
/// [`bip39_parsed`], with each error variant carried over.
#[verifier::external_body]
fn bip39_parse(phrase: &str) -> (r: Result<String, MnemonicError>)
    ensures
        (match r {
            Ok(s) => Ok(s@),
            Err(e) => Err(e),
        }) == bip39_parsed(phrase@),
{
    match bip39::Mnemonic::parse(phrase) {
        Ok(m) => Ok(m.to_string()),
        Err(bip39::Error::BadWordCount(n)) => Err(MnemonicError::BadWordCount(n)),
        Err(bip39::Error::UnknownWord(i)) => Err(MnemonicError::UnknownWord(i)),
        Err(bip39::Error::BadEntropyBitCount(n)) => Err(MnemonicError::BadEntropyBitCount(n)),
        Err(bip39::Error::InvalidChecksum) => Err(MnemonicError::InvalidChecksum),
        Err(bip39::Error::AmbiguousLanguages(_)) => Err(MnemonicError::AmbiguousLanguages),
    }
}

/// `bip39::Mnemonic::parse` then `to_seed`; the seed is named
/// [`bip39_seed`] and exists exactly when the phrase parses.
#[verifier::external_body]
fn bip39_to_seed(phrase: &str, passphrase: &str) -> (r: Option<[u8; 64]>)
    ensures
        (match r {
            Some(s) => Some(s@),
            None => None,
        }) == bip39_seed(phrase@, passphrase@),
        r is Some <==> bip39_parsed(phrase@) is Ok,
{
    match bip39::Mnemonic::parse(phrase) {
        Ok(m) => Some(m.to_seed(passphrase)),
        Err(_) => None,
    }
}

/// A BIP-39 mnemonic, held as its canonical phrase.
pub struct Mnemonic {
    phrase: String,
}

impl Mnemonic {
    /// The words, joined by single spaces.
    pub closed spec fn words(&self) -> Seq<char> {
        self.phrase@
    }

    /// The words, joined by single spaces.
    pub fn phrase(&self) -> (r: &str)
        ensures
            r@ == self.words(),
    {
        self.phrase.as_str()
    }

    /// The 64-byte seed for a passphrase (`""` for none), or `None` when the
    /// phrase does not parse.
    pub fn to_seed(&self, passphrase: &str) -> (r: Option<[u8; 64]>)
        ensures
            (match r {
                Some(s) => Some(s@),
                None => None,
            }) == bip39_seed(self.words(), passphrase@),
    {
        bip39_to_seed(self.phrase.as_str(), passphrase)
    }
}

/// The English mnemonic of 16 bytes of entropy (12 words).
pub fn mnemonic_from_entropy(entropy: &[u8; 16]) -> (r: Mnemonic)
    ensures
        bip39_phrase(entropy@) == Some(r.words()),
        words_of(r.words()).len() == 12,
{
    match bip39_from_entropy(entropy.as_slice()) {
        Some(phrase) => Mnemonic { phrase },
        None => {
            assert(false);
            Mnemonic { phrase: String::new() }
        },
    }
}

/// Reads a mnemonic from its words (to import an existing wallet).
pub fn mnemonic_from_phrase(phrase: &str) -> (r: Result<Mnemonic, MnemonicError>)
    ensures
        (match r {
            Ok(m) => Ok(m.words()),
            Err(e) => Err(e),
        }) == bip39_parsed(phrase@),
{
    match bip39_parse(phrase) {
        Ok(canonical) => Ok(Mnemonic { phrase: canonical }),
        Err(e) => Err(e),
    }
}

} // verus!
