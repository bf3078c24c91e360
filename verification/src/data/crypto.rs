//! Payload cryptography: HKDF key derivation and AES-256-GCM.
//!
//! Each record is sealed under a key of its own, derived from the device root
//! key, with the record's identifier bound in as additional authenticated data.

use crate::ident::{hex_digit, lemma_hex_digit_injective};
use crate::text::{hex_bytes, hex_value, is_hex};
use aes_gcm::aead::{Aead, KeyInit, Payload};
use rand::RngCore;
use sha2::Digest;
use vstd::prelude::*;
use vstd::utf8::encode_utf8;

verus! {

/// The first thirty-two bytes of HKDF-SHA256 without salt, of a root key and a
/// context.
pub uninterp spec fn hkdf_sha256(root: Seq<u8>, info: Seq<u8>) -> Seq<u8>;

/// The AES-256-GCM ciphertext, with its tag behind it, of a key, a nonce, a
/// message and additional data.
pub uninterp spec fn gcm_sealed(
    key: Seq<u8>,
    nonce: Seq<u8>,
    msg: Seq<u8>,
    aad: Seq<u8>,
) -> Option<Seq<u8>>;

/// What AES-256-GCM opens of a key, a nonce, a ciphertext and additional data.
pub uninterp spec fn gcm_opened(
    key: Seq<u8>,
    nonce: Seq<u8>,
    ciphertext: Seq<u8>,
    aad: Seq<u8>,
) -> Option<Seq<u8>>;

/// The SHA-256 digest of a run of bytes.
pub uninterp spec fn sha256(data: Seq<u8>) -> Seq<u8>;

/// The most bytes that one AES-GCM message, or its additional data, may have.
pub const GCM_MAX: u64 = 68_719_476_736;

/// Whether AES-GCM takes a message and its additional data by their lengths.
pub open spec fn gcm_takes(msg: Seq<u8>, aad: Seq<u8>) -> bool {
    msg.len() <= GCM_MAX && aad.len() <= GCM_MAX
}

/// `hkdf::Hkdf::<Sha256>::expand` without salt, to thirty-two bytes: a length
/// that `expand` always takes, so that the result is a function of the root key
/// and the context.
#[verifier::external_body]
fn hkdf_expand(root: &[u8; 32], info: &[u8]) -> (r: [u8; 32])
    ensures
        r@ == hkdf_sha256(root@, info@),
{
    let mut okm = [0u8; 32];
    hkdf::Hkdf::<sha2::Sha256>::new(None, root)
        .expand(info, &mut okm)
        .expect("32 bytes is a valid OKM length");
    okm
}

/// `aes_gcm::Aes256Gcm::encrypt` under a given nonce: it succeeds just for
/// lengths within the limits of the mode, the result is the message's length
/// and a tag of sixteen bytes, and `decrypt` opens it again.
#[verifier::external_body]
fn gcm_encrypt(key: &[u8; 32], nonce: &[u8; 12], msg: &[u8], aad: &[u8]) -> (r: Option<Vec<u8>>)
    ensures
        (match r {
            Some(ct) => Some(ct@),
            None => None,
        }) == gcm_sealed(key@, nonce@, msg@, aad@),
        r is Some <==> gcm_takes(msg@, aad@),
        r matches Some(ct) ==> ct@.len() == msg@.len() + 16,
        r matches Some(ct) ==> gcm_opened(key@, nonce@, ct@, aad@) == Some(msg@),
{
    aes_gcm::Aes256Gcm::new(aes_gcm::Key::<aes_gcm::Aes256Gcm>::from_slice(key))
        .encrypt(aes_gcm::Nonce::from_slice(nonce), Payload { msg, aad })
        .ok()
}

/// `aes_gcm::Aes256Gcm::decrypt`: a function of its arguments, which opens
/// nothing shorter than the tag. That a changed ciphertext, key or additional
/// data is refused holds but for a forgery of the tag, and is not said here.
#[verifier::external_body]
fn gcm_decrypt(key: &[u8; 32], nonce: &[u8], ciphertext: &[u8], aad: &[u8]) -> (r: Option<Vec<u8>>)
    requires
        nonce@.len() == 12,
    ensures
        (match r {
            Some(pt) => Some(pt@),
            None => None,
        }) == gcm_opened(key@, nonce@, ciphertext@, aad@),
        ciphertext@.len() < 16 ==> r is None,
{
    aes_gcm::Aes256Gcm::new(aes_gcm::Key::<aes_gcm::Aes256Gcm>::from_slice(key))
        .decrypt(aes_gcm::Nonce::from_slice(nonce), Payload { msg: ciphertext, aad })
        .ok()
}

/// `rand::rngs::OsRng::fill_bytes`: random bytes, of which nothing is promised.
#[verifier::external_body]
pub(crate) fn random_bytes<const N: usize>() -> (r: [u8; N]) {
    let mut bytes = [0u8; N];
    rand::rngs::OsRng.fill_bytes(&mut bytes);
    bytes
}

/// `sha2::Sha256::digest`: thirty-two bytes, a function of the data.
#[verifier::external_body]
pub(crate) fn sha256_digest(data: &[u8]) -> (r: [u8; 32])
    ensures
        r@ == sha256(data@),
{
    sha2::Sha256::digest(data).into()
}

/// The context of a record's key: the collection's name, a zero byte, and the
/// record's identifier.
pub open spec fn record_info(collection: Seq<char>, id: Seq<u8>) -> Seq<u8> {
    encode_utf8(collection).push(0) + id
}

/// The key of a record.
pub open spec fn record_key_spec(root: Seq<u8>, collection: Seq<char>, id: Seq<u8>) -> Seq<u8> {
    hkdf_sha256(root, record_info(collection, id))
}

/// What a sealed payload opens to: nothing unless the nonce has twelve bytes.
pub open spec fn decrypted(
    key: Seq<u8>,
    ciphertext: Seq<u8>,
    nonce: Seq<u8>,
    aad: Seq<u8>,
) -> Option<Seq<u8>> {
    if nonce.len() != 12 {
        None
    } else {
        gcm_opened(key, nonce, ciphertext, aad)
    }
}

/// Bytes in lower-case hexadecimal digits, two for each.
pub open spec fn hex_text(data: Seq<u8>) -> Seq<char> {
    Seq::new(
        2 * data.len(),
        |i: int|
            if i % 2 == 0 {
                hex_digit(data[i / 2] as int / 16)
            } else {
                hex_digit(data[i / 2] as int % 16)
            },
    )
}

/// The SHA-256 digest in lower-case hexadecimal digits.
pub open spec fn sha256_text(data: Seq<u8>) -> Seq<char> {
    hex_text(sha256(data))
}

/// A key of thirty-two bytes for a context, by HKDF-SHA256 of the root key.
pub fn derive_key(root: &[u8; 32], info: &[u8]) -> (r: [u8; 32])
    ensures
        r@ == hkdf_sha256(root@, info@),
{
    hkdf_expand(root, info)
}

/// The key of a record: of the collection's name, a zero byte and the record's
/// identifier.
pub fn record_key(root: &[u8; 32], collection: &str, id: &[u8]) -> (r: [u8; 32])
    ensures
        r@ == record_key_spec(root@, collection@, id@),
{
    let mut info: Vec<u8> = vstd::slice::slice_to_vec(collection.as_bytes());
    info.push(0);
    info.extend_from_slice(id);
    assert(info@ =~= record_info(collection@, id@));
    derive_key(root, info.as_slice())
}

/// Encrypts a payload under a given nonce.
pub fn encrypt_with(key: &[u8; 32], nonce: [u8; 12], plaintext: &[u8], aad: &[u8]) -> (r: Result<
    (Vec<u8>, [u8; 12]),
    (),
>)
    ensures
        r is Ok <==> gcm_takes(plaintext@, aad@),
        r matches Ok((ct, n)) ==> n == nonce && Some(ct@) == gcm_sealed(
            key@,
            nonce@,
            plaintext@,
            aad@,
        ) && ct@.len() == plaintext@.len() + 16 && decrypted(key@, ct@, n@, aad@) == Some(
            plaintext@,
        ),
{
    match gcm_encrypt(key, &nonce, plaintext, aad) {
        Some(ct) => Ok((ct, nonce)),
        None => Err(()),
    }
}

/// Encrypts a payload under a fresh random nonce; returns the ciphertext and
/// the nonce. [`decrypt`] gives the payload back under the same key and
/// additional data.
pub fn encrypt(key: &[u8; 32], plaintext: &[u8], aad: &[u8]) -> (r: Result<
    (Vec<u8>, [u8; 12]),
    (),
>)
    ensures
        r is Ok <==> gcm_takes(plaintext@, aad@),
        r matches Ok((ct, nonce)) ==> Some(ct@) == gcm_sealed(key@, nonce@, plaintext@, aad@)
            && ct@.len() == plaintext@.len() + 16 && decrypted(key@, ct@, nonce@, aad@) == Some(
            plaintext@,
        ),
{
    encrypt_with(key, random_bytes::<12>(), plaintext, aad)
}

/// Decrypts a payload.
pub fn decrypt(key: &[u8; 32], ciphertext: &[u8], nonce: &[u8], aad: &[u8]) -> (r: Result<
    Vec<u8>,
    (),
>)
    ensures
        r is Ok <==> decrypted(key@, ciphertext@, nonce@, aad@) is Some,
        r matches Ok(pt) ==> decrypted(key@, ciphertext@, nonce@, aad@) == Some(pt@),
        ciphertext@.len() < 16 ==> r is Err,
{
    if nonce.len() != 12 {
        return Err(());
    }
    match gcm_decrypt(key, nonce, ciphertext, aad) {
        Some(pt) => Ok(pt),
        None => Err(()),
    }
}

/// The lower-case hexadecimal digit for a value below sixteen.
fn hex_char(n: u8) -> (r: char)
    requires
        n < 16,
    ensures
        r == hex_digit(n as int),
{
    if n < 10 {
        (48u8 + n) as char
    } else {
        (97u8 + (n - 10)) as char
    }
}

/// Bytes in lower-case hexadecimal digits.
pub fn encode_hex(data: &[u8]) -> (r: String)
    ensures
        r@ == hex_text(data@),
{
    let mut out = String::new();
    let mut i: usize = 0;
    while i < data.len()
        invariant
            i <= data.len(),
            out@ == hex_text(data@.take(i as int)),
        decreases data.len() - i,
    {
        let b: u8 = data[i];
        out.push(hex_char(b / 16));
        out.push(hex_char(b % 16));
        i += 1;
        assert(out@ =~= hex_text(data@.take(i as int)));
    }
    assert(data@.take(data.len() as int) =~= data@);
    out
}

/// The lower-case hexadecimal SHA-256 of a run of bytes.
pub fn sha256_hex(data: &[u8]) -> (r: String)
    ensures
        r@ == sha256_text(data@),
{
    let digest = sha256_digest(data);
    encode_hex(digest.as_slice())
}

/// Where two hexadecimal texts are the same, so are the bytes they spell.
pub proof fn lemma_hex_text_injective(a: Seq<u8>, b: Seq<u8>)
    requires
        hex_text(a) == hex_text(b),
    ensures
        a == b,
{
    assert(hex_text(a).len() == 2 * a.len() && hex_text(b).len() == 2 * b.len());
    assert forall|i: int| 0 <= i < a.len() implies a[i] == b[i] by {
        let (j, k) = (2 * i, 2 * i + 1);
        assert(j / 2 == i && k / 2 == i && j % 2 == 0 && k % 2 == 1);
        assert(hex_text(a)[j] == hex_digit(a[i] as int / 16));
        assert(hex_text(b)[j] == hex_digit(b[i] as int / 16));
        assert(hex_text(a)[k] == hex_digit(a[i] as int % 16));
        assert(hex_text(b)[k] == hex_digit(b[i] as int % 16));
        lemma_hex_digit_injective(a[i] as int / 16, b[i] as int / 16);
        lemma_hex_digit_injective(a[i] as int % 16, b[i] as int % 16);
    }
    assert(a =~= b);
}

/// Records whose identifiers differ have keys of different contexts, and so have
/// records of two collections whose names hold no zero byte.
pub proof fn law_record_contexts_differ(c1: Seq<char>, id1: Seq<u8>, c2: Seq<char>, id2: Seq<u8>)
    requires
        c1 == c2 || !encode_utf8(c1).contains(0u8) && !encode_utf8(c2).contains(0u8),
        record_info(c1, id1) == record_info(c2, id2),
    ensures
        c1 == c2,
        id1 == id2,
{
    let a = encode_utf8(c1);
    let b = encode_utf8(c2);
    let r = record_info(c1, id1);
    assert(r[a.len() as int] == 0);
    assert(r[b.len() as int] == 0);
    if a.len() < b.len() {
        assert(b[a.len() as int] == r[a.len() as int]);
        assert(b.contains(0u8));
    }
    if b.len() < a.len() {
        assert(a[b.len() as int] == r[b.len() as int]);
        assert(a.contains(0u8));
    }
    assert(r.subrange(0, a.len() as int) =~= a);
    assert(r.subrange(0, b.len() as int) =~= b);
    vstd::utf8::encode_utf8_decode_utf8(c1);
    vstd::utf8::encode_utf8_decode_utf8(c2);
    assert(r.skip(a.len() as int + 1) =~= id1);
    assert(r.skip(b.len() as int + 1) =~= id2);
}

/// The hexadecimal digits of bytes spell the bytes.
pub proof fn law_hex_digits_spell_the_bytes(data: Seq<u8>)
    ensures
        ({
            let digits = Seq::new(2 * data.len(), |i: int| hex_text(data)[i] as u8);
            is_hex(digits) && hex_bytes(digits) == data
        }),
{
    let digits = Seq::new(2 * data.len(), |i: int| hex_text(data)[i] as u8);
    assert forall|i: int| 0 <= i < digits.len() implies hex_value(#[trigger] digits[i]) == Some(
        (if i % 2 == 0 {
            data[i / 2] / 16
        } else {
            data[i / 2] % 16
        }) as u8,
    ) by {
        let b = data[i / 2] as int;
        lemma_hex_digit_value(b / 16);
        lemma_hex_digit_value(b % 16);
    }
    assert forall|i: int| 0 <= i < data.len() implies #[trigger] hex_bytes(digits)[i] == data[i] by {
        assert(hex_value(digits[2 * i]) == Some((data[i] / 16) as u8));
        assert(hex_value(digits[2 * i + 1]) == Some((data[i] % 16) as u8));
    }
    assert(hex_bytes(digits) =~= data);
}

proof fn lemma_hex_digit_value(n: int)
    requires
        0 <= n < 16,
    ensures
        hex_value(hex_digit(n) as u8) == Some(n as u8),
{
    assert(hex_digit(n) as int == (if n < 10 {
        48 + n
    } else {
        87 + n
    }));
}

} // verus!
