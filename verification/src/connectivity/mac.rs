//! Message authentication codes and the bytes they are taken over.

use hmac::Mac;
use rand::RngCore;
use vstd::arithmetic::power::pow;
use vstd::prelude::*;

verus! {

/// The HMAC-SHA256 of a key and a message.
pub uninterp spec fn hmac_sha256(key: Seq<u8>, msg: Seq<u8>) -> Seq<u8>;

/// `hmac::Hmac::<Sha256>` over one message: thirty-two bytes, a function of the
/// key, which may have any length, and the message.
#[verifier::external_body]
pub(crate) fn hmac_tag(key: &[u8], msg: &[u8]) -> (r: [u8; 32])
    ensures
        r@ == hmac_sha256(key@, msg@),
{
    let mut mac = hmac::Hmac::<sha2::Sha256>::new_from_slice(key).expect("hmac accepts any key length");
    mac.update(msg);
    mac.finalize().into_bytes().into()
}

/// `hmac::Hmac::<Sha256>::verify_slice`: whether a tag is that of the key and
/// the message, compared in constant time.
#[verifier::external_body]
pub(crate) fn hmac_verify(key: &[u8], msg: &[u8], tag: &[u8]) -> (r: bool)
    ensures
        r == (tag@ == hmac_sha256(key@, msg@)),
{
    let mut mac = hmac::Hmac::<sha2::Sha256>::new_from_slice(key).expect("hmac accepts any key length");
    mac.update(msg);
    mac.verify_slice(tag).is_ok()
}

/// `rand::thread_rng` and its `fill_bytes`: random bytes, of which nothing is
/// promised.
#[verifier::external_body]
pub(crate) fn random_key() -> (r: [u8; 32]) {
    let mut key = [0u8; 32];
    rand::thread_rng().fill_bytes(&mut key);
    key
}

/// A number in bytes, most significant first.
pub open spec fn be_bytes(v: nat, n: nat) -> Seq<u8>
    decreases n,
{
    if n == 0 {
        Seq::empty()
    } else {
        be_bytes(v / 256, (n - 1) as nat).push((v % 256) as u8)
    }
}

/// As many bytes as were asked for.
pub proof fn lemma_be_bytes_len(v: nat, n: nat)
    ensures
        be_bytes(v, n).len() == n,
    decreases n,
{
    if n > 0 {
        lemma_be_bytes_len(v / 256, (n - 1) as nat);
    }
}

/// Numbers that fit are told apart by their bytes.
pub proof fn lemma_be_bytes_injective(a: nat, b: nat, n: nat)
    requires
        a < pow(256, n),
        b < pow(256, n),
        be_bytes(a, n) == be_bytes(b, n),
    ensures
        a == b,
    decreases n,
{
    if n == 0 {
        vstd::arithmetic::power::lemma_pow0(256);
    } else {
        let m = (n - 1) as nat;
        let (x, y) = (be_bytes(a, n), be_bytes(b, n));
        lemma_be_bytes_len(a / 256, m);
        lemma_be_bytes_len(b / 256, m);
        assert(x.drop_last() =~= be_bytes(a / 256, m));
        assert(y.drop_last() =~= be_bytes(b / 256, m));
        assert(x.last() == (a % 256) as u8);
        assert(y.last() == (b % 256) as u8);
        vstd::arithmetic::power::lemma_pow_adds(256, m, 1);
        vstd::arithmetic::power::lemma_pow1(256);
        let p = pow(256, m);
        assert(a / 256 < p) by (nonlinear_arith)
            requires
                a < p * 256,
        ;
        assert(b / 256 < p) by (nonlinear_arith)
            requires
                b < p * 256,
        ;
        lemma_be_bytes_injective(a / 256, b / 256, m);
    }
}

/// A number in bytes, most significant first.
pub fn to_be(v: u128, n: usize) -> (r: Vec<u8>)
    ensures
        r@ == be_bytes(v as nat, n as nat),
    decreases n,
{
    if n == 0 {
        Vec::new()
    } else {
        let mut out = to_be(v / 256, n - 1);
        out.push((v % 256) as u8);
        out
    }
}

/// A signed number of sixty-four bits in two's complement.
pub open spec fn twos_complement(m: i64) -> nat {
    if m >= 0 {
        m as nat
    } else {
        (0x1_0000_0000_0000_0000 + m) as nat
    }
}

/// A signed number in eight bytes, most significant first.
pub fn i64_to_be(m: i64) -> (r: Vec<u8>)
    ensures
        r@ == be_bytes(twos_complement(m), 8),
{
    let v: i128 = if m >= 0 {
        m as i128
    } else {
        0x1_0000_0000_0000_0000 + m as i128
    };
    to_be(v as u128, 8)
}

/// The powers that bound numbers of eight and of sixteen bytes.
pub proof fn lemma_byte_powers()
    ensures
        pow(256, 4) == 0x1_0000_0000,
        pow(256, 8) == 0x1_0000_0000_0000_0000,
        pow(256, 16) == 0x1_0000_0000_0000_0000_0000_0000_0000_0000,
{
    reveal_with_fuel(pow, 5);
    assert(pow(256, 4) == 0x1_0000_0000);
    vstd::arithmetic::power::lemma_pow_adds(256, 4, 4);
    vstd::arithmetic::power::lemma_pow_adds(256, 8, 8);
    assert(pow(256, 8) == 0x1_0000_0000_0000_0000) by (nonlinear_arith)
        requires
            pow(256, 4) == 0x1_0000_0000,
            pow(256, 8) == pow(256, 4) * pow(256, 4),
    ;
    assert(pow(256, 16) == 0x1_0000_0000_0000_0000_0000_0000_0000_0000) by (nonlinear_arith)
        requires
            pow(256, 8) == 0x1_0000_0000_0000_0000,
            pow(256, 16) == pow(256, 8) * pow(256, 8),
    ;
}

} // verus!
