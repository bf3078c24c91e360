//! Pairing: a code shown out of band, a confirmation tag that proves it was
//! seen, and the record of trust that comes of it.
//!
//! The keys stand in for a real key exchange: the public half is the SHA-256
//! digest of the secret one, and nothing is derived from the two. A tag keyed
//! by six digits can be guessed offline.

use crate::connectivity::mac::{hmac_sha256, hmac_tag, hmac_verify, random_key};
use crate::contracts::error::{ConnectivityError, ConnectivityErrorView};
use crate::data::crypto::{sha256, sha256_digest};
use crate::ident::{is_v4, utc_now, Timestamp, Uuid};
use crate::model::outcome;
use crate::table::{
    found, law_removed_record_is_gone, law_written_record_is_read_back,
    lemma_place_of, with_record, without_record, Record, Table,
};
use rand::Rng;
use vstd::prelude::*;
use vstd::utf8::encode_utf8;

verus! {

/// How two devices were introduced.
#[derive(Clone, Copy, Debug, PartialEq, Eq, Structural)]
pub enum PairingMethod {
    Qr,
    Proximity,
    Code,
}

/// A pair of keys that stands in for a real one.
#[derive(Clone, Copy, Debug)]
pub struct PlaceholderKeypair {
    pub public_key: [u8; 32],
    pub secret_key: [u8; 32],
}

impl PlaceholderKeypair {
    /// The pair of a secret key.
    pub fn from_secret(secret_key: [u8; 32]) -> (r: PlaceholderKeypair)
        ensures
            r.secret_key == secret_key,
            r.public_key@ == sha256(secret_key@),
    {
        PlaceholderKeypair { public_key: sha256_digest(secret_key.as_slice()), secret_key }
    }

    /// A pair of a fresh random secret key.
    pub fn generate() -> (r: PlaceholderKeypair)
        ensures
            r.public_key@ == sha256(r.secret_key@),
    {
        PlaceholderKeypair::from_secret(random_key())
    }
}

/// One side's view of a pairing that is under way.
#[derive(Debug)]
pub struct PairingChallenge {
    pub challenge_id: Uuid,
    /// Six digits, shown to the user and entered on the peer.
    pub code: String,
    pub local_keypair: PlaceholderKeypair,
    pub created_at: Timestamp,
}

/// [`PairingChallenge`] as a mathematical value.
pub struct ChallengeView {
    pub challenge_id: Uuid,
    pub code: Seq<char>,
    pub local_keypair: PlaceholderKeypair,
    pub created_at: Timestamp,
}

impl View for PairingChallenge {
    type V = ChallengeView;

    open spec fn view(&self) -> ChallengeView {
        ChallengeView {
            challenge_id: self.challenge_id,
            code: self.code@,
            local_keypair: self.local_keypair,
            created_at: self.created_at,
        }
    }
}

impl Clone for PairingChallenge {
    fn clone(&self) -> (r: Self)
        ensures
            r@ == self@,
    {
        PairingChallenge {
            challenge_id: self.challenge_id,
            code: self.code.clone(),
            local_keypair: self.local_keypair,
            created_at: self.created_at,
        }
    }
}

impl Record for PairingChallenge {
    open spec fn key_of(v: ChallengeView) -> Uuid {
        v.challenge_id
    }

    fn key(&self) -> (r: Uuid) {
        self.challenge_id
    }
}

/// The outcome of pairing: a peer that is allowed.
#[derive(Clone, Copy, Debug)]
pub struct TrustRecord {
    pub peer_id: Uuid,
    pub pairing_date: Timestamp,
    pub local_private_key: [u8; 32],
    pub peer_public_key: [u8; 32],
    pub pairing_method: PairingMethod,
    pub revoked: bool,
    pub revoked_at: Option<Timestamp>,
}

impl View for TrustRecord {
    type V = TrustRecord;

    open spec fn view(&self) -> TrustRecord {
        *self
    }
}

impl Record for TrustRecord {
    open spec fn key_of(v: TrustRecord) -> Uuid {
        v.peer_id
    }

    fn key(&self) -> (r: Uuid) {
        self.peer_id
    }
}

/// Six decimal digits.
pub open spec fn six_digits(n: u32) -> Seq<char> {
    seq![
        digit_at(n as int / 100_000),
        digit_at(n as int / 10_000),
        digit_at(n as int / 1_000),
        digit_at(n as int / 100),
        digit_at(n as int / 10),
        digit_at(n as int),
    ]
}

/// The last decimal digit of a number.
pub open spec fn digit_at(n: int) -> char {
    ('0' as int + n % 10) as char
}

fn last_digit(n: u32) -> (r: char)
    ensures
        r == digit_at(n as int),
{
    (48u8 + (n % 10) as u8) as char
}

/// The code of a number below a million, padded to six digits.
pub fn code_text(n: u32) -> (r: String)
    ensures
        r@ == six_digits(n),
{
    let mut out = String::new();
    out.push(last_digit(n / 100_000));
    out.push(last_digit(n / 10_000));
    out.push(last_digit(n / 1_000));
    out.push(last_digit(n / 100));
    out.push(last_digit(n / 10));
    out.push(last_digit(n));
    assert(out@ =~= six_digits(n));
    out
}

/// The last decimal digit is a digit, with the value of the remainder.
proof fn lemma_digit_at(k: int)
    ensures
        crate::text::is_digit(digit_at(k)),
        digit_at(k) as int == 48 + k % 10,
{
    assert(0 <= k % 10 < 10);
}

/// Numbers that agree in their last digit and in the digits before it are the same.
proof fn lemma_last_digit_and_rest(x: int, y: int)
    requires
        x / 10 == y / 10,
        digit_at(x) == digit_at(y),
    ensures
        x == y,
{
    lemma_digit_at(x);
    lemma_digit_at(y);
}

/// A code is six decimal digits, and every number has a code of its own.
pub proof fn law_codes_are_six_digits(m: u32, n: u32)
    requires
        m < 1_000_000,
        n < 1_000_000,
    ensures
        six_digits(m).len() == 6,
        forall|i: int| 0 <= i < 6 ==> crate::text::is_digit(#[trigger] six_digits(m)[i]),
        six_digits(m) == six_digits(n) ==> m == n,
{
    let (a, b) = (six_digits(m), six_digits(n));
    let (x, y) = (m as int, n as int);
    assert forall|i: int| 0 <= i < 6 implies crate::text::is_digit(#[trigger] a[i]) by {
        lemma_digit_at(x / 100_000);
        lemma_digit_at(x / 10_000);
        lemma_digit_at(x / 1_000);
        lemma_digit_at(x / 100);
        lemma_digit_at(x / 10);
        lemma_digit_at(x);
    }
    if a == b {
        assert(a[0] == b[0] && a[1] == b[1] && a[2] == b[2] && a[3] == b[3] && a[4] == b[4] && a[5]
            == b[5]);
        lemma_last_digit_and_rest(x / 100_000, y / 100_000);
        lemma_last_digit_and_rest(x / 10_000, y / 10_000);
        lemma_last_digit_and_rest(x / 1_000, y / 1_000);
        lemma_last_digit_and_rest(x / 100, y / 100);
        lemma_last_digit_and_rest(x / 10, y / 10);
        lemma_last_digit_and_rest(x, y);
    }
}

/// `rand::Rng::gen_range` of `rand::thread_rng`: a random number below a bound.
/// The range must not be empty.
#[verifier::external_body]
fn random_below(bound: u32) -> (r: u32)
    requires
        bound > 0,
    ensures
        r < bound,
{
    rand::thread_rng().gen_range(0..bound)
}

/// The tag that proves that a peer saw a code: keyed by the code, over the
/// initiator's public key and then the responder's.
pub open spec fn tag_of(code: Seq<char>, initiator: Seq<u8>, responder: Seq<u8>) -> Seq<u8> {
    hmac_sha256(encode_utf8(code), initiator + responder)
}

/// Drives enrollment and keeps the records of trust.
pub struct PairingManager {
    pending: Table<PairingChallenge>,
    trusted: Table<TrustRecord>,
}

/// [`PairingManager`] as a mathematical value.
pub struct PairingView {
    pub pending: Seq<ChallengeView>,
    pub trusted: Seq<TrustRecord>,
}

impl View for PairingManager {
    type V = PairingView;

    closed spec fn view(&self) -> PairingView {
        PairingView { pending: self.pending@, trusted: self.trusted@ }
    }
}

/// The error of a challenge that is not pending.
pub open spec fn unknown_challenge(id: Uuid) -> ConnectivityErrorView {
    ConnectivityErrorView::Transport {
        message: "pairing: unknown or already-used challenge "@ + id.text(),
    }
}

/// The error of a tag that is not that of the code.
pub open spec fn tag_mismatch() -> ConnectivityErrorView {
    ConnectivityErrorView::Transport {
        message: "pairing: confirmation tag mismatch (wrong code?)"@,
    }
}

impl PairingView {
    /// What completing a pairing comes to, and the manager after it: the
    /// challenge is used up either way.
    pub open spec fn completed(
        self,
        challenge_id: Uuid,
        peer_id: Uuid,
        peer_public_key: [u8; 32],
        peer_tag: Seq<u8>,
        method: PairingMethod,
        now: Timestamp,
    ) -> (PairingView, Result<TrustRecord, ConnectivityErrorView>) {
        match found::<PairingChallenge>(self.pending, challenge_id) {
            None => (self, Err(unknown_challenge(challenge_id))),
            Some(c) => {
                let used = PairingView {
                    pending: without_record::<PairingChallenge>(self.pending, challenge_id),
                    ..self
                };
                if peer_tag != tag_of(c.code, c.local_keypair.public_key@, peer_public_key@) {
                    (used, Err(tag_mismatch()))
                } else {
                    let record = TrustRecord {
                        peer_id,
                        pairing_date: now,
                        local_private_key: c.local_keypair.secret_key,
                        peer_public_key,
                        pairing_method: method,
                        revoked: false,
                        revoked_at: None,
                    };
                    (
                        PairingView {
                            trusted: with_record::<TrustRecord>(used.trusted, record),
                            ..used
                        },
                        Ok(record),
                    )
                }
            },
        }
    }

    /// Whether a peer is paired, and its trust not revoked.
    pub open spec fn trusts(self, peer_id: Uuid) -> bool {
        match found::<TrustRecord>(self.trusted, peer_id) {
            Some(r) => !r.revoked,
            None => false,
        }
    }

    /// The manager once the trust in a peer was revoked.
    pub open spec fn revoked(self, peer_id: Uuid, now: Timestamp) -> PairingView {
        match found::<TrustRecord>(self.trusted, peer_id) {
            Some(r) => PairingView {
                trusted: with_record::<TrustRecord>(
                    self.trusted,
                    TrustRecord { revoked: true, revoked_at: Some(now), ..r },
                ),
                ..self
            },
            None => self,
        }
    }
}

impl PairingManager {
    /// A manager that knows of no peer.
    pub fn new() -> (r: PairingManager)
        ensures
            r@.pending.len() == 0,
            r@.trusted.len() == 0,
    {
        PairingManager { pending: Table::new(), trusted: Table::new() }
    }

    /// Starts a pairing under the given identifier, code number, keys and time.
    pub fn begin_pairing_with(
        &mut self,
        challenge_id: Uuid,
        code: u32,
        local_keypair: PlaceholderKeypair,
        created_at: Timestamp,
    ) -> (r: PairingChallenge)
        requires
            code < 1_000_000,
        ensures
            r@ == (ChallengeView {
                challenge_id,
                code: six_digits(code),
                local_keypair,
                created_at,
            }),
            final(self)@ == (PairingView {
                pending: with_record::<PairingChallenge>(old(self)@.pending, r@),
                ..old(self)@
            }),
    {
        let challenge = PairingChallenge {
            challenge_id,
            code: code_text(code),
            local_keypair,
            created_at,
        };
        self.pending.upsert(challenge.clone());
        challenge
    }

    /// Starts a pairing: a fresh code, which is shown out of band, and fresh keys,
    /// of which the public one goes to the peer with the identifier.
    pub fn begin_pairing(&mut self) -> (r: PairingChallenge)
        ensures
            is_v4(r@.challenge_id.0),
            r@.created_at.of_clock(),
            exists|code: u32| code < 1_000_000 && r@.code == #[trigger] six_digits(code),
            r@.local_keypair.public_key@ == sha256(r@.local_keypair.secret_key@),
            final(self)@ == (PairingView {
                pending: with_record::<PairingChallenge>(old(self)@.pending, r@),
                ..old(self)@
            }),
    {
        let code = random_below(1_000_000);
        self.begin_pairing_with(Uuid::new_v4(), code, PlaceholderKeypair::generate(), utc_now())
    }

    /// The bytes that a confirmation tag is taken over.
    fn both_keys(initiator: &[u8; 32], responder: &[u8; 32]) -> (r: Vec<u8>)
        ensures
            r@ == initiator@ + responder@,
    {
        let mut bytes = vstd::slice::slice_to_vec(initiator.as_slice());
        bytes.extend_from_slice(responder.as_slice());
        assert(bytes@ =~= initiator@ + responder@);
        bytes
    }

    /// The tag that proves that a peer saw a code.
    pub fn confirmation_tag(
        code: &str,
        initiator_public: &[u8; 32],
        responder_public: &[u8; 32],
    ) -> (r: [u8; 32])
        ensures
            r@ == tag_of(code@, initiator_public@, responder_public@),
    {
        let bytes = PairingManager::both_keys(initiator_public, responder_public);
        hmac_tag(code.as_bytes(), bytes.as_slice())
    }

    /// Completes a pairing on the initiating side at the given time: verifies the
    /// responder's tag, and records the trust in the peer.
    pub fn complete_pairing_at(
        &mut self,
        challenge_id: Uuid,
        peer_id: Uuid,
        peer_public_key: [u8; 32],
        peer_tag: &[u8; 32],
        method: PairingMethod,
        now: Timestamp,
    ) -> (r: Result<TrustRecord, ConnectivityError>)
        ensures
            (final(self)@, outcome(r)) == old(self)@.completed(
                challenge_id,
                peer_id,
                peer_public_key,
                peer_tag@,
                method,
                now,
            ),
    {
        let challenge = match self.pending.get(challenge_id) {
            Some(c) => c.clone(),
            None => {
                let mut message = "pairing: unknown or already-used challenge ".to_owned();
                message.append(challenge_id.to_text().as_str());
                return Err(ConnectivityError::Transport { message });
            },
        };
        self.pending.delete(challenge_id);
        let bytes = PairingManager::both_keys(
            &challenge.local_keypair.public_key,
            &peer_public_key,
        );
        if !hmac_verify(
            challenge.code.as_str().as_bytes(),
            bytes.as_slice(),
            peer_tag.as_slice(),
        ) {
            return Err(
                ConnectivityError::Transport {
                    message: "pairing: confirmation tag mismatch (wrong code?)".to_owned(),
                },
            );
        }
        let record = TrustRecord {
            peer_id,
            pairing_date: now,
            local_private_key: challenge.local_keypair.secret_key,
            peer_public_key,
            pairing_method: method,
            revoked: false,
            revoked_at: None,
        };
        self.trusted.upsert(record);
        Ok(record)
    }

    /// Completes a pairing on the initiating side now.
    pub fn complete_pairing(
        &mut self,
        challenge_id: Uuid,
        peer_id: Uuid,
        peer_public_key: [u8; 32],
        peer_tag: &[u8; 32],
        method: PairingMethod,
    ) -> (r: Result<TrustRecord, ConnectivityError>)
        ensures
            exists|now: Timestamp|
                now.of_clock() && (final(self)@, outcome(r)) == #[trigger] old(self)@.completed(
                    challenge_id,
                    peer_id,
                    peer_public_key,
                    peer_tag@,
                    method,
                    now,
                ),
    {
        self.complete_pairing_at(
            challenge_id,
            peer_id,
            peer_public_key,
            peer_tag,
            method,
            utc_now(),
        )
    }

    /// The record of trust in a peer, which may be revoked.
    pub fn trust_record(&self, peer_id: Uuid) -> (r: Option<TrustRecord>)
        ensures
            r == found::<TrustRecord>(self@.trusted, peer_id),
    {
        match self.trusted.get(peer_id) {
            Some(r) => Some(*r),
            None => None,
        }
    }

    /// Whether a peer is paired, and its trust not revoked.
    pub fn is_trusted(&self, peer_id: Uuid) -> (r: bool)
        ensures
            r == self@.trusts(peer_id),
    {
        match self.trust_record(peer_id) {
            Some(r) => !r.revoked,
            None => false,
        }
    }

    /// Revokes the trust in a peer at the given time. Returns whether there was a
    /// record of it.
    pub fn revoke_at(&mut self, peer_id: Uuid, now: Timestamp) -> (r: bool)
        ensures
            final(self)@ == old(self)@.revoked(peer_id, now),
            r == found::<TrustRecord>(old(self)@.trusted, peer_id) is Some,
    {
        match self.trust_record(peer_id) {
            Some(record) => {
                let mut record = record;
                record.revoked = true;
                record.revoked_at = Some(now);
                self.trusted.upsert(record);
                true
            },
            None => false,
        }
    }

    /// Revokes the trust in a peer now. Returns whether there was a record of it.
    pub fn revoke(&mut self, peer_id: Uuid) -> (r: bool)
        ensures
            exists|now: Timestamp|
                now.of_clock() && final(self)@ == #[trigger] old(self)@.revoked(peer_id, now),
            r == found::<TrustRecord>(old(self)@.trusted, peer_id) is Some,
    {
        self.revoke_at(peer_id, utc_now())
    }
}

impl Default for PairingManager {
    fn default() -> (r: Self)
        ensures
            r@.pending.len() == 0,
            r@.trusted.len() == 0,
    {
        PairingManager::new()
    }
}

/// The tag decides a pairing: just the tag of the code and both keys pairs the
/// peer, who is trusted from then on; any other tag trusts no one. Either way the
/// challenge is used up.
pub proof fn law_tag_decides_the_pairing(
    v: PairingView,
    c: ChallengeView,
    peer: Uuid,
    key: [u8; 32],
    tag: Seq<u8>,
    method: PairingMethod,
    now: Timestamp,
)
    ensures
        ({
            let begun = PairingView {
                pending: with_record::<PairingChallenge>(v.pending, c),
                ..v
            };
            let (after, r) = begun.completed(c.challenge_id, peer, key, tag, method, now);
            &&& r is Ok <==> tag == tag_of(c.code, c.local_keypair.public_key@, key@)
            &&& r matches Ok(record) ==> {
                &&& record.peer_id == peer
                &&& record.peer_public_key == key
                &&& record.pairing_method == method
                &&& !record.revoked
                &&& after.trusts(peer)
            }
            &&& r is Err ==> after.trusted == v.trusted
            &&& found::<PairingChallenge>(after.pending, c.challenge_id) is None
        }),
{
    let id = c.challenge_id;
    let pending = with_record::<PairingChallenge>(v.pending, c);
    law_written_record_is_read_back::<PairingChallenge>(v.pending, c, id);
    law_removed_record_is_gone::<PairingChallenge>(pending, id, id);
    let record = TrustRecord {
        peer_id: peer,
        pairing_date: now,
        local_private_key: c.local_keypair.secret_key,
        peer_public_key: key,
        pairing_method: method,
        revoked: false,
        revoked_at: None,
    };
    law_written_record_is_read_back::<TrustRecord>(v.trusted, record, peer);
}

/// A challenge can be answered once: whatever the first answer, a second one is
/// refused, and trusts no one.
pub proof fn law_challenge_is_used_once(
    v: PairingView,
    id: Uuid,
    peer: Uuid,
    key: [u8; 32],
    tag: Seq<u8>,
    method: PairingMethod,
    now: Timestamp,
    peer2: Uuid,
    key2: [u8; 32],
    tag2: Seq<u8>,
    method2: PairingMethod,
    now2: Timestamp,
)
    ensures
        ({
            let after = v.completed(id, peer, key, tag, method, now).0;
            after.completed(id, peer2, key2, tag2, method2, now2) == (
                after,
                Err::<TrustRecord, ConnectivityErrorView>(unknown_challenge(id)),
            )
        }),
{
    law_removed_record_is_gone::<PairingChallenge>(v.pending, id, id);
}

/// A wrong tag pairs no one.
pub proof fn law_wrong_tag_is_refused(
    v: PairingView,
    c: ChallengeView,
    peer: Uuid,
    key: [u8; 32],
    tag: Seq<u8>,
    method: PairingMethod,
    now: Timestamp,
)
    requires
        found::<PairingChallenge>(v.pending, c.challenge_id) == Some(c),
        tag != tag_of(c.code, c.local_keypair.public_key@, key@),
    ensures
        v.completed(c.challenge_id, peer, key, tag, method, now).1 == Err::<
            TrustRecord,
            ConnectivityErrorView,
        >(tag_mismatch()),
        v.completed(c.challenge_id, peer, key, tag, method, now).0.trusted == v.trusted,
{
}

/// A peer whose trust was revoked is not trusted; every other peer is as before.
pub proof fn law_revoked_peer_is_not_trusted(
    v: PairingView,
    peer: Uuid,
    other: Uuid,
    now: Timestamp,
)
    ensures
        !v.revoked(peer, now).trusts(peer),
        other != peer ==> v.revoked(peer, now).trusts(other) == v.trusts(other),
{
    if let Some(r) = found::<TrustRecord>(v.trusted, peer) {
        lemma_place_of::<TrustRecord>(v.trusted, peer);
        let gone = TrustRecord { revoked: true, revoked_at: Some(now), ..r };
        law_written_record_is_read_back::<TrustRecord>(v.trusted, gone, other);
        law_written_record_is_read_back::<TrustRecord>(v.trusted, gone, peer);
    }
}

/// A confirmation tag is taken with the code as the key, over the two public keys, the
/// initiator's first: over nothing less and nothing more.
pub proof fn law_tag_is_over_the_code_and_both_keys(
    code: Seq<char>,
    initiator: Seq<u8>,
    responder: Seq<u8>,
    over: Seq<u8>,
)
    requires
        over.len() == initiator.len() + responder.len(),
        over.take(initiator.len() as int) == initiator,
        over.skip(initiator.len() as int) == responder,
    ensures
        tag_of(code, initiator, responder) == hmac_sha256(encode_utf8(code), over),
{
    assert(over =~= over.take(initiator.len() as int) + over.skip(initiator.len() as int));
}

/// A code spells the number that was drawn.
pub proof fn law_code_spells_its_number(n: u32)
    requires
        n < 1_000_000,
    ensures
        crate::text::digits_value(six_digits(n)) == n,
{
    let x = n as int;
    lemma_digit_at(x / 100_000);
    lemma_digit_at(x / 10_000);
    lemma_digit_at(x / 1_000);
    lemma_digit_at(x / 100);
    lemma_digit_at(x / 10);
    lemma_digit_at(x);
    let s = six_digits(n);
    assert(s.drop_last().drop_last().drop_last().drop_last().drop_last().drop_last()
        =~= Seq::empty());
    reveal_with_fuel(crate::text::digits_value, 7);
    assert(x / 100_000 % 10 == x / 100_000);
    assert(x / 10_000 == 10 * (x / 100_000) + x / 10_000 % 10);
    assert(x / 1_000 == 10 * (x / 10_000) + x / 1_000 % 10);
    assert(x / 100 == 10 * (x / 1_000) + x / 100 % 10);
    assert(x / 10 == 10 * (x / 100) + x / 10 % 10);
    assert(x == 10 * (x / 10) + x % 10);
}

/// A revocation is recorded with its time, and the record is otherwise kept.
pub proof fn law_revocation_is_recorded(v: PairingView, peer: Uuid, now: Timestamp)
    requires
        found::<TrustRecord>(v.trusted, peer) is Some,
    ensures
        found::<TrustRecord>(v.revoked(peer, now).trusted, peer) == Some(
            TrustRecord {
                revoked: true,
                revoked_at: Some(now),
                ..found::<TrustRecord>(v.trusted, peer)->0
            },
        ),
        v.revoked(peer, now).pending == v.pending,
{
    let r = found::<TrustRecord>(v.trusted, peer)->0;
    lemma_place_of::<TrustRecord>(v.trusted, peer);
    let gone = TrustRecord { revoked: true, revoked_at: Some(now), ..r };
    law_written_record_is_read_back::<TrustRecord>(v.trusted, gone, peer);
}

} // verus!
