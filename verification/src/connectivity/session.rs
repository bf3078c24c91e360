//! Sessions: issuing and validating tokens, the idle timeout, the kill-switch,
//! and the flag that a peer is controlling this device.

use crate::connectivity::mac::{
    be_bytes, hmac_sha256, hmac_tag, hmac_verify, i64_to_be, lemma_be_bytes_injective,
    lemma_be_bytes_len, lemma_byte_powers, random_key, to_be, twos_complement,
};
use crate::contracts::connectivity::{
    clone_bytes, EnvelopeView, MultiplexedEnvelope,
};
use crate::contracts::error::{ConnectivityError, ConnectivityErrorView};
use crate::ident::{is_v4, law_later_is_later, utc_now, Timestamp, Uuid};
use crate::model::{
    lemma_pick_filter, lemma_pick_take, lemma_same_filter, outcome, pick, views,
};
use crate::table::{found, law_written_record_is_read_back, with_record, Record, Table};
use crate::text::stands_at;
use vstd::prelude::*;

verus! {

/// A point of the monotonic clock.
#[verifier::external_type_specification]
#[verifier::external_body]
pub struct ExInstant(std::time::Instant);

/// `std::time::Instant::now`: the monotonic clock, of which nothing is promised.
#[verifier::external_body]
fn clock_start() -> (r: std::time::Instant) {
    std::time::Instant::now()
}

/// `std::time::Instant::elapsed`, in nanoseconds: how long ago a point of the
/// monotonic clock was, of which nothing is promised.
#[verifier::external_body]
fn nanos_since(start: &std::time::Instant) -> (r: u128) {
    start.elapsed().as_nanos()
}

/// What a session is allowed to do.
#[derive(Clone, Copy, Debug, PartialEq, Eq, Hash, Structural)]
pub enum Capability {
    Inference,
    Takeover,
    FileXfr,
}

impl Capability {
    /// The byte that stands for the capability in a signed token.
    pub open spec fn byte_spec(self) -> u8 {
        match self {
            Capability::Inference => 1,
            Capability::Takeover => 2,
            Capability::FileXfr => 3,
        }
    }

    fn byte(&self) -> (r: u8)
        ensures
            r == self.byte_spec(),
    {
        match self {
            Capability::Inference => 1,
            Capability::Takeover => 2,
            Capability::FileXfr => 3,
        }
    }
}

/// A bearer token of a session, signed over the other fields.
#[derive(Debug)]
pub struct SessionToken {
    pub session_id: Uuid,
    pub peer_id: Uuid,
    pub issued_at: Timestamp,
    pub expires_at: Timestamp,
    pub capabilities: Vec<Capability>,
    /// HMAC-SHA256 over the fields above.
    pub hmac: Vec<u8>,
}

/// [`SessionToken`] as a mathematical value.
pub struct TokenView {
    pub session_id: Uuid,
    pub peer_id: Uuid,
    pub issued_at: Timestamp,
    pub expires_at: Timestamp,
    pub capabilities: Seq<Capability>,
    pub hmac: Seq<u8>,
}

impl View for SessionToken {
    type V = TokenView;

    open spec fn view(&self) -> TokenView {
        TokenView {
            session_id: self.session_id,
            peer_id: self.peer_id,
            issued_at: self.issued_at,
            expires_at: self.expires_at,
            capabilities: self.capabilities@,
            hmac: self.hmac@,
        }
    }
}

fn clone_capabilities(v: &Vec<Capability>) -> (r: Vec<Capability>)
    ensures
        r@ == v@,
{
    let mut out: Vec<Capability> = Vec::new();
    let mut i: usize = 0;
    while i < v.len()
        invariant
            i <= v.len(),
            out.len() == i,
            forall|j: int| 0 <= j < i ==> out@[j] == v@[j],
        decreases v.len() - i,
    {
        out.push(v[i]);
        i += 1;
    }
    assert(out@ =~= v@);
    out
}

impl Clone for SessionToken {
    fn clone(&self) -> (r: Self)
        ensures
            r@ == self@,
    {
        SessionToken {
            session_id: self.session_id,
            peer_id: self.peer_id,
            issued_at: self.issued_at,
            expires_at: self.expires_at,
            capabilities: clone_capabilities(&self.capabilities),
            hmac: clone_bytes(&self.hmac),
        }
    }
}

/// The bytes of a list of capabilities.
pub open spec fn capability_bytes(caps: Seq<Capability>) -> Seq<u8> {
    Seq::new(caps.len(), |i: int| caps[i].byte_spec())
}

impl TokenView {
    /// The bytes that are signed: everything but the signature.
    pub open spec fn signed_bytes(self) -> Seq<u8> {
        be_bytes(self.session_id.0 as nat, 16) + be_bytes(self.peer_id.0 as nat, 16) + be_bytes(
            twos_complement(self.issued_at.millis_spec() as i64),
            8,
        ) + be_bytes(twos_complement(self.expires_at.millis_spec() as i64), 8) + capability_bytes(
            self.capabilities,
        )
    }

    /// Whether both times have milliseconds that fit.
    pub open spec fn has_millis(self) -> bool {
        self.issued_at.has_millis() && self.expires_at.has_millis()
    }
}

impl SessionToken {
    /// Whether the token carries a capability.
    pub fn has_capability(&self, cap: Capability) -> (r: bool)
        ensures
            r == self@.capabilities.contains(cap),
    {
        let mut i: usize = 0;
        while i < self.capabilities.len()
            invariant
                i <= self.capabilities.len(),
                forall|j: int| 0 <= j < i ==> self.capabilities@[j] != cap,
            decreases self.capabilities.len() - i,
        {
            if self.capabilities[i] == cap {
                assert(self@.capabilities[i as int] == cap);
                return true;
            }
            i += 1;
        }
        false
    }

    /// The bytes that are signed: everything but the signature.
    pub fn canonical_bytes(&self) -> (r: Vec<u8>)
        requires
            self@.has_millis(),
        ensures
            r@ == self@.signed_bytes(),
    {
        let mut bytes = to_be(self.session_id.0, 16);
        let mut peer = to_be(self.peer_id.0, 16);
        bytes.append(&mut peer);
        let mut issued = i64_to_be(self.issued_at.millis());
        bytes.append(&mut issued);
        let mut expires = i64_to_be(self.expires_at.millis());
        bytes.append(&mut expires);
        let ghost fixed = bytes@;
        let mut i: usize = 0;
        while i < self.capabilities.len()
            invariant
                i <= self.capabilities.len(),
                bytes@ == fixed + capability_bytes(self.capabilities@.take(i as int)),
            decreases self.capabilities.len() - i,
        {
            bytes.push(self.capabilities[i].byte());
            i += 1;
            assert(bytes@ =~= fixed + capability_bytes(self.capabilities@.take(i as int)));
        }
        assert(self.capabilities@.take(self.capabilities@.len() as int) =~= self.capabilities@);
        bytes
    }
}

/// Tokens that are signed over the same bytes agree in every signed field, in
/// their times to the millisecond.
pub proof fn law_signed_bytes_determine_the_token(a: TokenView, b: TokenView)
    requires
        a.has_millis(),
        b.has_millis(),
        a.signed_bytes() == b.signed_bytes(),
    ensures
        a.session_id == b.session_id,
        a.peer_id == b.peer_id,
        a.issued_at.millis_spec() == b.issued_at.millis_spec(),
        a.expires_at.millis_spec() == b.expires_at.millis_spec(),
        a.capabilities == b.capabilities,
{
    lemma_byte_powers();
    let (s, t) = (a.signed_bytes(), b.signed_bytes());
    let (ai, bi) = (
        twos_complement(a.issued_at.millis_spec() as i64),
        twos_complement(b.issued_at.millis_spec() as i64),
    );
    let (ae, be) = (
        twos_complement(a.expires_at.millis_spec() as i64),
        twos_complement(b.expires_at.millis_spec() as i64),
    );
    lemma_be_bytes_len(a.session_id.0 as nat, 16);
    lemma_be_bytes_len(b.session_id.0 as nat, 16);
    lemma_be_bytes_len(a.peer_id.0 as nat, 16);
    lemma_be_bytes_len(b.peer_id.0 as nat, 16);
    lemma_be_bytes_len(ai, 8);
    lemma_be_bytes_len(bi, 8);
    lemma_be_bytes_len(ae, 8);
    lemma_be_bytes_len(be, 8);
    assert(s.subrange(0, 16) =~= be_bytes(a.session_id.0 as nat, 16));
    assert(t.subrange(0, 16) =~= be_bytes(b.session_id.0 as nat, 16));
    assert(s.subrange(16, 32) =~= be_bytes(a.peer_id.0 as nat, 16));
    assert(t.subrange(16, 32) =~= be_bytes(b.peer_id.0 as nat, 16));
    assert(s.subrange(32, 40) =~= be_bytes(ai, 8));
    assert(t.subrange(32, 40) =~= be_bytes(bi, 8));
    assert(s.subrange(40, 48) =~= be_bytes(ae, 8));
    assert(t.subrange(40, 48) =~= be_bytes(be, 8));
    lemma_be_bytes_injective(a.session_id.0 as nat, b.session_id.0 as nat, 16);
    lemma_be_bytes_injective(a.peer_id.0 as nat, b.peer_id.0 as nat, 16);
    lemma_be_bytes_injective(ai, bi, 8);
    lemma_be_bytes_injective(ae, be, 8);
    let (ca, cb) = (capability_bytes(a.capabilities), capability_bytes(b.capabilities));
    assert(s.skip(48) =~= ca);
    assert(t.skip(48) =~= cb);
    assert(ca.len() == cb.len());
    assert forall|i: int| 0 <= i < a.capabilities.len() implies a.capabilities[i]
        == b.capabilities[i] by {
        assert(ca[i] == cb[i]);
    }
    assert(a.capabilities =~= b.capabilities);
}

/// A session as the manager keeps it.
pub struct SessionEntry {
    token: SessionToken,
    /// When there was traffic last, in nanoseconds of the manager's clock.
    last_activity: u128,
    killed: bool,
    controlling: bool,
}

/// [`SessionEntry`] as a mathematical value.
pub struct EntryView {
    pub token: TokenView,
    pub last_activity: u128,
    pub killed: bool,
    pub controlling: bool,
}

impl View for SessionEntry {
    type V = EntryView;

    closed spec fn view(&self) -> EntryView {
        EntryView {
            token: self.token@,
            last_activity: self.last_activity,
            killed: self.killed,
            controlling: self.controlling,
        }
    }
}

impl Record for SessionEntry {
    open spec fn key_of(v: EntryView) -> Uuid {
        v.token.session_id
    }

    fn key(&self) -> (r: Uuid) {
        self.token.session_id
    }
}

impl Clone for SessionEntry {
    fn clone(&self) -> (r: Self)
        ensures
            r@ == self@,
    {
        SessionEntry {
            token: self.token.clone(),
            last_activity: self.last_activity,
            killed: self.killed,
            controlling: self.controlling,
        }
    }
}

/// Issues, validates and revokes tokens.
pub struct SessionManager {
    signing_key: [u8; 32],
    idle_timeout: u128,
    default_ttl: i128,
    started: std::time::Instant,
    sessions: Table<SessionEntry>,
}

/// [`SessionManager`] as a mathematical value.
pub struct SessionsView {
    pub key: Seq<u8>,
    /// In nanoseconds.
    pub idle_timeout: u128,
    /// In nanoseconds.
    pub default_ttl: i128,
    pub sessions: Seq<EntryView>,
}

impl View for SessionManager {
    type V = SessionsView;

    closed spec fn view(&self) -> SessionsView {
        SessionsView {
            key: self.signing_key@,
            idle_timeout: self.idle_timeout,
            default_ttl: self.default_ttl,
            sessions: self.sessions@,
        }
    }
}

/// The idle timeout that a manager has by itself: a quarter of an hour.
pub const DEFAULT_IDLE_TIMEOUT: u128 = 900_000_000_000;

/// The lifetime that a token has by itself: eight hours.
pub const DEFAULT_TTL: i128 = 28_800_000_000_000;

/// Whether a lifetime is within what a point in time can be moved by.
pub open spec fn ttl_fits(ttl: i128) -> bool {
    -9_000_000_000_000_000_000_000_000 <= ttl <= 9_000_000_000_000_000_000_000_000
}

/// The error of a session, with the reason for it.
pub open spec fn session_error(id: Uuid, reason: Seq<char>) -> ConnectivityErrorView {
    ConnectivityErrorView::Transport { message: "session "@ + id.text() + ": "@ + reason }
}

fn session_err(session_id: Uuid, reason: &str) -> (r: ConnectivityError)
    ensures
        r@ == session_error(session_id, reason@),
{
    let mut message = "session ".to_owned();
    message.append(session_id.to_text().as_str());
    message.append(": ");
    message.append(reason);
    ConnectivityError::Transport { message }
}

/// Why a session is not active at a time of the calendar and of the clock, if it
/// is not: it was killed, its token has expired, or it has been idle too long.
pub open spec fn fault(e: EntryView, idle_timeout: u128, now: Timestamp, tick: u128) -> Option<
    Seq<char>,
> {
    if e.killed {
        Some("session was killed"@)
    } else if !now.before_spec(e.token.expires_at) {
        Some("session token expired"@)
    } else if tick - e.last_activity > idle_timeout {
        Some("session idle timeout exceeded"@)
    } else {
        None
    }
}

impl SessionsView {
    /// Why a session is not active, if it is not.
    pub open spec fn fault_of(self, id: Uuid, now: Timestamp, tick: u128) -> Option<Seq<char>> {
        match found::<SessionEntry>(self.sessions, id) {
            None => Some("unknown session"@),
            Some(e) => fault(e, self.idle_timeout, now, tick),
        }
    }

    /// What checking a session comes to.
    pub open spec fn checked(self, id: Uuid, now: Timestamp, tick: u128) -> Result<
        (),
        ConnectivityErrorView,
    > {
        match self.fault_of(id, now, tick) {
            Some(reason) => Err(session_error(id, reason)),
            None => Ok(()),
        }
    }

    /// Whether a token carries the manager's signature.
    pub open spec fn signed(self, token: TokenView) -> bool {
        token.hmac == hmac_sha256(self.key, token.signed_bytes())
    }

    /// What validating a token comes to.
    pub open spec fn validated(self, token: TokenView, now: Timestamp, tick: u128) -> Result<
        (),
        ConnectivityErrorView,
    > {
        if !self.signed(token) {
            Err(session_error(token.session_id, "invalid token signature"@))
        } else {
            self.checked(token.session_id, now, tick)
        }
    }

    /// The manager with a session written.
    pub open spec fn with_entry(self, e: EntryView) -> SessionsView {
        SessionsView { sessions: with_record::<SessionEntry>(self.sessions, e), ..self }
    }

    /// The token that is issued under an identifier at a time.
    pub open spec fn token(
        self,
        id: Uuid,
        peer_id: Uuid,
        capabilities: Seq<Capability>,
        ttl: int,
        now: Timestamp,
    ) -> TokenView {
        let unsigned = TokenView {
            session_id: id,
            peer_id,
            issued_at: now,
            expires_at: now.later_spec(ttl),
            capabilities,
            hmac: Seq::empty(),
        };
        TokenView { hmac: hmac_sha256(self.key, unsigned.signed_bytes()), ..unsigned }
    }

    /// The manager once there was traffic on a session.
    pub open spec fn active_at(self, id: Uuid, tick: u128) -> SessionsView {
        match found::<SessionEntry>(self.sessions, id) {
            Some(e) => self.with_entry(EntryView { last_activity: tick, ..e }),
            None => self,
        }
    }

    /// The manager once a session was killed.
    pub open spec fn killed(self, id: Uuid) -> SessionsView {
        match found::<SessionEntry>(self.sessions, id) {
            Some(e) => self.with_entry(EntryView { killed: true, controlling: false, ..e }),
            None => self,
        }
    }

    /// What setting the takeover flag comes to, and the manager after it.
    pub open spec fn controlled(self, id: Uuid, controlling: bool, now: Timestamp, tick: u128) -> (
        SessionsView,
        Result<(), ConnectivityErrorView>,
    ) {
        match (self.checked(id, now, tick), found::<SessionEntry>(self.sessions, id)) {
            (Ok(()), Some(e)) => if controlling && !e.token.capabilities.contains(
                Capability::Takeover,
            ) {
                (self, Err(session_error(id, "session lacks takeover capability"@)))
            } else {
                (self.with_entry(EntryView { controlling, ..e }), Ok(()))
            },
            (Ok(()), None) => (self, Err(session_error(id, "unknown session"@))),
            (Err(e), _) => (self, Err(e)),
        }
    }

    /// Whether a session is controlling this device.
    pub open spec fn controls(self, id: Uuid) -> bool {
        match found::<SessionEntry>(self.sessions, id) {
            Some(e) => e.controlling && !e.killed,
            None => false,
        }
    }

    /// The identifier of a session, where it is active.
    pub open spec fn active_id(self, e: EntryView, now: Timestamp, tick: u128) -> Option<Uuid> {
        if self.fault_of(e.token.session_id, now, tick) is None {
            Some(e.token.session_id)
        } else {
            None
        }
    }

    /// The sessions that are active.
    pub open spec fn active(self, now: Timestamp, tick: u128) -> Seq<Uuid> {
        pick(self.sessions, |e: EntryView| self.active_id(e, now, tick))
    }
}

/// The view of a result that carries nothing.
pub open spec fn unit_result(r: Result<(), ConnectivityError>) -> Result<
    (),
    ConnectivityErrorView,
> {
    match r {
        Ok(()) => Ok(()),
        Err(e) => Err(e@),
    }
}

impl SessionManager {
    /// A manager with the default timeouts.
    pub fn new() -> (r: SessionManager)
        ensures
            r@.sessions.len() == 0,
            r@.idle_timeout == DEFAULT_IDLE_TIMEOUT,
            r@.default_ttl == DEFAULT_TTL,
            r@.key.len() == 32,
    {
        SessionManager::with_config(DEFAULT_IDLE_TIMEOUT, DEFAULT_TTL)
    }

    /// A manager with the given idle timeout and lifetime, in nanoseconds, and a
    /// fresh random signing key.
    pub fn with_config(idle_timeout: u128, default_ttl: i128) -> (r: SessionManager)
        ensures
            r@.sessions.len() == 0,
            r@.idle_timeout == idle_timeout,
            r@.default_ttl == default_ttl,
            r@.key.len() == 32,
    {
        SessionManager {
            signing_key: random_key(),
            idle_timeout,
            default_ttl,
            started: clock_start(),
            sessions: Table::new(),
        }
    }

    /// The manager's clock: nanoseconds since it was made.
    pub fn tick(&self) -> (r: u128) {
        nanos_since(&self.started)
    }

    /// Issues a token under the given identifier, at the given times.
    pub fn issue_at(
        &mut self,
        session_id: Uuid,
        peer_id: Uuid,
        capabilities: Vec<Capability>,
        ttl: i128,
        now: Timestamp,
        tick: u128,
    ) -> (r: SessionToken)
        requires
            now.in_range(),
            ttl_fits(ttl),
        ensures
            r@ == old(self)@.token(session_id, peer_id, capabilities@, ttl as int, now),
            final(self)@ == old(self)@.with_entry(
                EntryView { token: r@, last_activity: tick, killed: false, controlling: false },
            ),
            r@.has_millis(),
    {
        let mut token = SessionToken {
            session_id,
            peer_id,
            issued_at: now,
            expires_at: now.later(ttl),
            capabilities,
            hmac: Vec::new(),
        };
        let bytes = token.canonical_bytes();
        let tag = hmac_tag(self.signing_key.as_slice(), bytes.as_slice());
        assert(token.hmac@ =~= Seq::empty());
        token.hmac = vstd::slice::slice_to_vec(tag.as_slice());
        self.sessions.upsert(
            SessionEntry {
                token: token.clone(),
                last_activity: tick,
                killed: false,
                controlling: false,
            },
        );
        token
    }

    /// Issues a token with an explicit lifetime in nanoseconds. Where that is not
    /// positive the token has expired already.
    pub fn issue_with_ttl(&mut self, peer_id: Uuid, capabilities: Vec<Capability>, ttl: i128) -> (r:
        SessionToken)
        requires
            ttl_fits(ttl),
        ensures
            r@ == old(self)@.token(
                r@.session_id,
                peer_id,
                capabilities@,
                ttl as int,
                r@.issued_at,
            ),
            is_v4(r@.session_id.0),
            r@.issued_at.of_clock(),
            exists|tick: u128|
                final(self)@ == #[trigger] old(self)@.with_entry(
                    EntryView { token: r@, last_activity: tick, killed: false, controlling: false },
                ),
            r@.has_millis(),
    {
        let tick = self.tick();
        self.issue_at(Uuid::new_v4(), peer_id, capabilities, ttl, utc_now(), tick)
    }

    /// Issues a token with the default lifetime.
    pub fn issue(&mut self, peer_id: Uuid, capabilities: Vec<Capability>) -> (r: SessionToken)
        requires
            ttl_fits(old(self)@.default_ttl),
        ensures
            r@ == old(self)@.token(
                r@.session_id,
                peer_id,
                capabilities@,
                old(self)@.default_ttl as int,
                r@.issued_at,
            ),
            is_v4(r@.session_id.0),
            r@.issued_at.of_clock(),
            exists|tick: u128|
                final(self)@ == #[trigger] old(self)@.with_entry(
                    EntryView { token: r@, last_activity: tick, killed: false, controlling: false },
                ),
            r@.has_millis(),
    {
        let ttl: i128 = self.default_ttl;
        self.issue_with_ttl(peer_id, capabilities, ttl)
    }

    /// Validates a token at the given times: its signature first, then that its
    /// session is active.
    pub fn validate_at(&self, token: &SessionToken, now: Timestamp, tick: u128) -> (r: Result<
        (),
        ConnectivityError,
    >)
        requires
            token@.has_millis(),
        ensures
            unit_result(r) == self@.validated(token@, now, tick),
    {
        let bytes = token.canonical_bytes();
        if !hmac_verify(self.signing_key.as_slice(), bytes.as_slice(), token.hmac.as_slice()) {
            return Err(session_err(token.session_id, "invalid token signature"));
        }
        self.ensure_active_at(token.session_id, now, tick)
    }

    /// Validates a token now.
    pub fn validate(&self, token: &SessionToken) -> (r: Result<(), ConnectivityError>)
        requires
            token@.has_millis(),
        ensures
            exists|now: Timestamp, tick: u128|
                now.of_clock() && unit_result(r) == #[trigger] self@.validated(token@, now, tick),
    {
        let now = utc_now();
        let tick = self.tick();
        self.validate_at(token, now, tick)
    }

    /// Checks that a session is active at the given times.
    pub fn ensure_active_at(&self, session_id: Uuid, now: Timestamp, tick: u128) -> (r: Result<
        (),
        ConnectivityError,
    >)
        ensures
            unit_result(r) == self@.checked(session_id, now, tick),
    {
        match self.sessions.get(session_id) {
            None => Err(session_err(session_id, "unknown session")),
            Some(entry) => {
                if entry.killed {
                    return Err(session_err(session_id, "session was killed"));
                }
                if !now.before(&entry.token.expires_at) {
                    return Err(session_err(session_id, "session token expired"));
                }
                let idle: u128 = if tick > entry.last_activity {
                    tick - entry.last_activity
                } else {
                    0
                };
                if idle > self.idle_timeout {
                    return Err(session_err(session_id, "session idle timeout exceeded"));
                }
                Ok(())
            },
        }
    }

    /// Checks that a session is active now.
    pub fn ensure_active(&self, session_id: Uuid) -> (r: Result<(), ConnectivityError>)
        ensures
            exists|now: Timestamp, tick: u128|
                now.of_clock() && unit_result(r) == #[trigger] self@.checked(session_id, now, tick),
    {
        let now = utc_now();
        let tick = self.tick();
        self.ensure_active_at(session_id, now, tick)
    }

    /// Records traffic on a session at the given time of the clock.
    pub fn record_activity_at(&mut self, session_id: Uuid, tick: u128)
        ensures
            final(self)@ == old(self)@.active_at(session_id, tick),
    {
        let changed = match self.sessions.get(session_id) {
            Some(entry) => {
                let mut e = entry.clone();
                e.last_activity = tick;
                Some(e)
            },
            None => None,
        };
        match changed {
            Some(e) => self.sessions.upsert(e),
            None => {},
        }
    }

    /// Records traffic on a session, which starts its idle time anew.
    pub fn record_activity(&mut self, session_id: Uuid)
        ensures
            exists|tick: u128| final(self)@ == #[trigger] old(self)@.active_at(session_id, tick),
    {
        let tick = self.tick();
        self.record_activity_at(session_id, tick);
    }

    /// The kill-switch: invalidates a session for good. Returns whether it existed.
    pub fn kill(&mut self, session_id: Uuid) -> (r: bool)
        ensures
            final(self)@ == old(self)@.killed(session_id),
            r == found::<SessionEntry>(old(self)@.sessions, session_id) is Some,
    {
        let changed = match self.sessions.get(session_id) {
            Some(entry) => {
                let mut e = entry.clone();
                e.killed = true;
                e.controlling = false;
                Some(e)
            },
            None => None,
        };
        match changed {
            Some(e) => {
                self.sessions.upsert(e);
                true
            },
            None => false,
        }
    }

    /// Sets the takeover flag at the given times. The session has to be active,
    /// and to take over it has to carry the capability.
    pub fn set_controlling_at(
        &mut self,
        session_id: Uuid,
        controlling: bool,
        now: Timestamp,
        tick: u128,
    ) -> (r: Result<(), ConnectivityError>)
        ensures
            (final(self)@, unit_result(r)) == old(self)@.controlled(
                session_id,
                controlling,
                now,
                tick,
            ),
    {
        match self.ensure_active_at(session_id, now, tick) {
            Err(e) => {
                return Err(e);
            },
            Ok(()) => {},
        }
        let changed = match self.sessions.get(session_id) {
            None => {
                return Err(session_err(session_id, "unknown session"));
            },
            Some(entry) => {
                if controlling && !entry.token.has_capability(Capability::Takeover) {
                    return Err(session_err(session_id, "session lacks takeover capability"));
                }
                let mut e = entry.clone();
                e.controlling = controlling;
                e
            },
        };
        self.sessions.upsert(changed);
        Ok(())
    }

    /// Sets the takeover flag now.
    pub fn set_controlling(&mut self, session_id: Uuid, controlling: bool) -> (r: Result<
        (),
        ConnectivityError,
    >)
        ensures
            exists|now: Timestamp, tick: u128|
                now.of_clock() && (final(self)@, unit_result(r)) == #[trigger] old(self)@.controlled(session_id, controlling, now, tick),
    {
        let now = utc_now();
        let tick = self.tick();
        self.set_controlling_at(session_id, controlling, now, tick)
    }

    /// Whether a session is controlling this device. One that was killed, or is
    /// not known, is not.
    pub fn is_controlling(&self, session_id: Uuid) -> (r: bool)
        ensures
            r == self@.controls(session_id),
    {
        match self.sessions.get(session_id) {
            Some(e) => e.controlling && !e.killed,
            None => false,
        }
    }

    /// The sessions that are active at the given times.
    pub fn active_sessions_at(&self, now: Timestamp, tick: u128) -> (r: Vec<Uuid>)
        ensures
            r@ == self@.active(now, tick),
    {
        let rows = self.sessions.rows();
        let ghost all = self@.sessions;
        let ghost f = |e: EntryView| self@.active_id(e, now, tick);
        let mut out: Vec<Uuid> = Vec::new();
        let mut i: usize = 0;
        assert(all.take(0) =~= Seq::empty());
        while i < rows.len()
            invariant
                i <= rows.len(),
                all == views(rows@),
                f == (|e: EntryView| self@.active_id(e, now, tick)),
                out@ == pick(all.take(i as int), f),
            decreases rows.len() - i,
        {
            proof {
                lemma_pick_take(all, f, i as int);
            }
            let id = rows[i].token.session_id;
            match self.ensure_active_at(id, now, tick) {
                Ok(()) => out.push(id),
                Err(_) => {},
            }
            i += 1;
        }
        assert(all.take(all.len() as int) =~= all);
        out
    }

    /// The sessions that are active now.
    pub fn active_sessions(&self) -> (r: Vec<Uuid>)
        ensures
            exists|now: Timestamp, tick: u128|
                now.of_clock() && r@ == #[trigger] self@.active(now, tick),
    {
        let now = utc_now();
        let tick = self.tick();
        self.active_sessions_at(now, tick)
    }
}

impl Default for SessionManager {
    fn default() -> (r: Self)
        ensures
            r@.sessions.len() == 0,
            r@.idle_timeout == DEFAULT_IDLE_TIMEOUT,
            r@.default_ttl == DEFAULT_TTL,
    {
        SessionManager::new()
    }
}

/// An envelope that belongs to a session.
pub open spec fn stamped(e: EnvelopeView, session_id: Uuid) -> EnvelopeView {
    EnvelopeView { session_id, ..e }
}

/// A bus of one session: nothing is sent on it unless the session is active.
pub struct SessionBoundBus<B> {
    inner: B,
    session_id: Uuid,
}

impl<B> SessionBoundBus<B> {
    /// The session of the bus.
    pub closed spec fn session(&self) -> Uuid {
        self.session_id
    }

    /// The bus that carries what is sent.
    pub closed spec fn carrier(&self) -> B {
        self.inner
    }

    /// A bus bound to a session.
    pub fn new(inner: B, session_id: Uuid) -> (r: SessionBoundBus<B>)
        ensures
            r.session() == session_id,
            r.carrier() == inner,
    {
        SessionBoundBus { inner, session_id }
    }

    /// The session of the bus.
    pub fn session_id(&self) -> (r: Uuid)
        ensures
            r == self.session(),
    {
        self.session_id
    }

    /// The bus that carries what is sent.
    pub fn inner(&self) -> (r: &B)
        ensures
            *r == self.carrier(),
    {
        &self.inner
    }

    /// Admits an envelope at the given times: it gets the mark of the session,
    /// and counts as traffic on it. What is returned is to be sent on the inner bus.
    pub fn send_at(
        &self,
        manager: &mut SessionManager,
        envelope: MultiplexedEnvelope,
        now: Timestamp,
        tick: u128,
    ) -> (r: Result<MultiplexedEnvelope, ConnectivityError>)
        ensures
            match old(manager)@.checked(self.session(), now, tick) {
                Ok(()) => outcome(r) == Ok::<EnvelopeView, ConnectivityErrorView>(
                    stamped(envelope@, self.session()),
                ) && final(manager)@ == old(manager)@.active_at(self.session(), tick),
                Err(e) => outcome(r) == Err::<EnvelopeView, ConnectivityErrorView>(e) && final(manager)@ == old(manager)@,
            },
    {
        match manager.ensure_active_at(self.session_id, now, tick) {
            Err(e) => Err(e),
            Ok(()) => {
                let mut envelope = envelope;
                envelope.session_id = self.session_id;
                manager.record_activity_at(self.session_id, tick);
                Ok(envelope)
            },
        }
    }

    /// Admits an envelope now.
    pub fn send(&self, manager: &mut SessionManager, envelope: MultiplexedEnvelope) -> (r: Result<
        MultiplexedEnvelope,
        ConnectivityError,
    >)
        ensures
            exists|now: Timestamp, tick: u128|
                now.of_clock() && (match #[trigger] old(manager)@.checked(
                    self.session(),
                    now,
                    tick,
                ) {
                    Ok(()) => outcome(r) == Ok::<EnvelopeView, ConnectivityErrorView>(
                        stamped(envelope@, self.session()),
                    ) && final(manager)@ == old(manager)@.active_at(self.session(), tick),
                    Err(e) => outcome(r) == Err::<EnvelopeView, ConnectivityErrorView>(e) && final(manager)@ == old(manager)@,
                }),
    {
        let now = utc_now();
        let tick = manager.tick();
        self.send_at(manager, envelope, now, tick)
    }
}

/// A token that was just issued, with a lifetime that is positive, is valid;
/// its session is active, and controls nothing.
pub proof fn law_fresh_token_is_valid(
    v: SessionsView,
    id: Uuid,
    peer: Uuid,
    caps: Seq<Capability>,
    ttl: int,
    now: Timestamp,
    tick: u128,
)
    requires
        now.of_clock(),
        0 < ttl <= 9_000_000_000_000_000_000_000_000,
    ensures
        ({
            let token = v.token(id, peer, caps, ttl, now);
            let after = v.with_entry(
                EntryView { token, last_activity: tick, killed: false, controlling: false },
            );
            &&& after.validated(token, now, tick) == Ok::<(), ConnectivityErrorView>(())
            &&& !after.controls(id)
        }),
{
    let token = v.token(id, peer, caps, ttl, now);
    let e = EntryView { token, last_activity: tick, killed: false, controlling: false };
    law_written_record_is_read_back::<SessionEntry>(v.sessions, e, id);
    let t = now.total_nanos() + ttl;
    assert(now.before_spec(now.later_spec(ttl)));
    assert(token.signed_bytes() == (TokenView { hmac: Seq::empty(), ..token }).signed_bytes());
}

/// A token whose lifetime is not positive is not valid at any later time.
pub proof fn law_expired_token_is_refused(
    v: SessionsView,
    id: Uuid,
    peer: Uuid,
    caps: Seq<Capability>,
    ttl: int,
    issued: Timestamp,
    started: u128,
    now: Timestamp,
    tick: u128,
)
    requires
        issued.of_clock(),
        -9_000_000_000_000_000_000_000_000 <= ttl <= 0,
        !now.before_spec(issued),
    ensures
        ({
            let token = v.token(id, peer, caps, ttl, issued);
            let after = v.with_entry(
                EntryView { token, last_activity: started, killed: false, controlling: false },
            );
            after.validated(token, now, tick) == Err::<(), ConnectivityErrorView>(
                session_error(id, "session token expired"@),
            )
        }),
{
    let token = v.token(id, peer, caps, ttl, issued);
    let e = EntryView { token, last_activity: started, killed: false, controlling: false };
    law_written_record_is_read_back::<SessionEntry>(v.sessions, e, id);
    assert(!issued.before_spec(issued.later_spec(ttl)));
    assert(token.signed_bytes() == (TokenView { hmac: Seq::empty(), ..token }).signed_bytes());
}

/// A token whose signed fields were changed without signing it anew is refused,
/// unless the two have the same HMAC.
pub proof fn law_tampered_token_is_refused(
    v: SessionsView,
    token: TokenView,
    forged: TokenView,
    now: Timestamp,
    tick: u128,
)
    requires
        v.signed(token),
        forged.hmac == token.hmac,
        hmac_sha256(v.key, forged.signed_bytes()) != hmac_sha256(v.key, token.signed_bytes()),
    ensures
        v.validated(forged, now, tick) == Err::<(), ConnectivityErrorView>(
            session_error(forged.session_id, "invalid token signature"@),
        ),
{
}

/// A session that was killed is refused from then on, whatever the time, and
/// controls nothing; no traffic and no flag brings it back.
pub proof fn law_killed_session_stays_dead(
    v: SessionsView,
    id: Uuid,
    now: Timestamp,
    tick: u128,
    later: u128,
    flag: bool,
)
    requires
        found::<SessionEntry>(v.sessions, id) is Some,
    ensures
        ({
            let after = v.killed(id);
            let refused = Err::<(), ConnectivityErrorView>(
                session_error(id, "session was killed"@),
            );
            &&& after.checked(id, now, tick) == refused
            &&& !after.controls(id)
            &&& after.active_at(id, later).checked(id, now, tick) == refused
            &&& !after.active_at(id, later).controls(id)
            &&& after.controlled(id, flag, now, tick) == (after, refused)
        }),
{
    let e = found::<SessionEntry>(v.sessions, id)->0;
    crate::table::lemma_place_of::<SessionEntry>(v.sessions, id);
    let dead = EntryView { killed: true, controlling: false, ..e };
    law_written_record_is_read_back::<SessionEntry>(v.sessions, dead, id);
    let after = v.killed(id);
    let touched = EntryView { last_activity: later, ..dead };
    law_written_record_is_read_back::<SessionEntry>(after.sessions, touched, id);
}

/// Killing one session changes nothing for another.
pub proof fn law_kill_spares_other_sessions(
    v: SessionsView,
    id: Uuid,
    other: Uuid,
    now: Timestamp,
    tick: u128,
)
    requires
        id != other,
    ensures
        v.killed(id).checked(other, now, tick) == v.checked(other, now, tick),
        v.killed(id).controls(other) == v.controls(other),
{
    if let Some(e) = found::<SessionEntry>(v.sessions, id) {
        crate::table::lemma_place_of::<SessionEntry>(v.sessions, id);
        let dead = EntryView { killed: true, controlling: false, ..e };
        law_written_record_is_read_back::<SessionEntry>(v.sessions, dead, other);
    }
}

/// A session that expired or was idle too long is refused at every later time.
pub proof fn law_refusal_lasts(
    v: SessionsView,
    id: Uuid,
    now: Timestamp,
    tick: u128,
    later: Timestamp,
    later_tick: u128,
)
    requires
        v.checked(id, now, tick) is Err,
        !later.before_spec(now),
        tick <= later_tick,
    ensures
        v.checked(id, later, later_tick) is Err,
{
}

/// Traffic keeps a session from being refused for idleness, until the timeout
/// has passed again.
pub proof fn law_traffic_keeps_a_session_awake(
    v: SessionsView,
    id: Uuid,
    now: Timestamp,
    tick: u128,
    later: Timestamp,
    later_tick: u128,
)
    requires
        v.checked(id, now, tick) is Ok,
        later_tick - tick <= v.idle_timeout,
        later.before_spec(found::<SessionEntry>(v.sessions, id)->0.token.expires_at),
    ensures
        v.active_at(id, tick).checked(id, later, later_tick) is Ok,
{
    let e = found::<SessionEntry>(v.sessions, id)->0;
    crate::table::lemma_place_of::<SessionEntry>(v.sessions, id);
    law_written_record_is_read_back::<SessionEntry>(
        v.sessions,
        EntryView { last_activity: tick, ..e },
        id,
    );
}

/// A session without the capability never comes to control this device.
pub proof fn law_takeover_needs_the_capability(
    v: SessionsView,
    id: Uuid,
    flag: bool,
    now: Timestamp,
    tick: u128,
)
    requires
        found::<SessionEntry>(v.sessions, id) matches Some(e) ==> !e.token.capabilities.contains(
            Capability::Takeover,
        ),
        !v.controls(id),
    ensures
        !v.controlled(id, flag, now, tick).0.controls(id),
        flag ==> v.controlled(id, flag, now, tick).1 is Err,
{
    if let Some(e) = found::<SessionEntry>(v.sessions, id) {
        crate::table::lemma_place_of::<SessionEntry>(v.sessions, id);
        law_written_record_is_read_back::<SessionEntry>(
            v.sessions,
            EntryView { controlling: flag, ..e },
            id,
        );
    }
}

/// A session is active just while it is known, was not killed, its token has not expired,
/// and its last traffic lies no further back than the timeout. Where it is not, the error
/// names the session and says which of these failed.
pub proof fn law_session_is_active_just_while(
    v: SessionsView,
    id: Uuid,
    now: Timestamp,
    tick: u128,
)
    ensures
        match found::<SessionEntry>(v.sessions, id) {
            None => v.checked(id, now, tick) == Err::<(), ConnectivityErrorView>(
                session_error(id, "unknown session"@),
            ),
            Some(e) => {
                &&& v.checked(id, now, tick) is Ok <==> !e.killed && now.before_spec(
                    e.token.expires_at,
                ) && tick - e.last_activity <= v.idle_timeout
                &&& e.killed ==> v.checked(id, now, tick) == Err::<(), ConnectivityErrorView>(
                    session_error(id, "session was killed"@),
                )
                &&& !e.killed && !now.before_spec(e.token.expires_at) ==> v.checked(id, now, tick)
                    == Err::<(), ConnectivityErrorView>(
                    session_error(id, "session token expired"@),
                )
                &&& !e.killed && now.before_spec(e.token.expires_at) && tick - e.last_activity
                    > v.idle_timeout ==> v.checked(id, now, tick) == Err::<
                    (),
                    ConnectivityErrorView,
                >(session_error(id, "session idle timeout exceeded"@))
            },
        },
        forall|reason: Seq<char>| #[trigger]
            session_error(id, reason) matches ConnectivityErrorView::Transport { message }
                && stands_at(message, id.text(), 8) && stands_at(
                message,
                reason,
                message.len() - reason.len(),
            ),
{
    reveal_strlit("session ");
}

/// An active session that may take over controls this device just as it is told to, and
/// one that may not can still give control up. The sessions themselves stay as they are.
pub proof fn law_takeover_is_set_as_told(
    v: SessionsView,
    id: Uuid,
    flag: bool,
    now: Timestamp,
    tick: u128,
    other: Uuid,
)
    requires
        v.checked(id, now, tick) is Ok,
        found::<SessionEntry>(v.sessions, id)->0.token.capabilities.contains(Capability::Takeover)
            || !flag,
    ensures
        ({
            let (after, r) = v.controlled(id, flag, now, tick);
            &&& r is Ok
            &&& after.controls(id) == flag
            &&& after.checked(id, now, tick) is Ok
            &&& other != id ==> after.controls(other) == v.controls(other)
        }),
{
    let e = found::<SessionEntry>(v.sessions, id)->0;
    crate::table::lemma_place_of::<SessionEntry>(v.sessions, id);
    let told = EntryView { controlling: flag, ..e };
    law_written_record_is_read_back::<SessionEntry>(v.sessions, told, id);
    law_written_record_is_read_back::<SessionEntry>(v.sessions, told, other);
}

/// The list of active sessions names just the sessions that a check would find active, in
/// the order in which they are kept.
pub proof fn law_active_sessions_are_all_listed(v: SessionsView, now: Timestamp, tick: u128)
    ensures
        ({
            let live = v.sessions.filter(
                |e: EntryView| v.checked(e.token.session_id, now, tick) is Ok,
            );
            v.active(now, tick) == Seq::new(live.len(), |i: int| live[i].token.session_id)
        }),
{
    let f = |e: EntryView| v.active_id(e, now, tick);
    let ok = |e: EntryView| v.checked(e.token.session_id, now, tick) is Ok;
    lemma_pick_filter(v.sessions, f);
    lemma_same_filter(v.sessions, |e: EntryView| f(e) is Some, ok);
    let live = v.sessions.filter(ok);
    assert forall|i: int| 0 <= i < live.len() implies f(#[trigger] live[i]) == Some(
        live[i].token.session_id,
    ) by {
        v.sessions.lemma_filter_pred(ok, i);
    }
    assert(v.active(now, tick) =~= Seq::new(live.len(), |i: int| live[i].token.session_id));
}

/// A token names its session and its peer, grants just the capabilities that were given,
/// ends its lifetime after it was issued, and carries the manager's signature.
pub proof fn law_token_says_what_was_granted(
    v: SessionsView,
    id: Uuid,
    peer: Uuid,
    caps: Seq<Capability>,
    ttl: int,
    now: Timestamp,
)
    requires
        now.of_clock(),
        -9_000_000_000_000_000_000_000_000 <= ttl <= 9_000_000_000_000_000_000_000_000,
    ensures
        ({
            let t = v.token(id, peer, caps, ttl, now);
            &&& t.session_id == id && t.peer_id == peer && t.capabilities == caps
            &&& t.issued_at == now && t.expires_at.total_nanos() == now.total_nanos() + ttl
            &&& v.signed(t)
        }),
{
    let t = v.token(id, peer, caps, ttl, now);
    assert(t.signed_bytes() == (TokenView { hmac: Seq::empty(), ..t }).signed_bytes());
    law_later_is_later(now, ttl);
}

/// Traffic on one session changes nothing for another.
pub proof fn law_traffic_spares_other_sessions(
    v: SessionsView,
    id: Uuid,
    other: Uuid,
    now: Timestamp,
    tick: u128,
    later: u128,
)
    requires
        id != other,
    ensures
        v.active_at(id, later).checked(other, now, tick) == v.checked(other, now, tick),
        v.active_at(id, later).controls(other) == v.controls(other),
        v.active_at(id, later).controls(id) == v.controls(id),
{
    if let Some(e) = found::<SessionEntry>(v.sessions, id) {
        crate::table::lemma_place_of::<SessionEntry>(v.sessions, id);
        let touched = EntryView { last_activity: later, ..e };
        law_written_record_is_read_back::<SessionEntry>(v.sessions, touched, other);
        law_written_record_is_read_back::<SessionEntry>(v.sessions, touched, id);
    }
}

/// An envelope that is admitted belongs to the session, and is otherwise as it was given.
pub proof fn law_admitted_envelope_is_as_given(e: EnvelopeView, id: Uuid)
    ensures
        stamped(e, id).session_id == id,
        stamped(e, id).channel == e.channel,
        stamped(e, id).seq_no == e.seq_no,
        stamped(e, id).payload_type == e.payload_type,
        stamped(e, id).payload_bytes == e.payload_bytes,
{
}

/// A token is valid just where it carries the manager's signature over what it says and its
/// session is active; one with another signature is refused for that, whatever it says.
pub proof fn law_token_is_valid_just_where_signed_and_active(
    v: SessionsView,
    token: TokenView,
    now: Timestamp,
    tick: u128,
)
    ensures
        v.validated(token, now, tick) is Ok <==> token.hmac == hmac_sha256(
            v.key,
            token.signed_bytes(),
        ) && v.checked(token.session_id, now, tick) is Ok,
        token.hmac != hmac_sha256(v.key, token.signed_bytes()) ==> v.validated(token, now, tick)
            == Err::<(), ConnectivityErrorView>(
            session_error(token.session_id, "invalid token signature"@),
        ),
        token.hmac == hmac_sha256(v.key, token.signed_bytes()) ==> v.validated(token, now, tick)
            == v.checked(token.session_id, now, tick),
{
}

} // verus!
