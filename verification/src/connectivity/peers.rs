//! The peers that are known, with how they can be reached.

use crate::ident::{utc_now, Timestamp, Uuid};
use crate::model::views;
use crate::table::{found, with_record, without_record, Record, Table};
use vstd::prelude::*;

verus! {

/// How a peer's address is reached.
#[derive(Clone, Copy, Debug, PartialEq, Eq, Structural)]
pub enum PeerTransport {
    Mdns,
    QuicDirect,
    Relay,
    Tcp,
}

/// One way to reach a peer.
#[derive(Debug)]
pub struct PeerAddress {
    pub transport: PeerTransport,
    pub addr: String,
}

/// [`PeerAddress`] as a mathematical value.
pub struct AddressView {
    pub transport: PeerTransport,
    pub addr: Seq<char>,
}

impl View for PeerAddress {
    type V = AddressView;

    open spec fn view(&self) -> AddressView {
        AddressView { transport: self.transport, addr: self.addr@ }
    }
}

impl Clone for PeerAddress {
    fn clone(&self) -> (r: Self)
        ensures
            r@ == self@,
    {
        PeerAddress { transport: self.transport, addr: self.addr.clone() }
    }
}

/// Whether a peer can be reached right now.
#[derive(Clone, Copy, Debug, PartialEq, Eq, Structural)]
pub enum Reachability {
    /// Never probed.
    Unknown,
    /// At least one address answered recently.
    Reachable,
    /// All known addresses failed recently.
    Unreachable,
}

impl Default for Reachability {
    fn default() -> (r: Self)
        ensures
            r == Reachability::Unknown,
    {
        Reachability::Unknown
    }
}

/// What is known about a peer.
#[derive(Debug)]
pub struct PeerDescriptor {
    pub peer_id: Uuid,
    pub display_name: String,
    pub public_key: [u8; 32],
    pub addresses: Vec<PeerAddress>,
    pub reachability: Reachability,
    pub last_seen: Timestamp,
    /// Round-trip latency, where one was measured.
    pub latency_ms: Option<u32>,
    /// The load that the peer reports, from nothing to full: the bits of a
    /// single-precision number, which are carried and not read here.
    pub load_hint: Option<u32>,
}

/// [`PeerDescriptor`] as a mathematical value.
pub struct PeerView {
    pub peer_id: Uuid,
    pub display_name: Seq<char>,
    pub public_key: [u8; 32],
    pub addresses: Seq<AddressView>,
    pub reachability: Reachability,
    pub last_seen: Timestamp,
    pub latency_ms: Option<u32>,
    pub load_hint: Option<u32>,
}

impl View for PeerDescriptor {
    type V = PeerView;

    open spec fn view(&self) -> PeerView {
        PeerView {
            peer_id: self.peer_id,
            display_name: self.display_name@,
            public_key: self.public_key,
            addresses: views(self.addresses@),
            reachability: self.reachability,
            last_seen: self.last_seen,
            latency_ms: self.latency_ms,
            load_hint: self.load_hint,
        }
    }
}

fn clone_addresses(v: &Vec<PeerAddress>) -> (r: Vec<PeerAddress>)
    ensures
        views(r@) == views(v@),
{
    let mut out: Vec<PeerAddress> = Vec::new();
    let mut i: usize = 0;
    while i < v.len()
        invariant
            i <= v.len(),
            out.len() == i,
            forall|j: int| 0 <= j < i ==> out@[j]@ == v@[j]@,
        decreases v.len() - i,
    {
        out.push(v[i].clone());
        i += 1;
    }
    assert(views(out@) =~= views(v@));
    out
}

impl Clone for PeerDescriptor {
    fn clone(&self) -> (r: Self)
        ensures
            r@ == self@,
    {
        PeerDescriptor {
            peer_id: self.peer_id,
            display_name: self.display_name.clone(),
            public_key: self.public_key,
            addresses: clone_addresses(&self.addresses),
            reachability: self.reachability,
            last_seen: self.last_seen,
            latency_ms: self.latency_ms,
            load_hint: self.load_hint,
        }
    }
}

impl Record for PeerDescriptor {
    open spec fn key_of(v: PeerView) -> Uuid {
        v.peer_id
    }

    fn key(&self) -> (r: Uuid) {
        self.peer_id
    }
}

impl PeerDescriptor {
    /// A peer of which nothing more is known, seen now.
    pub fn new(peer_id: Uuid, display_name: &str, public_key: [u8; 32]) -> (r: PeerDescriptor)
        ensures
            r@ == (PeerView {
                peer_id,
                display_name: display_name@,
                public_key,
                addresses: Seq::empty(),
                reachability: Reachability::Unknown,
                last_seen: r@.last_seen,
                latency_ms: None,
                load_hint: None,
            }),
            r@.last_seen.of_clock(),
    {
        let r = PeerDescriptor {
            peer_id,
            display_name: display_name.to_owned(),
            public_key,
            addresses: Vec::new(),
            reachability: Reachability::Unknown,
            last_seen: utc_now(),
            latency_ms: None,
            load_hint: None,
        };
        assert(views(r.addresses@) =~= Seq::empty());
        r
    }
}

/// A copy of the registry at a point in time.
pub struct PeerRegistrySnapshot {
    pub taken_at: Timestamp,
    pub peers: Vec<PeerDescriptor>,
}

/// The table of peers.
pub struct PeerRegistry {
    peers: Table<PeerDescriptor>,
}

impl View for PeerRegistry {
    type V = Seq<PeerView>;

    closed spec fn view(&self) -> Seq<PeerView> {
        self.peers@
    }
}

/// The peers with one of them changed, where it is known.
pub open spec fn changed(
    s: Seq<PeerView>,
    id: Uuid,
    change: spec_fn(PeerView) -> PeerView,
) -> Seq<PeerView> {
    match found::<PeerDescriptor>(s, id) {
        Some(p) => with_record::<PeerDescriptor>(s, change(p)),
        None => s,
    }
}

/// The bits of the single-precision number one.
pub const ONE_BITS: u32 = 0x3f80_0000;

/// The bits of infinity; of its negative they are greater by the sign bit.
pub const INFINITY_BITS: u32 = 0x7f80_0000;

/// The sign bit.
pub const SIGN_BIT: u32 = 0x8000_0000;

/// A single-precision number held between zero and one, by its bits: the bits of
/// numbers of one sign are in the order of their magnitudes. What is no number
/// stays as it is, and so does negative zero, which is not below zero.
pub open spec fn clamped_load(bits: u32) -> u32 {
    if ONE_BITS < bits <= INFINITY_BITS {
        ONE_BITS
    } else if SIGN_BIT < bits <= SIGN_BIT + INFINITY_BITS {
        0
    } else {
        bits
    }
}

fn clamp_load(bits: u32) -> (r: u32)
    ensures
        r == clamped_load(bits),
{
    if ONE_BITS < bits && bits <= INFINITY_BITS {
        ONE_BITS
    } else if SIGN_BIT < bits && bits <= SIGN_BIT + INFINITY_BITS {
        0
    } else {
        bits
    }
}

impl PeerRegistry {
    /// A registry without peers.
    pub fn new() -> (r: PeerRegistry)
        ensures
            r@ == Seq::<PeerView>::empty(),
    {
        PeerRegistry { peers: Table::new() }
    }

    /// Writes a peer, over that of the same identifier where there is one.
    pub fn upsert(&mut self, descriptor: PeerDescriptor)
        ensures
            final(self)@ == with_record::<PeerDescriptor>(old(self)@, descriptor@),
    {
        self.peers.upsert(descriptor);
    }

    /// The peer with an identifier.
    pub fn get(&self, peer_id: Uuid) -> (r: Option<PeerDescriptor>)
        ensures
            crate::model::opt(r) == found::<PeerDescriptor>(self@, peer_id),
    {
        match self.peers.get(peer_id) {
            Some(p) => Some(p.clone()),
            None => None,
        }
    }

    /// Removes the peer with an identifier, and returns it.
    pub fn remove(&mut self, peer_id: Uuid) -> (r: Option<PeerDescriptor>)
        ensures
            crate::model::opt(r) == found::<PeerDescriptor>(old(self)@, peer_id),
            final(self)@ == without_record::<PeerDescriptor>(old(self)@, peer_id),
    {
        let r = self.get(peer_id);
        self.peers.delete(peer_id);
        r
    }

    /// Marks a peer as seen at the given time, with its reachability.
    pub fn mark_seen_at(&mut self, peer_id: Uuid, reachability: Reachability, now: Timestamp)
        ensures
            final(self)@ == changed(
                old(self)@,
                peer_id,
                |p: PeerView| PeerView { last_seen: now, reachability, ..p },
            ),
    {
        match self.get(peer_id) {
            Some(p) => {
                let mut p = p;
                p.last_seen = now;
                p.reachability = reachability;
                self.peers.upsert(p);
            },
            None => {},
        }
    }

    /// Marks a peer as seen now, with its reachability.
    pub fn mark_seen(&mut self, peer_id: Uuid, reachability: Reachability)
        ensures
            exists|now: Timestamp|
                #![trigger now.of_clock()]
                now.of_clock() && final(self)@ == changed(
                    old(self)@,
                    peer_id,
                    |p: PeerView| PeerView { last_seen: now, reachability, ..p },
                ),
    {
        let now = utc_now();
        self.mark_seen_at(peer_id, reachability, now);
    }

    /// Records a measured round-trip latency.
    pub fn record_latency(&mut self, peer_id: Uuid, latency_ms: u32)
        ensures
            final(self)@ == changed(
                old(self)@,
                peer_id,
                |p: PeerView| PeerView { latency_ms: Some(latency_ms), ..p },
            ),
    {
        match self.get(peer_id) {
            Some(p) => {
                let mut p = p;
                p.latency_ms = Some(latency_ms);
                self.peers.upsert(p);
            },
            None => {},
        }
    }

    /// Records the load that a peer reports, held between zero and one. The load
    /// is given and kept by the bits of a single-precision number.
    pub fn record_load_hint(&mut self, peer_id: Uuid, load: u32)
        ensures
            final(self)@ == changed(
                old(self)@,
                peer_id,
                |p: PeerView| PeerView { load_hint: Some(clamped_load(load)), ..p },
            ),
    {
        match self.get(peer_id) {
            Some(p) => {
                let mut p = p;
                p.load_hint = Some(clamp_load(load));
                self.peers.upsert(p);
            },
            None => {},
        }
    }

    /// A copy of the registry, taken now.
    pub fn snapshot(&self) -> (r: PeerRegistrySnapshot)
        ensures
            views(r.peers@) == self@,
            r.taken_at.of_clock(),
    {
        let rows = self.peers.rows();
        let mut peers: Vec<PeerDescriptor> = Vec::new();
        let mut i: usize = 0;
        while i < rows.len()
            invariant
                i <= rows.len(),
                peers.len() == i,
                forall|j: int| 0 <= j < i ==> peers@[j]@ == rows@[j]@,
            decreases rows.len() - i,
        {
            peers.push(rows[i].clone());
            i += 1;
        }
        assert(views(peers@) =~= views(rows@));
        PeerRegistrySnapshot { taken_at: utc_now(), peers }
    }

    /// The number of peers.
    pub fn len(&self) -> (r: usize)
        ensures
            r == self@.len(),
    {
        self.peers.rows().len()
    }

    /// Whether there is no peer.
    pub fn is_empty(&self) -> (r: bool)
        ensures
            r == (self@.len() == 0),
    {
        self.len() == 0
    }
}

impl Default for PeerRegistry {
    fn default() -> (r: Self)
        ensures
            r@ == Seq::<PeerView>::empty(),
    {
        PeerRegistry::new()
    }
}

/// A change reaches the peer that it is for, where that is known, and no other.
pub proof fn law_change_reaches_one_peer(
    s: Seq<PeerView>,
    id: Uuid,
    change: spec_fn(PeerView) -> PeerView,
    other: Uuid,
)
    requires
        forall|p: PeerView| (#[trigger] change(p)).peer_id == p.peer_id,
    ensures
        found::<PeerDescriptor>(s, id) matches Some(p) ==> found::<PeerDescriptor>(
            changed(s, id, change),
            id,
        ) == Some(change(p)),
        found::<PeerDescriptor>(s, id) is None ==> changed(s, id, change) == s,
        other != id ==> found::<PeerDescriptor>(changed(s, id, change), other) == found::<
            PeerDescriptor,
        >(s, other),
{
    if let Some(p) = found::<PeerDescriptor>(s, id) {
        crate::table::lemma_place_of::<PeerDescriptor>(s, id);
        assert(change(p).peer_id == p.peer_id);
        crate::table::law_written_record_is_read_back::<PeerDescriptor>(s, change(p), other);
    }
}

/// A load between zero and one is kept; one above, infinity among them, becomes one, and
/// one below, its negative among them, becomes zero. What is no number stays what it is.
pub proof fn law_load_is_held_between_zero_and_one(bits: u32)
    ensures
        bits <= 0x3f80_0000 ==> clamped_load(bits) == bits,
        0x3f80_0000 <= bits <= 0x7f80_0000 ==> clamped_load(bits) == 0x3f80_0000,
        0x8000_0000 < bits <= 0xff80_0000 ==> clamped_load(bits) == 0,
        0x7f80_0000 < bits < 0x8000_0000 || bits > 0xff80_0000 ==> clamped_load(bits) == bits,
        clamped_load(clamped_load(bits)) == clamped_load(bits),
{
}

} // verus!
