use vstd::prelude::*;
use crate::errors::TransportError;
use crate::record::{u64_from_le, Record, RecordData};
use crate::store::{spec_missing, RecordSet};
use crate::bloom::FILTER_BYTES;

verus! {

/// Length in bytes of an encoded gossip summary: eight bytes of salt
/// followed by the filter.
pub const SUMMARY_LEN: usize = 264;

/// Whether `bytes` is a well-formed encoded summary.
pub open spec fn summary_well_formed(bytes: Seq<u8>) -> bool {
    bytes.len() == SUMMARY_LEN
}

/// The salt carried by a well-formed encoded summary.
pub open spec fn summary_salt(bytes: Seq<u8>) -> u64 {
    u64_from_le(bytes.subrange(0, 8))
}

/// The filter carried by a well-formed encoded summary.
pub open spec fn summary_filter(bytes: Seq<u8>) -> Seq<u8> {
    bytes.subrange(8, bytes.len() as int)
}

/// Packs a filter and its salt bytes into one request payload.
pub fn encode_summary(filter: &Vec<u8>, salt_bytes: &Vec<u8>) -> (out: Vec<u8>)
    requires
        filter@.len() == FILTER_BYTES,
        salt_bytes@.len() == 8,
    ensures
        summary_well_formed(out@),
        summary_filter(out@) == filter@,
        out@.subrange(0, 8) == salt_bytes@,
{
    let mut out: Vec<u8> = Vec::new();
    let mut i: usize = 0;
    while i < salt_bytes.len()
        invariant
            i <= salt_bytes@.len(),
            salt_bytes@.len() == 8,
            out@ =~= salt_bytes@.subrange(0, i as int),
        decreases salt_bytes@.len() - i,
    {
        out.push(salt_bytes[i]);
        proof {
            assert(salt_bytes@.subrange(0, i + 1) =~= salt_bytes@.subrange(0, i as int)
                + seq![salt_bytes@[i as int]]);
        }
        i = i + 1;
    }
    proof {
        assert(salt_bytes@.subrange(0, 8) =~= salt_bytes@);
    }
    let mut j: usize = 0;
    while j < filter.len()
        invariant
            j <= filter@.len(),
            filter@.len() == FILTER_BYTES,
            out@ =~= salt_bytes@ + filter@.subrange(0, j as int),
        decreases filter@.len() - j,
    {
        out.push(filter[j]);
        proof {
            assert(filter@.subrange(0, j + 1) =~= filter@.subrange(0, j as int)
                + seq![filter@[j as int]]);
        }
        j = j + 1;
    }
    proof {
        assert(filter@.subrange(0, filter@.len() as int) =~= filter@);
        assert(out@.subrange(8, out@.len() as int) =~= filter@);
        assert(out@.subrange(0, 8) =~= salt_bytes@);
    }
    out
}

/// Unpacks a request payload into its filter and salt, or nothing if the
/// payload is not a well-formed summary.
pub fn decode_summary(bytes: &Vec<u8>) -> (r: Option<(Vec<u8>, u64)>)
    ensures
        r is Some <==> summary_well_formed(bytes@),
        r is Some ==> (r->0).0@ == summary_filter(bytes@) && (r->0).0@.len() == FILTER_BYTES && (
        r->0).1 == summary_salt(bytes@),
{
    if bytes.len() != SUMMARY_LEN {
        return None;
    }
    let salt = crate::record::read_u64_le(bytes.as_slice(), 0);
    let mut filter: Vec<u8> = Vec::new();
    let mut i: usize = 8;
    while i < bytes.len()
        invariant
            8 <= i <= bytes@.len(),
            bytes@.len() == SUMMARY_LEN,
            filter@ =~= bytes@.subrange(8, i as int),
        decreases bytes@.len() - i,
    {
        filter.push(bytes[i]);
        proof {
            assert(bytes@.subrange(8, i + 1) =~= bytes@.subrange(8, i as int)
                + seq![bytes@[i as int]]);
        }
        i = i + 1;
    }
    Some((filter, salt))
}

/// The transport capability the engine gossips through: direct requests,
/// best-effort broadcast, and topic-directed broadcast, all failable per
/// call. `sends()` counts every delivery attempt, so a caller's contract
/// can state exactly how often the transport was used.
pub trait Client: Sized {
    /// How many delivery attempts this client has made.
    spec fn sends(&self) -> nat;

    /// Sends `request_bytes` to one implementation-chosen peer and hands
    /// back its raw response, `None` if no peer answered in time.
    fn app_request_any(&mut self, request_bytes: &Vec<u8>) -> (r: Result<
        Option<Vec<u8>>,
        TransportError,
    >)
        ensures
            final(self).sends() == old(self).sends() + 1,
    ;

    /// Sends a request whose response, if any, is correlated by a higher
    /// layer through identifiers inside the payload.
    fn app_request(&mut self, request_bytes: Vec<u8>) -> (r: Result<(), TransportError>)
        ensures
            final(self).sends() == old(self).sends() + 1,
    ;

    /// Best-effort broadcast to a random sample of peers; the sample size
    /// is the transport's concern.
    fn app_gossip(&mut self, request_bytes: Vec<u8>) -> (r: Result<(), TransportError>)
        ensures
            final(self).sends() == old(self).sends() + 1,
    ;

    /// Best-effort broadcast to peers selected by criteria opaque to the
    /// engine.
    fn app_gossip_specific(&mut self, request_bytes: Vec<u8>) -> (r: Result<(), TransportError>)
        ensures
            final(self).sends() == old(self).sends() + 1,
    ;

    /// Sends a request to a peer chain other than this node's own.
    fn cross_chain_app_request(&mut self, request_bytes: Vec<u8>) -> (r: Result<
        (),
        TransportError,
    >)
        ensures
            final(self).sends() == old(self).sends() + 1,
    ;

    /// Sends raw bytes with the transport's message prefix applied.
    fn prefix_message(&mut self, request_bytes: Vec<u8>) -> (r: Result<(), TransportError>)
        ensures
            final(self).sends() == old(self).sends() + 1,
    ;
}

/// A client with no peers: every delivery attempt fails, with no other
/// effect.
pub struct NoOpClient {
    attempts: Ghost<nat>,
}

impl NoOpClient {
    pub fn new() -> (c: NoOpClient)
        ensures
            c.sends() == 0,
    {
        NoOpClient { attempts: Ghost(0nat) }
    }
}

impl Client for NoOpClient {
    closed spec fn sends(&self) -> nat {
        self.attempts@
    }

    fn app_request_any(&mut self, request_bytes: &Vec<u8>) -> (r: Result<
        Option<Vec<u8>>,
        TransportError,
    >)
        ensures
            r == Err::<Option<Vec<u8>>, TransportError>(TransportError::NoPeers),
    {
        self.attempts = Ghost(self.attempts@ + 1);
        Err(TransportError::NoPeers)
    }

    fn app_request(&mut self, request_bytes: Vec<u8>) -> (r: Result<(), TransportError>)
        ensures
            r == Err::<(), TransportError>(TransportError::NoPeers),
    {
        self.attempts = Ghost(self.attempts@ + 1);
        Err(TransportError::NoPeers)
    }

    fn app_gossip(&mut self, request_bytes: Vec<u8>) -> (r: Result<(), TransportError>)
        ensures
            r == Err::<(), TransportError>(TransportError::NoPeers),
    {
        self.attempts = Ghost(self.attempts@ + 1);
        Err(TransportError::NoPeers)
    }

    fn app_gossip_specific(&mut self, request_bytes: Vec<u8>) -> (r: Result<(), TransportError>)
        ensures
            r == Err::<(), TransportError>(TransportError::NoPeers),
    {
        self.attempts = Ghost(self.attempts@ + 1);
        Err(TransportError::NoPeers)
    }

    fn cross_chain_app_request(&mut self, request_bytes: Vec<u8>) -> (r: Result<
        (),
        TransportError,
    >)
        ensures
            r == Err::<(), TransportError>(TransportError::NoPeers),
    {
        self.attempts = Ghost(self.attempts@ + 1);
        Err(TransportError::NoPeers)
    }

    fn prefix_message(&mut self, request_bytes: Vec<u8>) -> (r: Result<(), TransportError>)
        ensures
            r == Err::<(), TransportError>(TransportError::NoPeers),
    {
        self.attempts = Ghost(self.attempts@ + 1);
        Err(TransportError::NoPeers)
    }
}

/// The reference in-process client: delivery goes straight to one peer
/// store it owns. A broadcast summary makes the peer compute which of its
/// records the summary reports absent; that response sits in `pending`
/// until the owner collects it and feeds it back to the requesting store.
pub struct LoopbackClient {
    peer: RecordSet,
    pending: Vec<Record>,
    attempts: Ghost<nat>,
}

impl LoopbackClient {
    /// The records the peer answered with, not yet collected.
    pub closed spec fn pending_view(&self) -> Seq<RecordData> {
        self.pending@.map_values(|r: Record| r@)
    }

    /// The peer store behind this client.
    pub closed spec fn peer_view(&self) -> Seq<RecordData> {
        self.peer@
    }

    pub fn new(peer: RecordSet) -> (c: LoopbackClient)
        ensures
            c.sends() == 0,
            c.peer_view() == peer@,
            c.pending_view() == Seq::<RecordData>::empty(),
    {
        let c = LoopbackClient { peer, pending: Vec::new(), attempts: Ghost(0nat) };
        proof {
            assert(c.pending_view() =~= Seq::<RecordData>::empty());
        }
        c
    }

    pub fn peer(&self) -> (p: &RecordSet)
        ensures
            p@ == self.peer_view(),
    {
        &self.peer
    }

    /// Collects the response the peer produced for the last summary.
    pub fn take_pending(&mut self) -> (out: Vec<Record>)
        ensures
            out@.map_values(|r: Record| r@) == old(self).pending_view(),
            final(self).pending_view() == Seq::<RecordData>::empty(),
            final(self).peer_view() == old(self).peer_view(),
            final(self).sends() == old(self).sends(),
    {
        let mut out: Vec<Record> = Vec::new();
        core::mem::swap(&mut out, &mut self.pending);
        proof {
            assert(self.pending_view() =~= Seq::<RecordData>::empty());
        }
        out
    }
}

impl Client for LoopbackClient {
    closed spec fn sends(&self) -> nat {
        self.attempts@
    }

    fn app_request_any(&mut self, request_bytes: &Vec<u8>) -> (r: Result<
        Option<Vec<u8>>,
        TransportError,
    >) {
        self.attempts = Ghost(self.attempts@ + 1);
        Ok(None)
    }

    fn app_request(&mut self, request_bytes: Vec<u8>) -> (r: Result<(), TransportError>) {
        self.attempts = Ghost(self.attempts@ + 1);
        Ok(())
    }

    /// A well-formed summary makes the peer answer with every record the
    /// filter reports absent; a malformed one is dropped by the peer and
    /// the response is empty.
    fn app_gossip(&mut self, request_bytes: Vec<u8>) -> (r: Result<(), TransportError>)
        ensures
            final(self).peer_view() == old(self).peer_view(),
            summary_well_formed(request_bytes@) ==> final(self).pending_view() == spec_missing(
                old(self).peer_view(),
                summary_filter(request_bytes@),
                summary_salt(request_bytes@),
            ),
            !summary_well_formed(request_bytes@) ==> final(self).pending_view() == Seq::<
                RecordData,
            >::empty(),
            r is Ok,
    {
        self.attempts = Ghost(self.attempts@ + 1);
        match decode_summary(&request_bytes) {
            Some((filter, salt)) => {
                self.pending = self.peer.missing_from(&filter, salt);
            },
            None => {
                self.pending = Vec::new();
                proof {
                    assert(self.pending_view() =~= Seq::<RecordData>::empty());
                }
            },
        }
        Ok(())
    }

    /// Directed broadcast behaves like `app_gossip`: the one peer behind
    /// this client is also the only member of any selection.
    fn app_gossip_specific(&mut self, request_bytes: Vec<u8>) -> (r: Result<(), TransportError>)
        ensures
            final(self).peer_view() == old(self).peer_view(),
            summary_well_formed(request_bytes@) ==> final(self).pending_view() == spec_missing(
                old(self).peer_view(),
                summary_filter(request_bytes@),
                summary_salt(request_bytes@),
            ),
            !summary_well_formed(request_bytes@) ==> final(self).pending_view() == Seq::<
                RecordData,
            >::empty(),
            r is Ok,
    {
        self.app_gossip(request_bytes)
    }

    fn cross_chain_app_request(&mut self, request_bytes: Vec<u8>) -> (r: Result<
        (),
        TransportError,
    >) {
        self.attempts = Ghost(self.attempts@ + 1);
        Ok(())
    }

    fn prefix_message(&mut self, request_bytes: Vec<u8>) -> (r: Result<(), TransportError>) {
        self.attempts = Ghost(self.attempts@ + 1);
        Ok(())
    }
}

} // verus!
