use vstd::prelude::*;
use crate::bloom::{
    bloom_contains, build_filter, filter_exact, filter_test, FILTER_BYTES,
};
use crate::errors::SetError;
use crate::record::{push_u64_le, u64_le_bytes, Record, RecordData, MAX_PAYLOAD_LEN};

verus! {

/// Whether some record in `s` carries the identifier `id`.
pub open spec fn contains_id(s: Seq<RecordData>, id: u64) -> bool {
    exists|i: int| 0 <= i < s.len() && s[i].id == id
}

/// At most one record per identifier.
pub open spec fn unique_ids(s: Seq<RecordData>) -> bool {
    forall|i: int, j: int| 0 <= i < j < s.len() ==> s[i].id != s[j].id
}

/// Every payload passes the store's validation check.
pub open spec fn bounded_payloads(s: Seq<RecordData>) -> bool {
    forall|i: int| 0 <= i < s.len() ==> s[i].payload.len() <= MAX_PAYLOAD_LEN
}

/// What one `add` does to the stored records, and what it returns: a
/// duplicate identifier is a successful no-op; an oversized payload is
/// rejected; a full store is rejected; otherwise the record is appended.
pub open spec fn spec_add(s: Seq<RecordData>, r: RecordData, cap: nat) -> (Seq<RecordData>, Result<
    (),
    SetError,
>) {
    if contains_id(s, r.id) {
        (s, Ok(()))
    } else if r.payload.len() > MAX_PAYLOAD_LEN {
        (s, Err(SetError::SerializationError))
    } else if s.len() >= cap {
        (s, Err(SetError::CapacityError))
    } else {
        (s.push(r), Ok(()))
    }
}

/// The records of `rs` folded into `s` by `spec_add`, failures dropped.
pub open spec fn spec_ingest(s: Seq<RecordData>, rs: Seq<RecordData>, cap: nat) -> Seq<RecordData>
    decreases rs.len(),
{
    if rs.len() == 0 {
        s
    } else {
        spec_ingest(spec_add(s, rs[0], cap).0, rs.subrange(1, rs.len() as int), cap)
    }
}

/// The records of `s` whose identifiers the filter reports as absent, in
/// store order: what a peer hands back to a requester with that filter.
pub open spec fn spec_missing(s: Seq<RecordData>, f: Seq<u8>, salt: u64) -> Seq<RecordData>
    decreases s.len(),
{
    if s.len() == 0 {
        Seq::empty()
    } else {
        let rest = spec_missing(s.drop_last(), f, salt);
        if !bloom_contains(f, salt, s.last().id) {
            rest.push(s.last())
        } else {
            rest
        }
    }
}

/// The local store of known records for one record type: the authoritative
/// membership, with at most one record per identifier, able to summarise
/// itself as a salted bloom filter and to accept inbound records.
pub struct RecordSet {
    records: Vec<Record>,
    capacity: usize,
    salt_counter: u64,
}

impl View for RecordSet {
    type V = Seq<RecordData>;

    closed spec fn view(&self) -> Seq<RecordData> {
        self.records@.map_values(|r: Record| r@)
    }
}

impl RecordSet {
    /// The membership invariant: unique identifiers, validated payloads,
    /// and no more records than the bound allows.
    pub closed spec fn wf(&self) -> bool {
        &&& unique_ids(self@)
        &&& bounded_payloads(self@)
        &&& self@.len() <= self.capacity
    }

    /// The bound this store was created with.
    pub closed spec fn cap(&self) -> nat {
        self.capacity as nat
    }

    /// The salt the next summary will be built with.
    pub closed spec fn salt_ctr(&self) -> u64 {
        self.salt_counter
    }

    /// An unbounded store (bounded only by the machine).
    pub fn new() -> (s: RecordSet)
        ensures
            s.wf(),
            s@ == Seq::<RecordData>::empty(),
            s.cap() == usize::MAX as nat,
            s.salt_ctr() == 0,
    {
        let s = RecordSet { records: Vec::new(), capacity: usize::MAX, salt_counter: 0 };
        proof {
            assert(s@ =~= Seq::<RecordData>::empty());
        }
        s
    }

    /// A store that admits at most `capacity` records.
    pub fn with_capacity(capacity: usize) -> (s: RecordSet)
        ensures
            s.wf(),
            s@ == Seq::<RecordData>::empty(),
            s.cap() == capacity as nat,
            s.salt_ctr() == 0,
    {
        let s = RecordSet { records: Vec::new(), capacity, salt_counter: 0 };
        proof {
            assert(s@ =~= Seq::<RecordData>::empty());
        }
        s
    }

    pub fn len(&self) -> (n: usize)
        ensures
            n == self@.len(),
    {
        self.records.len()
    }

    /// The record at position `i`, in store order.
    pub fn get(&self, i: usize) -> (r: &Record)
        requires
            i < self@.len(),
        ensures
            r@ == self@[i as int],
    {
        &self.records[i]
    }

    /// Whether a record with this identifier is stored.
    pub fn contains(&self, id: u64) -> (r: bool)
        ensures
            r == contains_id(self@, id),
    {
        let mut i: usize = 0;
        while i < self.records.len()
            invariant
                i <= self@.len(),
                self@.len() == self.records@.len(),
                forall|j: int| 0 <= j < i ==> self@[j].id != id,
            decreases self@.len() - i,
        {
            if self.records[i].id.v == id {
                assert(self@[i as int].id == id);
                return true;
            }
            i = i + 1;
        }
        false
    }

    /// Inserts a record if its identifier is absent; a duplicate is a
    /// successful no-op, an oversized payload or a full store an error.
    pub fn add(&mut self, record: Record) -> (r: Result<(), SetError>)
        requires
            old(self).wf(),
        ensures
            final(self).wf(),
            final(self)@ == spec_add(old(self)@, record@, old(self).cap()).0,
            r == spec_add(old(self)@, record@, old(self).cap()).1,
            final(self).cap() == old(self).cap(),
            final(self).salt_ctr() == old(self).salt_ctr(),
    {
        if self.contains(record.id.v) {
            return Ok(());
        }
        if record.payload.len() > MAX_PAYLOAD_LEN {
            return Err(SetError::SerializationError);
        }
        if self.records.len() >= self.capacity {
            return Err(SetError::CapacityError);
        }
        let ghost pre = self@;
        self.records.push(record);
        proof {
            assert(self@ =~= pre.push(record@));
        }
        Ok(())
    }

    /// Builds a salted probabilistic membership summary over the stored
    /// identifiers, reflecting membership at the moment of the call; the
    /// salt is fresh for each call, so successive summaries are not
    /// comparable bit for bit. This implementation cannot fail.
    pub fn get_filter(&mut self) -> (r: Result<(Vec<u8>, Vec<u8>), SetError>)
        ensures
            r is Ok,
            final(self)@ == old(self)@,
            final(self).wf() == old(self).wf(),
            final(self).cap() == old(self).cap(),
            final(self).salt_ctr() == vstd::wrapping::u64_specs::wrapping_add(
                old(self).salt_ctr(),
                1,
            ),
            r->Ok_0.0@.len() == FILTER_BYTES,
            r->Ok_0.1@ == u64_le_bytes(old(self).salt_ctr()),
            filter_exact(r->Ok_0.0@, old(self).salt_ctr(), old(self)@),
            old(self)@.len() == 0 ==> forall|i: int|
                0 <= i < r->Ok_0.0@.len() ==> r->Ok_0.0@[i] == 0u8,
    {
        let salt = self.salt_counter;
        self.salt_counter = self.salt_counter.wrapping_add(1);
        let filter = build_filter(&self.records, salt);
        let mut salt_bytes: Vec<u8> = Vec::new();
        push_u64_le(&mut salt_bytes, salt);
        Ok((filter, salt_bytes))
    }

    /// The stored records whose identifiers the given filter reports as
    /// absent: what this store, acting as the responding peer, sends back
    /// to a requester that summarised itself with `(filter, salt)`.
    pub fn missing_from(&self, filter: &Vec<u8>, salt: u64) -> (out: Vec<Record>)
        requires
            filter@.len() == FILTER_BYTES,
        ensures
            out@.map_values(|r: Record| r@) == spec_missing(self@, filter@, salt),
    {
        let mut out: Vec<Record> = Vec::new();
        let mut i: usize = 0;
        while i < self.records.len()
            invariant
                i <= self@.len(),
                self@.len() == self.records@.len(),
                filter@.len() == FILTER_BYTES,
                out@.map_values(|r: Record| r@) =~= spec_missing(
                    self@.subrange(0, i as int),
                    filter@,
                    salt,
                ),
            decreases self@.len() - i,
        {
            let ghost prefix = self@.subrange(0, i as int);
            assert(self@.subrange(0, i + 1).drop_last() =~= prefix);
            assert(self@.subrange(0, i + 1).last() == self@[i as int]);
            let r = &self.records[i];
            assert(r@ == self@[i as int]);
            if !filter_test(filter, salt, r.id.v) {
                out.push(r.clone());
            }
            i = i + 1;
        }
        proof {
            assert(self@.subrange(0, self@.len() as int) =~= self@);
        }
        out
    }

    /// Invokes the predicate on each stored record, in store order (which
    /// is not part of the contract), stopping early when the predicate
    /// returns false. A pure read: the membership cannot change under it.
    pub fn iterate<F: Fn(&Record) -> bool>(&self, f: F)
        requires
            forall|r: &Record| #[trigger] call_requires(f, (r,)),
    {
        let mut i: usize = 0;
        while i < self.records.len()
            invariant
                i <= self@.len(),
                self@.len() == self.records@.len(),
                forall|r: &Record| #[trigger] call_requires(f, (r,)),
            decreases self@.len() - i,
        {
            let keep_going = f(&self.records[i]);
            if !keep_going {
                return;
            }
            i = i + 1;
        }
    }

    /// Feeds a batch of inbound records into the store, one `add` each;
    /// duplicates and invalid records are dropped silently and do not
    /// interrupt the batch.
    pub fn ingest(&mut self, records: Vec<Record>)
        requires
            old(self).wf(),
        ensures
            final(self).wf(),
            final(self)@ == spec_ingest(
                old(self)@,
                records@.map_values(|r: Record| r@),
                old(self).cap(),
            ),
            final(self).cap() == old(self).cap(),
            final(self).salt_ctr() == old(self).salt_ctr(),
    {
        let ghost rs = records@.map_values(|r: Record| r@);
        let ghost cap = self.cap();
        let mut i: usize = 0;
        let n = records.len();
        let mut records = records;
        proof {
            assert(rs.subrange(0, rs.len() as int) =~= rs);
        }
        while i < n
            invariant
                i <= n,
                n == rs.len(),
                records@.map_values(|r: Record| r@) == rs,
                self.wf(),
                self.cap() == cap,
                self.salt_ctr() == old(self).salt_ctr(),
                spec_ingest(self@, rs.subrange(i as int, rs.len() as int), cap) == spec_ingest(
                    old(self)@,
                    rs,
                    cap,
                ),
            decreases n - i,
        {
            let ghost tail = rs.subrange(i as int, rs.len() as int);
            let r = records[i].clone();
            assert(r@ == rs[i as int]);
            assert(tail[0] == rs[i as int]);
            let _ = self.add(r);
            proof {
                assert(tail.subrange(1, tail.len() as int) =~= rs.subrange(
                    i + 1,
                    rs.len() as int,
                ));
            }
            i = i + 1;
        }
        proof {
            assert(rs.subrange(n as int, rs.len() as int) =~= Seq::<RecordData>::empty());
        }
    }
}

/// Uniqueness: however the store was grown, it holds at most one record
/// per distinct identifier.
pub proof fn lemma_uniqueness(s: &RecordSet)
    requires
        s.wf(),
    ensures
        forall|i: int, j: int| 0 <= i < j < s@.len() ==> s@[i].id != s@[j].id,
{
}

/// Idempotence: once `add` has accepted a record, adding the same record
/// again succeeds and leaves the store unchanged.
pub proof fn lemma_add_idempotent(s: Seq<RecordData>, r: RecordData, cap: nat)
    requires
        spec_add(s, r, cap).1 == Ok::<(), SetError>(()),
    ensures
        spec_add(spec_add(s, r, cap).0, r, cap) == (spec_add(s, r, cap).0, Ok::<(), SetError>(())),
{
    let s1 = spec_add(s, r, cap).0;
    if contains_id(s, r.id) {
        assert(s1 == s);
    } else {
        assert(s1 == s.push(r));
        assert(s1[s.len() as int] == r);
        assert(contains_id(s1, r.id));
    }
}

/// Distinct producers: two accepted `add`s with distinct identifiers leave
/// both records present, and the membership grows by exactly two when
/// neither identifier was present before.
pub proof fn lemma_two_distinct_adds(s: Seq<RecordData>, r1: RecordData, r2: RecordData, cap: nat)
    requires
        r1.id != r2.id,
        !contains_id(s, r1.id),
        !contains_id(s, r2.id),
        spec_add(s, r1, cap).1 == Ok::<(), SetError>(()),
        spec_add(spec_add(s, r1, cap).0, r2, cap).1 == Ok::<(), SetError>(()),
    ensures
        contains_id(spec_add(spec_add(s, r1, cap).0, r2, cap).0, r1.id),
        contains_id(spec_add(spec_add(s, r1, cap).0, r2, cap).0, r2.id),
        spec_add(spec_add(s, r1, cap).0, r2, cap).0.len() == s.len() + 2,
{
    let s1 = spec_add(s, r1, cap).0;
    assert(s1 == s.push(r1));
    assert(s1[s.len() as int] == r1);
    assert(forall|i: int| 0 <= i < s1.len() && s1[i].id == r2.id ==> false);
    assert(!contains_id(s1, r2.id));
    let s2 = spec_add(s1, r2, cap).0;
    assert(s2 == s1.push(r2));
    assert(s2[s.len() as int] == r1);
    assert(s2[s.len() as int + 1] == r2);
    assert(contains_id(s2, r1.id));
    assert(contains_id(s2, r2.id));
}

/// Against an all-zero filter nothing is reported present, so a peer hands
/// back its entire store.
pub proof fn lemma_missing_all_against_zero_filter(s: Seq<RecordData>, f: Seq<u8>, salt: u64)
    requires
        f.len() == FILTER_BYTES,
        forall|i: int| 0 <= i < f.len() ==> f[i] == 0u8,
    ensures
        spec_missing(s, f, salt) == s,
    decreases s.len(),
{
    if s.len() == 0 {
        assert(spec_missing(s, f, salt) =~= s);
    } else {
        lemma_missing_all_against_zero_filter(s.drop_last(), f, salt);
        crate::bloom::lemma_zero_filter_contains_nothing(f, salt, s.last().id);
        assert(spec_missing(s, f, salt) =~= s.drop_last().push(s.last()));
        assert(s.drop_last().push(s.last()) =~= s);
    }
}

/// One full pull against an empty requester: the empty store's summary is
/// all zeros, so the peer answers with its whole membership, and ingesting
/// that answer reproduces the peer's membership exactly — no false
/// negatives, and the responding peer itself is never written to.
pub proof fn lemma_empty_requester_pulls_peer(b: Seq<RecordData>, f: Seq<u8>, salt: u64, cap: nat)
    requires
        f.len() == FILTER_BYTES,
        forall|i: int| 0 <= i < f.len() ==> f[i] == 0u8,
        unique_ids(b),
        bounded_payloads(b),
        b.len() <= cap,
    ensures
        spec_ingest(Seq::<RecordData>::empty(), spec_missing(b, f, salt), cap) == b,
{
    lemma_missing_all_against_zero_filter(b, f, salt);
    lemma_ingest_all_new(Seq::<RecordData>::empty(), b, cap);
    assert(Seq::<RecordData>::empty() + b =~= b);
}

/// Ingesting records that are all new to the store, mutually distinct,
/// validated, and within the bound appends them all.
pub proof fn lemma_ingest_all_new(s: Seq<RecordData>, rs: Seq<RecordData>, cap: nat)
    requires
        unique_ids(rs),
        bounded_payloads(rs),
        forall|i: int| 0 <= i < rs.len() ==> !contains_id(s, #[trigger] rs[i].id),
        s.len() + rs.len() <= cap,
    ensures
        spec_ingest(s, rs, cap) == s + rs,
    decreases rs.len(),
{
    if rs.len() == 0 {
        assert(spec_ingest(s, rs, cap) =~= s + rs);
    } else {
        let r = rs[0];
        assert(!contains_id(s, r.id));
        let s1 = spec_add(s, r, cap).0;
        assert(s1 == s.push(r));
        let rest = rs.subrange(1, rs.len() as int);
        assert forall|i: int| 0 <= i < rest.len() implies !contains_id(
            s1,
            #[trigger] rest[i].id,
        ) by {
            assert(rest[i] == rs[i + 1]);
            assert(rs[0].id != rs[i + 1].id);
            assert(forall|j: int|
                0 <= j < s.len() ==> s[j] == s1[j] && s[j].id != rs[i + 1].id);
            assert(s1[s.len() as int] == r);
        }
        assert forall|i: int, j: int| 0 <= i < j < rest.len() implies rest[i].id != rest[j].id by {
            assert(rest[i] == rs[i + 1]);
            assert(rest[j] == rs[j + 1]);
        }
        assert forall|i: int| 0 <= i < rest.len() implies rest[i].payload.len()
            <= MAX_PAYLOAD_LEN by {
            assert(rest[i] == rs[i + 1]);
        }
        lemma_ingest_all_new(s1, rest, cap);
        assert(spec_ingest(s, rs, cap) == s1 + rest);
        assert(s1 + rest =~= s + rs);
    }
}

} // verus!
