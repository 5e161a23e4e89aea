use vstd::prelude::*;
use crate::errors::SetError;

verus! {

/// Largest payload the reference store admits; anything longer fails the
/// store's validation check and is rejected as a serialization error.
pub const MAX_PAYLOAD_LEN: usize = 1048576;

/// A fixed-size stable identifier for a record, used for deduplication
/// and addressing.
#[derive(Clone, Copy, Debug, PartialEq, Eq, Structural, Hash)]
pub struct Id {
    pub v: u64,
}

/// The mathematical value of a record: its identifier and payload bytes.
pub struct RecordData {
    pub id: u64,
    pub payload: Seq<u8>,
}

/// An opaque, uniquely identified, immutable unit of application data
/// propagated by gossip.
#[derive(Debug)]
pub struct Record {
    pub id: Id,
    pub payload: Vec<u8>,
}

impl View for Record {
    type V = RecordData;

    open spec fn view(&self) -> RecordData {
        RecordData { id: self.id.v, payload: self.payload@ }
    }
}

impl Record {
    pub fn new(id: u64, payload: Vec<u8>) -> (r: Record)
        ensures
            r@.id == id,
            r@.payload == payload@,
    {
        Record { id: Id { v: id }, payload }
    }
}

impl Clone for Record {
    fn clone(&self) -> (r: Self)
        ensures
            r@ == self@,
    {
        let r = Record { id: self.id, payload: self.payload.clone() };
        proof {
            assert(r.payload@ =~= self.payload@);
        }
        r
    }
}

/// The little-endian byte at position `i` of `x`.
pub open spec fn u64_le_byte(x: u64, i: int) -> u8 {
    ((x >> ((8 * i) as u64)) & 0xff) as u8
}

/// The eight little-endian bytes of `x`.
pub open spec fn u64_le_bytes(x: u64) -> Seq<u8> {
    Seq::new(8, |i: int| u64_le_byte(x, i))
}

/// The value read back from eight little-endian bytes.
pub open spec fn u64_from_le(s: Seq<u8>) -> u64
    recommends
        s.len() == 8,
{
    (s[0] as u64) | ((s[1] as u64) << 8u64) | ((s[2] as u64) << 16u64) | ((s[3] as u64) << 24u64)
        | ((s[4] as u64) << 32u64) | ((s[5] as u64) << 40u64) | ((s[6] as u64) << 48u64) | ((
    s[7] as u64) << 56u64)
}

/// Reading the little-endian bytes of `x` gives `x` back.
pub proof fn lemma_u64_le_round_trip(x: u64)
    ensures
        u64_from_le(u64_le_bytes(x)) == x,
{
    let s = u64_le_bytes(x);
    let b0 = s[0];
    let b1 = s[1];
    let b2 = s[2];
    let b3 = s[3];
    let b4 = s[4];
    let b5 = s[5];
    let b6 = s[6];
    let b7 = s[7];
    let v = u64_from_le(s);
    assert(v == x) by (bit_vector)
        requires
            b0 == ((x >> 0u64) & 0xff) as u8,
            b1 == ((x >> 8u64) & 0xff) as u8,
            b2 == ((x >> 16u64) & 0xff) as u8,
            b3 == ((x >> 24u64) & 0xff) as u8,
            b4 == ((x >> 32u64) & 0xff) as u8,
            b5 == ((x >> 40u64) & 0xff) as u8,
            b6 == ((x >> 48u64) & 0xff) as u8,
            b7 == ((x >> 56u64) & 0xff) as u8,
            v == (b0 as u64) | ((b1 as u64) << 8u64) | ((b2 as u64) << 16u64) | ((b3 as u64)
                << 24u64) | ((b4 as u64) << 32u64) | ((b5 as u64) << 40u64) | ((b6 as u64)
                << 48u64) | ((b7 as u64) << 56u64),
    ;
}

/// Writing back the value read from eight bytes reproduces those bytes.
pub proof fn lemma_le_u64_round_trip(s: Seq<u8>)
    requires
        s.len() == 8,
    ensures
        u64_le_bytes(u64_from_le(s)) =~= s,
{
    let x = u64_from_le(s);
    assert forall|i: int| 0 <= i < 8 implies u64_le_bytes(x)[i] == s[i] by {
        let b0 = s[0];
        let b1 = s[1];
        let b2 = s[2];
        let b3 = s[3];
        let b4 = s[4];
        let b5 = s[5];
        let b6 = s[6];
        let b7 = s[7];
        assert({
            &&& ((x >> 0u64) & 0xff) as u8 == b0
            &&& ((x >> 8u64) & 0xff) as u8 == b1
            &&& ((x >> 16u64) & 0xff) as u8 == b2
            &&& ((x >> 24u64) & 0xff) as u8 == b3
            &&& ((x >> 32u64) & 0xff) as u8 == b4
            &&& ((x >> 40u64) & 0xff) as u8 == b5
            &&& ((x >> 48u64) & 0xff) as u8 == b6
            &&& ((x >> 56u64) & 0xff) as u8 == b7
        }) by (bit_vector)
            requires
                x == (b0 as u64) | ((b1 as u64) << 8u64) | ((b2 as u64) << 16u64) | ((b3
                    as u64) << 24u64) | ((b4 as u64) << 32u64) | ((b5 as u64) << 40u64) | ((b6
                    as u64) << 48u64) | ((b7 as u64) << 56u64),
        ;
    }
}

/// Appends the eight little-endian bytes of `x` to `out`.
pub fn push_u64_le(out: &mut Vec<u8>, x: u64)
    ensures
        final(out)@ =~= old(out)@ + u64_le_bytes(x),
{
    let mut i: u64 = 0;
    while i < 8
        invariant
            i <= 8,
            out@.len() == old(out)@.len() + i,
            forall|j: int| 0 <= j < old(out)@.len() ==> out@[j] == old(out)@[j],
            forall|j: int|
                0 <= j < i ==> out@[old(out)@.len() + j] == u64_le_byte(x, j),
        decreases 8 - i,
    {
        let b: u8 = ((x >> (8 * i)) & 0xff) as u8;
        assert(b == u64_le_byte(x, i as int));
        out.push(b);
        i = i + 1;
    }
}

/// Reads a `u64` from eight little-endian bytes starting at `at`.
pub fn read_u64_le(bytes: &[u8], at: usize) -> (x: u64)
    requires
        at + 8 <= bytes@.len(),
    ensures
        x == u64_from_le(bytes@.subrange(at as int, at as int + 8)),
{
    let x = (bytes[at] as u64) | ((bytes[at + 1] as u64) << 8u64) | ((bytes[at + 2] as u64)
        << 16u64) | ((bytes[at + 3] as u64) << 24u64) | ((bytes[at + 4] as u64) << 32u64) | ((
    bytes[at + 5] as u64) << 40u64) | ((bytes[at + 6] as u64) << 48u64) | ((bytes[at + 7] as u64)
        << 56u64);
    proof {
        let s = bytes@.subrange(at as int, at as int + 8);
        assert(s[0] == bytes@[at as int]);
        assert(s[1] == bytes@[at as int + 1]);
        assert(s[2] == bytes@[at as int + 2]);
        assert(s[3] == bytes@[at as int + 3]);
        assert(s[4] == bytes@[at as int + 4]);
        assert(s[5] == bytes@[at as int + 5]);
        assert(s[6] == bytes@[at as int + 6]);
        assert(s[7] == bytes@[at as int + 7]);
    }
    x
}

/// What a gossipable unit must offer: a stable identifier plus exact
/// serialize and deserialize operations.
pub trait Gossipable: Sized {
    /// The identifier of this value.
    spec fn id_spec(&self) -> u64;

    /// The canonical encoded form of this value.
    spec fn encoding(&self) -> Seq<u8>;

    /// Whether this value can be encoded at all.
    spec fn encodable(&self) -> bool;

    /// Whether `bytes` is a well-formed encoding of some value.
    spec fn decodable(bytes: Seq<u8>) -> bool;

    fn get_id(&self) -> (i: Id)
        ensures
            i.v == self.id_spec(),
    ;

    fn serialize(&self) -> (r: Result<Vec<u8>, SetError>)
        ensures
            r is Ok <==> self.encodable(),
            r is Ok ==> r->Ok_0@ == self.encoding() && Self::decodable(self.encoding()),
    ;

    fn deserialize(&mut self, bytes: &[u8]) -> (r: Result<(), SetError>)
        ensures
            r is Ok <==> Self::decodable(bytes@),
            r is Ok ==> final(self).encoding() == bytes@ && final(self).encodable(),
            r is Err ==> *final(self) == *old(self),
    ;
}

impl Gossipable for Record {
    open spec fn id_spec(&self) -> u64 {
        self.id.v
    }

    open spec fn encoding(&self) -> Seq<u8> {
        u64_le_bytes(self.id.v) + self.payload@
    }

    open spec fn encodable(&self) -> bool {
        self.payload@.len() <= MAX_PAYLOAD_LEN
    }

    open spec fn decodable(bytes: Seq<u8>) -> bool {
        8 <= bytes.len() <= 8 + MAX_PAYLOAD_LEN
    }

    fn get_id(&self) -> (i: Id)
        ensures
            i.v == self.id_spec(),
    {
        self.id
    }

    fn serialize(&self) -> (r: Result<Vec<u8>, SetError>)
        ensures
            r is Ok <==> self.encodable(),
            r is Ok ==> r->Ok_0@ == self.encoding() && Self::decodable(self.encoding()),
    {
        if self.payload.len() > MAX_PAYLOAD_LEN {
            return Err(SetError::SerializationError);
        }
        let mut out: Vec<u8> = Vec::new();
        push_u64_le(&mut out, self.id.v);
        let mut i: usize = 0;
        while i < self.payload.len()
            invariant
                i <= self.payload@.len(),
                out@ =~= u64_le_bytes(self.id.v) + self.payload@.subrange(0, i as int),
            decreases self.payload@.len() - i,
        {
            out.push(self.payload[i]);
            proof {
                assert(self.payload@.subrange(0, i + 1) =~= self.payload@.subrange(0, i as int)
                    + seq![self.payload@[i as int]]);
            }
            i = i + 1;
        }
        proof {
            assert(self.payload@.subrange(0, self.payload@.len() as int) =~= self.payload@);
        }
        Ok(out)
    }

    fn deserialize(&mut self, bytes: &[u8]) -> (r: Result<(), SetError>)
        ensures
            r is Ok <==> Self::decodable(bytes@),
            r is Ok ==> final(self).encoding() == bytes@ && final(self).encodable(),
            r is Err ==> *final(self) == *old(self),
    {
        if bytes.len() < 8 || bytes.len() - 8 > MAX_PAYLOAD_LEN {
            return Err(SetError::SerializationError);
        }
        let id = read_u64_le(bytes, 0);
        let mut payload: Vec<u8> = Vec::new();
        let mut i: usize = 8;
        while i < bytes.len()
            invariant
                8 <= i <= bytes@.len(),
                payload@ =~= bytes@.subrange(8, i as int),
            decreases bytes@.len() - i,
        {
            payload.push(bytes[i]);
            proof {
                assert(bytes@.subrange(8, i + 1) =~= bytes@.subrange(8, i as int)
                    + seq![bytes@[i as int]]);
            }
            i = i + 1;
        }
        self.id = Id { v: id };
        self.payload = payload;
        proof {
            lemma_le_u64_round_trip(bytes@.subrange(0, 8));
            assert(self.encoding() =~= bytes@);
        }
        Ok(())
    }
}

} // verus!
