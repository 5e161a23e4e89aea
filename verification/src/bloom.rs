use vstd::prelude::*;
use crate::record::{Record, RecordData};

verus! {

/// Width of a membership summary in bytes.
pub const FILTER_BYTES: usize = 256;

/// Width of a membership summary in bits.
pub const FILTER_BITS: u64 = 2048;

/// How many bits each identifier sets in the summary.
pub const NUM_HASHES: u64 = 3;

/// Mixing constants for the summary's hash family.
pub const MIX_ID: u64 = 0x9E3779B97F4A7C15;

pub const MIX_SALT: u64 = 0xC2B2AE3D27D4EB4F;

pub const MIX_PROBE: u64 = 0x165667B19E3779F9;

/// Whether bit `i` of byte `b` is set.
pub open spec fn byte_bit(b: u8, i: u8) -> bool
    recommends
        i < 8,
{
    (b >> i) & 1 == 1
}

/// Whether bit `pos` of the filter `f` is set.
pub open spec fn filter_bit(f: Seq<u8>, pos: int) -> bool
    recommends
        0 <= pos < 8 * f.len(),
{
    byte_bit(f[pos / 8], (pos % 8) as u8)
}

/// The bit position that probe `k` of identifier `id` maps to under `salt`.
pub open spec fn bloom_pos(salt: u64, id: u64, k: u64) -> u64 {
    vstd::wrapping::u64_specs::wrapping_add(
        vstd::wrapping::u64_specs::wrapping_add(
            vstd::wrapping::u64_specs::wrapping_mul(id, MIX_ID),
            vstd::wrapping::u64_specs::wrapping_mul(salt, MIX_SALT),
        ),
        vstd::wrapping::u64_specs::wrapping_mul(k, MIX_PROBE),
    ) % FILTER_BITS
}

/// Whether the filter reports `id` as present: all of its probe bits are set.
pub open spec fn bloom_contains(f: Seq<u8>, salt: u64, id: u64) -> bool {
    forall|k: u64| k < NUM_HASHES ==> filter_bit(f, #[trigger] bloom_pos(salt, id, k) as int)
}

/// An exact characterisation of a filter built over the records `s`: a bit
/// is set if and only if some stored identifier probes it.
pub open spec fn filter_exact(f: Seq<u8>, salt: u64, s: Seq<RecordData>) -> bool {
    &&& f.len() == FILTER_BYTES
    &&& forall|pos: int|
        0 <= pos < FILTER_BITS
            ==> (filter_bit(f, pos) <==> exists|i: int, k: u64|
            0 <= i < s.len() && k < NUM_HASHES && pos == #[trigger] bloom_pos(
                salt,
                s[i].id,
                k,
            ) as int)
}

/// No false negatives: every record that was in the store when a summary
/// was built over it passes the summary's membership test. False
/// positives remain possible and cost only redundant transfer.
pub proof fn lemma_no_false_negatives(f: Seq<u8>, salt: u64, s: Seq<RecordData>, i: int)
    requires
        filter_exact(f, salt, s),
        0 <= i < s.len(),
    ensures
        bloom_contains(f, salt, s[i].id),
{
    assert forall|k: u64| k < NUM_HASHES implies filter_bit(
        f,
        #[trigger] bloom_pos(salt, s[i].id, k) as int,
    ) by {
        let pos = bloom_pos(salt, s[i].id, k) as int;
        assert(0 <= pos < FILTER_BITS);
    }
}

/// Bit `i` of a byte survives or-ing another bit in, and the or-ed bit is set.
proof fn lemma_or_bit(b: u8, i: u8, j: u8)
    by (bit_vector)
    requires
        i < 8,
        j < 8,
    ensures
        byte_bit(b | (1u8 << i), i),
        i != j ==> byte_bit(b | (1u8 << i), j) == byte_bit(b, j),
{
}

/// No bit of a zero byte is set.
proof fn lemma_zero_bit(i: u8)
    by (bit_vector)
    requires
        i < 8,
    ensures
        !byte_bit(0u8, i),
{
}

/// An all-zero filter reports every identifier as absent.
pub proof fn lemma_zero_filter_contains_nothing(f: Seq<u8>, salt: u64, id: u64)
    requires
        f.len() == FILTER_BYTES,
        forall|i: int| 0 <= i < f.len() ==> f[i] == 0u8,
    ensures
        !bloom_contains(f, salt, id),
{
    let pos = bloom_pos(salt, id, 0) as int;
    assert(0 <= pos < FILTER_BITS);
    lemma_zero_bit((pos % 8) as u8);
    assert(!filter_bit(f, pos));
}

/// Computes the probe position; mirrors `bloom_pos` exactly.
fn bloom_pos_exec(salt: u64, id: u64, k: u64) -> (p: usize)
    ensures
        p == bloom_pos(salt, id, k) as int,
        p < FILTER_BITS,
{
    let h = id.wrapping_mul(MIX_ID).wrapping_add(salt.wrapping_mul(MIX_SALT)).wrapping_add(
        k.wrapping_mul(MIX_PROBE),
    );
    (h % FILTER_BITS) as usize
}

/// Tests one probe bit of the filter.
fn test_bit(f: &Vec<u8>, pos: usize) -> (r: bool)
    requires
        f@.len() == FILTER_BYTES,
        pos < FILTER_BITS,
    ensures
        r == filter_bit(f@, pos as int),
{
    let byte = f[pos / 8];
    let bit = (pos % 8) as u8;
    (byte >> bit) & 1 == 1
}

/// Sets one probe bit of the filter, leaving every other bit as it was.
fn set_bit(f: &mut Vec<u8>, pos: usize)
    requires
        old(f)@.len() == FILTER_BYTES,
        pos < FILTER_BITS,
    ensures
        final(f)@.len() == FILTER_BYTES,
        filter_bit(final(f)@, pos as int),
        forall|q: int|
            0 <= q < FILTER_BITS && q != pos ==> filter_bit(final(f)@, q) == filter_bit(
                old(f)@,
                q,
            ),
{
    let byte_i = pos / 8;
    let bit = (pos % 8) as u8;
    let b_old = f[byte_i];
    let b_new = b_old | (1u8 << bit);
    f.set(byte_i, b_new);
    proof {
        assert forall|q: int|
            0 <= q < FILTER_BITS && q != pos implies filter_bit(f@, q) == filter_bit(
            old(f)@,
            q,
        ) by {
            if q / 8 == byte_i as int {
                lemma_or_bit(b_old, bit, (q % 8) as u8);
                assert((q % 8) as u8 != bit);
            }
        }
        lemma_or_bit(b_old, bit, 0);
    }
}

/// Whether the membership test for `id` passes against the filter.
///
/// Sound by construction: a filter built over a store reports every stored
/// identifier as present; identifiers never stored may also pass (a false
/// positive), which costs redundant transfer only.
pub fn filter_test(f: &Vec<u8>, salt: u64, id: u64) -> (r: bool)
    requires
        f@.len() == FILTER_BYTES,
    ensures
        r == bloom_contains(f@, salt, id),
{
    let mut k: u64 = 0;
    while k < NUM_HASHES
        invariant
            k <= NUM_HASHES,
            f@.len() == FILTER_BYTES,
            forall|j: u64| j < k ==> filter_bit(f@, #[trigger] bloom_pos(salt, id, j) as int),
        decreases NUM_HASHES - k,
    {
        let pos = bloom_pos_exec(salt, id, k);
        if !test_bit(f, pos) {
            return false;
        }
        k = k + 1;
    }
    true
}

/// Builds the membership summary over the identifiers of `records`.
///
/// The result is pinned down exactly: a bit is set if and only if some
/// stored identifier probes it, so the filter has no false negatives and
/// carries no bits that no record accounts for.
pub fn build_filter(records: &Vec<Record>, salt: u64) -> (f: Vec<u8>)
    ensures
        filter_exact(f@, salt, records@.map_values(|r: Record| r@)),
        records@.len() == 0 ==> forall|i: int| 0 <= i < f@.len() ==> f@[i] == 0u8,
{
    let ghost s = records@.map_values(|r: Record| r@);
    let mut f: Vec<u8> = Vec::new();
    let mut z: usize = 0;
    while z < FILTER_BYTES
        invariant
            z <= FILTER_BYTES,
            f@.len() == z,
            forall|i: int| 0 <= i < z ==> f@[i] == 0u8,
        decreases FILTER_BYTES - z,
    {
        f.push(0u8);
        z = z + 1;
    }
    proof {
        assert forall|pos: int| 0 <= pos < FILTER_BITS implies !filter_bit(f@, pos) by {
            lemma_zero_bit((pos % 8) as u8);
        }
    }
    let ghost f0 = f@;
    let mut i: usize = 0;
    while i < records.len()
        invariant
            i <= records@.len(),
            s == records@.map_values(|r: Record| r@),
            f@.len() == FILTER_BYTES,
            records@.len() == 0 ==> f@ == f0,
            forall|q: int| 0 <= q < f0.len() ==> f0[q] == 0u8,
            forall|pos: int|
                0 <= pos < FILTER_BITS
                    ==> (filter_bit(f@, pos) <==> exists|a: int, k: u64|
                    0 <= a < i && k < NUM_HASHES && pos == #[trigger] bloom_pos(
                        salt,
                        s[a].id,
                        k,
                    ) as int),
        decreases records@.len() - i,
    {
        let id = records[i].id.v;
        let mut k: u64 = 0;
        while k < NUM_HASHES
            invariant
                k <= NUM_HASHES,
                i < records@.len(),
                s == records@.map_values(|r: Record| r@),
                id == s[i as int].id,
                f@.len() == FILTER_BYTES,
                forall|pos: int|
                    0 <= pos < FILTER_BITS
                        ==> (filter_bit(f@, pos) <==> (exists|a: int, j: u64|
                        0 <= a < i && j < NUM_HASHES && pos == #[trigger] bloom_pos(
                            salt,
                            s[a].id,
                            j,
                        ) as int) || (exists|j: u64|
                        j < k && pos == #[trigger] bloom_pos(salt, id, j) as int)),
            decreases NUM_HASHES - k,
        {
            let pos = bloom_pos_exec(salt, id, k);
            set_bit(&mut f, pos);
            k = k + 1;
        }
        i = i + 1;
    }
    f
}

} // verus!
