//! The persistence snapshot: a fixed-size binary record of
//! `{last_updated, date_of_inception}`, two 8-byte big-endian integers,
//! used to reconstruct stream metadata across restarts. Reading and
//! writing the record on disk is the caller's business; this module owns
//! the exact coding.

use vstd::prelude::*;

use crate::error::{BriefsError, BriefsResult};

verus! {

/// The eight bytes of `x`, most significant first.
pub open spec fn u64_be_bytes(x: u64) -> Seq<u8> {
    seq![
        (x >> 56) as u8,
        (x >> 48) as u8,
        (x >> 40) as u8,
        (x >> 32) as u8,
        (x >> 24) as u8,
        (x >> 16) as u8,
        (x >> 8) as u8,
        x as u8,
    ]
}

/// Big-endian coding is injective: equal bytes mean equal values.
pub proof fn lemma_u64_be_injective(x: u64, y: u64)
    requires
        u64_be_bytes(x) == u64_be_bytes(y),
    ensures
        x == y,
{
    assert(u64_be_bytes(x)[0] == u64_be_bytes(y)[0]);
    assert(u64_be_bytes(x)[1] == u64_be_bytes(y)[1]);
    assert(u64_be_bytes(x)[2] == u64_be_bytes(y)[2]);
    assert(u64_be_bytes(x)[3] == u64_be_bytes(y)[3]);
    assert(u64_be_bytes(x)[4] == u64_be_bytes(y)[4]);
    assert(u64_be_bytes(x)[5] == u64_be_bytes(y)[5]);
    assert(u64_be_bytes(x)[6] == u64_be_bytes(y)[6]);
    assert(u64_be_bytes(x)[7] == u64_be_bytes(y)[7]);
    assert((x >> 56) as u8 == (y >> 56) as u8 && (x >> 48) as u8 == (y >> 48) as u8 && (x >> 40)
        as u8 == (y >> 40) as u8 && (x >> 32) as u8 == (y >> 32) as u8 && (x >> 24) as u8 == (y
        >> 24) as u8 && (x >> 16) as u8 == (y >> 16) as u8 && (x >> 8) as u8 == (y >> 8) as u8 && x
        as u8 == y as u8 ==> x == y) by (bit_vector);
}

/// Append the eight big-endian bytes of `x`.
fn push_u64_be(v: &mut Vec<u8>, x: u64)
    ensures
        final(v)@ == old(v)@ + u64_be_bytes(x),
{
    v.push(#[verifier::truncate] ((x >> 56) as u8));
    v.push(#[verifier::truncate] ((x >> 48) as u8));
    v.push(#[verifier::truncate] ((x >> 40) as u8));
    v.push(#[verifier::truncate] ((x >> 32) as u8));
    v.push(#[verifier::truncate] ((x >> 24) as u8));
    v.push(#[verifier::truncate] ((x >> 16) as u8));
    v.push(#[verifier::truncate] ((x >> 8) as u8));
    v.push(#[verifier::truncate] (x as u8));
    assert(v@ =~= old(v)@ + u64_be_bytes(x));
}

/// Read eight big-endian bytes starting at `off` back into a `u64`.
fn read_u64_be(v: &Vec<u8>, off: usize) -> (x: u64)
    requires
        off + 8 <= v@.len(),
    ensures
        u64_be_bytes(x) == v@.subrange(off as int, off as int + 8),
{
    let n = v.len();
    assert(off + 8 <= n);
    let b0 = v[off];
    let b1 = v[off + 1];
    let b2 = v[off + 2];
    let b3 = v[off + 3];
    let b4 = v[off + 4];
    let b5 = v[off + 5];
    let b6 = v[off + 6];
    let b7 = v[off + 7];
    let x = ((b0 as u64) << 56) | ((b1 as u64) << 48) | ((b2 as u64) << 40) | ((b3 as u64) << 32)
        | ((b4 as u64) << 24) | ((b5 as u64) << 16) | ((b6 as u64) << 8) | (b7 as u64);
    proof {
        assert({
            let y = ((b0 as u64) << 56) | ((b1 as u64) << 48) | ((b2 as u64) << 40) | ((b3 as u64)
                << 32) | ((b4 as u64) << 24) | ((b5 as u64) << 16) | ((b6 as u64) << 8) | (
            b7 as u64);
            (y >> 56) as u8 == b0 && (y >> 48) as u8 == b1 && (y >> 40) as u8 == b2 && (y >> 32)
                as u8 == b3 && (y >> 24) as u8 == b4 && (y >> 16) as u8 == b5 && (y >> 8) as u8
                == b6 && y as u8 == b7
        }) by (bit_vector);
        assert(u64_be_bytes(x) =~= v@.subrange(off as int, off as int + 8));
    }
    x
}

/// The 16-byte snapshot record of a stream's timestamps: `last_updated`
/// first, `date_of_inception` second, each big-endian.
pub fn stream_snapshot_bytes(last_updated: u64, date_of_inception: u64) -> (r: Vec<u8>)
    ensures
        r@.len() == 16,
        r@ == u64_be_bytes(last_updated) + u64_be_bytes(date_of_inception),
{
    let mut v: Vec<u8> = Vec::new();
    push_u64_be(&mut v, last_updated);
    push_u64_be(&mut v, date_of_inception);
    assert(v@ =~= u64_be_bytes(last_updated) + u64_be_bytes(date_of_inception));
    v
}

/// Recover `(last_updated, date_of_inception)` from a snapshot record:
/// accepts exactly the well-formed 16-byte records, and on them inverts
/// `stream_snapshot_bytes`.
pub fn parse_stream_snapshot(data: &Vec<u8>) -> (r: BriefsResult<(u64, u64)>)
    ensures
        r is Ok <==> data@.len() == 16,
        r matches Ok((lu, doi)) ==> u64_be_bytes(lu) == data@.subrange(0, 8) && u64_be_bytes(doi)
            == data@.subrange(8, 16),
{
    if data.len() != 16 {
        return Err(BriefsError::custom_error("incorrect snapshot length".to_string()));
    }
    let last_updated = read_u64_be(data, 0);
    let date_of_inception = read_u64_be(data, 8);
    Ok((last_updated, date_of_inception))
}

/// The snapshot coding round-trips: parsing an encoded record gives back
/// the timestamps that were encoded.
pub proof fn lemma_snapshot_roundtrip(lu: u64, doi: u64, bytes: Seq<u8>, lu2: u64, doi2: u64)
    requires
        bytes == u64_be_bytes(lu) + u64_be_bytes(doi),
        u64_be_bytes(lu2) == bytes.subrange(0, 8),
        u64_be_bytes(doi2) == bytes.subrange(8, 16),
    ensures
        lu2 == lu,
        doi2 == doi,
{
    assert(u64_be_bytes(lu) =~= bytes.subrange(0, 8));
    assert(u64_be_bytes(doi) =~= bytes.subrange(8, 16));
    lemma_u64_be_injective(lu, lu2);
    lemma_u64_be_injective(doi, doi2);
}

} // verus!
