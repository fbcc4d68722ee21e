//! State fingerprints: the unit's scalars serialized in a fixed order as
//! little-endian bytes, hashed with SHA-256 and rendered as lowercase
//! hexadecimal.

use vstd::prelude::*;

use crate::unit::Model;

verus! {

/// The eight little-endian bytes of a scalar's bit pattern.
pub open spec fn u64_le_bytes(x: u64) -> Seq<u8> {
    seq![
        x as u8,
        (x >> 8) as u8,
        (x >> 16) as u8,
        (x >> 24) as u8,
        (x >> 32) as u8,
        (x >> 40) as u8,
        (x >> 48) as u8,
        (x >> 56) as u8,
    ]
}

/// A row of scalars serialized in order.
pub open spec fn row_bytes(r: Seq<u64>) -> Seq<u8>
    decreases r.len(),
{
    if r.len() == 0 {
        Seq::empty()
    } else {
        row_bytes(r.drop_last()) + u64_le_bytes(r.last())
    }
}

/// Rows serialized one after the other.
pub open spec fn rows_bytes(rs: Seq<Seq<u64>>) -> Seq<u8>
    decreases rs.len(),
{
    if rs.len() == 0 {
        Seq::empty()
    } else {
        rows_bytes(rs.drop_last()) + row_bytes(rs.last())
    }
}

/// The full-state serialization: the configuration scalars, then every
/// window key, window value, slot key and slot value coordinate, then
/// every slot age.
pub open spec fn state_bytes(s: Model) -> Seq<u8> {
    u64_le_bytes(s.l as u64) + u64_le_bytes(s.m as u64) + u64_le_bytes(s.d as u64)
        + u64_le_bytes(s.tau_reuse) + u64_le_bytes(s.tau_novel) + u64_le_bytes(s.g_write)
        + rows_bytes(s.kw) + rows_bytes(s.vw) + rows_bytes(s.km) + rows_bytes(s.vm)
        + row_bytes(s.age)
}

/// The memory-only serialization: the slot-memory configuration scalars
/// and the slot keys and values — no window rows and no ages.
pub open spec fn memory_bytes(s: Model) -> Seq<u8> {
    u64_le_bytes(s.m as u64) + u64_le_bytes(s.d as u64) + u64_le_bytes(s.tau_reuse)
        + u64_le_bytes(s.tau_novel) + u64_le_bytes(s.g_write) + rows_bytes(s.km)
        + rows_bytes(s.vm)
}

pub uninterp spec fn sha256_of(b: Seq<u8>) -> Seq<u8>;

/// The lowercase hexadecimal digit for a value below sixteen.
pub open spec fn hex_digit(n: u8) -> char {
    match n {
        0 => '0',
        1 => '1',
        2 => '2',
        3 => '3',
        4 => '4',
        5 => '5',
        6 => '6',
        7 => '7',
        8 => '8',
        9 => '9',
        10 => 'a',
        11 => 'b',
        12 => 'c',
        13 => 'd',
        14 => 'e',
        15 => 'f',
        _ => '0',
    }
}

/// Bytes rendered as lowercase hexadecimal: two digits per byte, high
/// nibble first, in byte order.
pub open spec fn hex_of(b: Seq<u8>) -> Seq<char>
    decreases b.len(),
{
    if b.len() == 0 {
        Seq::empty()
    } else {
        hex_of(b.drop_last()) + seq![hex_digit(b.last() / 16), hex_digit(b.last() % 16)]
    }
}

/// Relies on sha2::Sha256 through the Digest trait: the SHA-256 digest of
/// the bytes, 32 bytes long.
#[verifier::external_body]
pub(crate) fn sha256(bytes: &Vec<u8>) -> (r: Vec<u8>)
    ensures
        r@ == sha256_of(bytes@),
        r@.len() == 32,
{
    let digest = <sha2::Sha256 as sha2::Digest>::digest(bytes.as_slice());
    digest.as_slice().to_vec()
}

/// Relies on hex::encode: two lowercase hexadecimal digits per byte, high
/// nibble first, in byte order.
#[verifier::external_body]
pub(crate) fn hex_encode(bytes: &Vec<u8>) -> (r: String)
    ensures
        r@ == hex_of(bytes@),
{
    hex::encode(bytes.as_slice())
}

/// Append a scalar's eight little-endian bytes.
pub(crate) fn push_u64_le(out: &mut Vec<u8>, x: u64)
    ensures
        final(out)@ == old(out)@ + u64_le_bytes(x),
{
    out.push(#[verifier::truncate] (x as u8));
    out.push(#[verifier::truncate] ((x >> 8) as u8));
    out.push(#[verifier::truncate] ((x >> 16) as u8));
    out.push(#[verifier::truncate] ((x >> 24) as u8));
    out.push(#[verifier::truncate] ((x >> 32) as u8));
    out.push(#[verifier::truncate] ((x >> 40) as u8));
    out.push(#[verifier::truncate] ((x >> 48) as u8));
    out.push(#[verifier::truncate] ((x >> 56) as u8));
    proof {
        assert(out@ =~= old(out)@ + u64_le_bytes(x));
    }
}

/// Append a row of scalars.
pub(crate) fn append_row(out: &mut Vec<u8>, row: &Vec<u64>)
    ensures
        final(out)@ == old(out)@ + row_bytes(row@),
{
    let mut i: usize = 0;
    while i < row.len()
        invariant
            i <= row@.len(),
            out@ == old(out)@ + row_bytes(row@.subrange(0, i as int)),
        decreases row@.len() - i,
    {
        push_u64_le(out, row[i]);
        proof {
            assert(row@.subrange(0, (i + 1) as int).drop_last() =~= row@.subrange(0, i as int));
            assert(row@.subrange(0, (i + 1) as int).last() == row@[i as int]);
        }
        i += 1;
    }
    proof {
        assert(row@.subrange(0, row@.len() as int) =~= row@);
    }
}

/// Append rows one after the other.
pub(crate) fn append_rows(out: &mut Vec<u8>, rows: &Vec<Vec<u64>>)
    ensures
        final(out)@ == old(out)@ + rows_bytes(rows.deep_view()),
{
    let ghost dv = rows.deep_view();
    let mut i: usize = 0;
    while i < rows.len()
        invariant
            i <= rows@.len(),
            dv == rows.deep_view(),
            dv.len() == rows@.len(),
            out@ == old(out)@ + rows_bytes(dv.subrange(0, i as int)),
        decreases rows@.len() - i,
    {
        let row = &rows[i];
        proof {
            assert(dv[i as int] =~= row@);
        }
        append_row(out, row);
        proof {
            assert(dv.subrange(0, (i + 1) as int).drop_last() =~= dv.subrange(0, i as int));
            assert(dv.subrange(0, (i + 1) as int).last() == dv[i as int]);
        }
        i += 1;
    }
    proof {
        assert(dv.subrange(0, dv.len() as int) =~= dv);
    }
}

} // verus!
