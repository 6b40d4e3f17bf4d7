//! Encoding of SEG-Y data into bytes: fixed-width integers in either byte
//! order, the binary file header, trace header values and samples.
use crate::bytes::{
    be_bytes, int_bytes, le_bytes, lemma_place, lemma_pow256_monotone, lemma_pow256_values,
    lemma_signed_roundtrip, lemma_uint_bytes_len, place, pow256, pow256_exec, to_unsigned,
    uint_bytes,
};
use crate::common::{
    bytes_per_sample, field_fits, field_format, field_offset, first_misplaced_header,
    format_size, hdr_value_format, sample_value_format, trace_header_field, BinaryHeader,
    HdrValue, SampleFormat, SampleValue, TrcHdrFmt, TRACE_HEADER_SIZE,
};
use crate::error::Error;
use crate::reader::{swapped_for, swapped_for_spec};
use vstd::prelude::*;

verus! {

/// Stores the `k` low bytes of `n` least significant first at the front of
/// `buf`, and hands back the rest of `buf`.
fn put_le(buf: &mut [u8], n: u64, k: usize) -> (rest: &mut [u8])
    requires
        k <= old(buf)@.len(),
    ensures
        rest@ == old(buf)@.skip(k as int),
        final(buf)@ == le_bytes(n as nat, k as nat) + final(rest)@,
{
    let (front, rest) = buf.split_at_mut(k);
    let mut x: u64 = n;
    let mut i: usize = 0;
    while i < k
        invariant
            front@.len() == k,
            i <= k,
            front@.take(i as int) + le_bytes(x as nat, (k - i) as nat) == le_bytes(n as nat, k as nat),
        decreases k - i,
    {
        let ghost before = front@;
        front[i] = (x % 256) as u8;
        assert(front@.take(i + 1) =~= before.take(i as int).push((x % 256) as u8));
        assert(le_bytes(x as nat, (k - i) as nat) =~= seq![(x % 256) as u8] + le_bytes(
            (x / 256) as nat,
            (k - i - 1) as nat,
        ));
        assert(front@.take(i + 1) + le_bytes((x / 256) as nat, (k - i - 1) as nat)
            =~= before.take(i as int) + le_bytes(x as nat, (k - i) as nat));
        x = x / 256;
        i = i + 1;
    }
    assert(front@.take(k as int) + le_bytes(x as nat, 0) =~= front@);
    rest
}

/// Stores the `k` low bytes of `n` most significant first at the front of
/// `buf`, and hands back the rest of `buf`.
fn put_be(buf: &mut [u8], n: u64, k: usize) -> (rest: &mut [u8])
    requires
        k <= old(buf)@.len(),
    ensures
        rest@ == old(buf)@.skip(k as int),
        final(buf)@ == be_bytes(n as nat, k as nat) + final(rest)@,
{
    let (front, rest) = buf.split_at_mut(k);
    let mut x: u64 = n;
    let mut i: usize = k;
    while i > 0
        invariant
            front@.len() == k,
            i <= k,
            be_bytes(x as nat, i as nat) + front@.skip(i as int) == be_bytes(n as nat, k as nat),
        decreases i,
    {
        let ghost before = front@;
        front[i - 1] = (x % 256) as u8;
        assert(front@.skip(i - 1) =~= seq![(x % 256) as u8] + before.skip(i as int));
        assert(be_bytes(x as nat, i as nat) =~= be_bytes((x / 256) as nat, (i - 1) as nat).push(
            (x % 256) as u8,
        ));
        assert(be_bytes((x / 256) as nat, (i - 1) as nat) + front@.skip(i - 1) =~= be_bytes(
            x as nat,
            i as nat,
        ) + before.skip(i as int));
        x = x / 256;
        i = i - 1;
    }
    assert(be_bytes(x as nat, 0) + front@.skip(0) =~= front@);
    rest
}

/// The `k`-byte two's complement pattern of `v`.
fn unsigned_value(v: i64, k: usize) -> (u: u64)
    requires
        1 <= k <= 8,
        -(pow256(k as nat) / 2) <= v < pow256(k as nat) / 2,
    ensures
        u as nat == to_unsigned(v as int, k as nat),
{
    proof {
        lemma_signed_roundtrip(v as int, k as nat);
        lemma_pow256_values();
        lemma_pow256_monotone(k as nat, 8);
    }
    let full = pow256_exec(k);
    if v < 0 {
        (v as i128 + full as i128) as u64
    } else {
        v as u64
    }
}

/// Stores a signed byte at the front of `buf` and hands back the rest of `buf`.
pub fn write_i8(buf: &mut [u8], val: i8) -> (rest: &mut [u8])
    requires
        old(buf)@.len() >= 1,
    ensures
        rest@ == old(buf)@.skip(1),
        final(buf)@ == le_bytes(to_unsigned(val as int, 1), 1) + final(rest)@,
{
    proof {
        lemma_pow256_values();
    }
    let u = unsigned_value(val as i64, 1);
    put_le(buf, u, 1)
}

/// Stores a unsigned byte at the front of `buf` and hands back the rest of `buf`.
pub fn write_u8(buf: &mut [u8], val: u8) -> (rest: &mut [u8])
    requires
        old(buf)@.len() >= 1,
    ensures
        rest@ == old(buf)@.skip(1),
        final(buf)@ == le_bytes(val as nat, 1) + final(rest)@,
{
    proof {
        lemma_pow256_values();
    }
    put_le(buf, val as u64, 1)
}

/// Stores `val` as a 2-byte signed integer, least significant byte first, at the
/// front of `buf`, and hands back the rest of `buf`.
pub fn write_i16(buf: &mut [u8], val: i16) -> (rest: &mut [u8])
    requires
        old(buf)@.len() >= 2,
    ensures
        rest@ == old(buf)@.skip(2),
        final(buf)@ == le_bytes(to_unsigned(val as int, 2), 2) + final(rest)@,
{
    proof {
        lemma_pow256_values();
    }
    let u = unsigned_value(val as i64, 2);
    put_le(buf, u, 2)
}

/// Stores `val` as a 2-byte unsigned integer, least significant byte first, at the
/// front of `buf`, and hands back the rest of `buf`.
pub fn write_u16(buf: &mut [u8], val: u16) -> (rest: &mut [u8])
    requires
        old(buf)@.len() >= 2,
    ensures
        rest@ == old(buf)@.skip(2),
        final(buf)@ == le_bytes(val as nat, 2) + final(rest)@,
{
    proof {
        lemma_pow256_values();
    }
    put_le(buf, val as u64, 2)
}

/// Stores the three low bytes of `val` least significant first at the front of
/// `buf`, and hands back the rest of `buf`.
pub fn write_i24(buf: &mut [u8], val: i32) -> (rest: &mut [u8])
    requires
        old(buf)@.len() >= 3,
    ensures
        rest@ == old(buf)@.skip(3),
        final(buf)@ == le_bytes(to_unsigned(val as int, 4), 3) + final(rest)@,
{
    proof {
        lemma_pow256_values();
    }
    let u = unsigned_value(val as i64, 4);
    put_le(buf, u, 3)
}

/// Stores the three low bytes of `val` least significant first at the front of
/// `buf`, and hands back the rest of `buf`.
pub fn write_u24(buf: &mut [u8], val: u32) -> (rest: &mut [u8])
    requires
        old(buf)@.len() >= 3,
    ensures
        rest@ == old(buf)@.skip(3),
        final(buf)@ == le_bytes(val as nat, 3) + final(rest)@,
{
    proof {
        lemma_pow256_values();
    }
    put_le(buf, val as u64, 3)
}

/// Stores `val` as a 4-byte signed integer, least significant byte first, at the
/// front of `buf`, and hands back the rest of `buf`.
pub fn write_i32(buf: &mut [u8], val: i32) -> (rest: &mut [u8])
    requires
        old(buf)@.len() >= 4,
    ensures
        rest@ == old(buf)@.skip(4),
        final(buf)@ == le_bytes(to_unsigned(val as int, 4), 4) + final(rest)@,
{
    proof {
        lemma_pow256_values();
    }
    let u = unsigned_value(val as i64, 4);
    put_le(buf, u, 4)
}

/// Stores `val` as a 4-byte unsigned integer, least significant byte first, at the
/// front of `buf`, and hands back the rest of `buf`.
pub fn write_u32(buf: &mut [u8], val: u32) -> (rest: &mut [u8])
    requires
        old(buf)@.len() >= 4,
    ensures
        rest@ == old(buf)@.skip(4),
        final(buf)@ == le_bytes(val as nat, 4) + final(rest)@,
{
    proof {
        lemma_pow256_values();
    }
    put_le(buf, val as u64, 4)
}

/// Stores `val` as a 8-byte signed integer, least significant byte first, at the
/// front of `buf`, and hands back the rest of `buf`.
pub fn write_i64(buf: &mut [u8], val: i64) -> (rest: &mut [u8])
    requires
        old(buf)@.len() >= 8,
    ensures
        rest@ == old(buf)@.skip(8),
        final(buf)@ == le_bytes(to_unsigned(val as int, 8), 8) + final(rest)@,
{
    proof {
        lemma_pow256_values();
    }
    let u = unsigned_value(val as i64, 8);
    put_le(buf, u, 8)
}

/// Stores `val` as a 8-byte unsigned integer, least significant byte first, at the
/// front of `buf`, and hands back the rest of `buf`.
pub fn write_u64(buf: &mut [u8], val: u64) -> (rest: &mut [u8])
    requires
        old(buf)@.len() >= 8,
    ensures
        rest@ == old(buf)@.skip(8),
        final(buf)@ == le_bytes(val as nat, 8) + final(rest)@,
{
    proof {
        lemma_pow256_values();
    }
    put_le(buf, val as u64, 8)
}

/// Stores `val` as a 2-byte signed integer, most significant byte first, at the
/// front of `buf`, and hands back the rest of `buf`.
pub fn write_i16_sw(buf: &mut [u8], val: i16) -> (rest: &mut [u8])
    requires
        old(buf)@.len() >= 2,
    ensures
        rest@ == old(buf)@.skip(2),
        final(buf)@ == be_bytes(to_unsigned(val as int, 2), 2) + final(rest)@,
{
    proof {
        lemma_pow256_values();
    }
    let u = unsigned_value(val as i64, 2);
    put_be(buf, u, 2)
}

/// Stores `val` as a 2-byte unsigned integer, most significant byte first, at the
/// front of `buf`, and hands back the rest of `buf`.
pub fn write_u16_sw(buf: &mut [u8], val: u16) -> (rest: &mut [u8])
    requires
        old(buf)@.len() >= 2,
    ensures
        rest@ == old(buf)@.skip(2),
        final(buf)@ == be_bytes(val as nat, 2) + final(rest)@,
{
    proof {
        lemma_pow256_values();
    }
    put_be(buf, val as u64, 2)
}

/// Stores the three low bytes of `val` most significant first at the front of
/// `buf`, and hands back the rest of `buf`.
pub fn write_i24_sw(buf: &mut [u8], val: i32) -> (rest: &mut [u8])
    requires
        old(buf)@.len() >= 3,
    ensures
        rest@ == old(buf)@.skip(3),
        final(buf)@ == be_bytes(to_unsigned(val as int, 4), 3) + final(rest)@,
{
    proof {
        lemma_pow256_values();
    }
    let u = unsigned_value(val as i64, 4);
    put_be(buf, u, 3)
}

/// Stores the three low bytes of `val` most significant first at the front of
/// `buf`, and hands back the rest of `buf`.
pub fn write_u24_sw(buf: &mut [u8], val: u32) -> (rest: &mut [u8])
    requires
        old(buf)@.len() >= 3,
    ensures
        rest@ == old(buf)@.skip(3),
        final(buf)@ == be_bytes(val as nat, 3) + final(rest)@,
{
    proof {
        lemma_pow256_values();
    }
    put_be(buf, val as u64, 3)
}

/// Stores `val` as a 4-byte signed integer, most significant byte first, at the
/// front of `buf`, and hands back the rest of `buf`.
pub fn write_i32_sw(buf: &mut [u8], val: i32) -> (rest: &mut [u8])
    requires
        old(buf)@.len() >= 4,
    ensures
        rest@ == old(buf)@.skip(4),
        final(buf)@ == be_bytes(to_unsigned(val as int, 4), 4) + final(rest)@,
{
    proof {
        lemma_pow256_values();
    }
    let u = unsigned_value(val as i64, 4);
    put_be(buf, u, 4)
}

/// Stores `val` as a 4-byte unsigned integer, most significant byte first, at the
/// front of `buf`, and hands back the rest of `buf`.
pub fn write_u32_sw(buf: &mut [u8], val: u32) -> (rest: &mut [u8])
    requires
        old(buf)@.len() >= 4,
    ensures
        rest@ == old(buf)@.skip(4),
        final(buf)@ == be_bytes(val as nat, 4) + final(rest)@,
{
    proof {
        lemma_pow256_values();
    }
    put_be(buf, val as u64, 4)
}

/// Stores `val` as a 8-byte signed integer, most significant byte first, at the
/// front of `buf`, and hands back the rest of `buf`.
pub fn write_i64_sw(buf: &mut [u8], val: i64) -> (rest: &mut [u8])
    requires
        old(buf)@.len() >= 8,
    ensures
        rest@ == old(buf)@.skip(8),
        final(buf)@ == be_bytes(to_unsigned(val as int, 8), 8) + final(rest)@,
{
    proof {
        lemma_pow256_values();
    }
    let u = unsigned_value(val as i64, 8);
    put_be(buf, u, 8)
}

/// Stores `val` as a 8-byte unsigned integer, most significant byte first, at the
/// front of `buf`, and hands back the rest of `buf`.
pub fn write_u64_sw(buf: &mut [u8], val: u64) -> (rest: &mut [u8])
    requires
        old(buf)@.len() >= 8,
    ensures
        rest@ == old(buf)@.skip(8),
        final(buf)@ == be_bytes(val as nat, 8) + final(rest)@,
{
    proof {
        lemma_pow256_values();
    }
    put_be(buf, val as u64, 8)
}

/// Whether the 64-bit pattern `bits` is that of an IEEE double precision zero
/// (`0.0` or `-0.0`).
pub open spec fn is_zero_f64_bits(bits: u64) -> bool {
    bits == 0 || bits == 0x8000_0000_0000_0000
}

/// Whether format code `code` may stand in a binary header of major revision
/// `rev` (of 0, 1 and 2).
pub open spec fn format_allowed_in_revision(rev: u8, code: i16) -> bool {
    if rev == 0 {
        1 <= code <= 3
    } else if rev == 1 {
        code == 1 || code == 2 || code == 4 || code == 5 || code == 8
    } else {
        1 <= code <= 16 && code != 3 && code != 13 && code != 14
    }
}

/// Checks that a binary header can be written: it gives a sample interval and
/// a number of samples, and its format code is allowed in its revision.
pub fn check_bin_hdr(bh: &BinaryHeader) -> (r: Result<(), Error>)
    ensures
        bh.samp_int == 0 && is_zero_f64_bits(bh.ext_samp_int_bits) ==> r == Err::<(), Error>(
            Error::ZeroSampleInterval(),
        ),
        !(bh.samp_int == 0 && is_zero_f64_bits(bh.ext_samp_int_bits)) && bh.samp_num == 0
            && bh.ext_samp_num == 0 ==> r == Err::<(), Error>(Error::ZeroSampleNumber()),
        !(bh.samp_int == 0 && is_zero_f64_bits(bh.ext_samp_int_bits)) && !(bh.samp_num == 0
            && bh.ext_samp_num == 0) ==> r == (if bh.segy_maj_ver > 2 {
            Err::<(), Error>(Error::UnsupportedRevision(bh.segy_maj_ver))
        } else if !format_allowed_in_revision(bh.segy_maj_ver, bh.format_code) {
            Err::<(), Error>(Error::WrongFormatForRevision(bh.format_code))
        } else {
            Ok::<(), Error>(())
        }),
{
    if bh.samp_int == 0 && (bh.ext_samp_int_bits == 0 || bh.ext_samp_int_bits
        == 0x8000_0000_0000_0000) {
        return Err(Error::ZeroSampleInterval());
    }
    if bh.samp_num == 0 && bh.ext_samp_num == 0 {
        return Err(Error::ZeroSampleNumber());
    }
    match bh.segy_maj_ver {
        0 => {
            if bh.format_code < 1 || bh.format_code > 3 {
                return Err(Error::WrongFormatForRevision(bh.format_code));
            }
        },
        1 => {
            if bh.format_code < 1 || bh.format_code == 3 || bh.format_code == 6
                || bh.format_code == 7 || bh.format_code > 8 {
                return Err(Error::WrongFormatForRevision(bh.format_code));
            }
        },
        2 => {
            if bh.format_code < 1 || bh.format_code == 3 || bh.format_code == 13
                || bh.format_code == 14 || bh.format_code > 16 {
                return Err(Error::WrongFormatForRevision(bh.format_code));
            }
        },
        _ => return Err(Error::UnsupportedRevision(bh.segy_maj_ver)),
    }
    Ok(())
}

/// Stores an unsigned byte at the front of `buf`.
fn put_u8(buf: &mut [u8], v: u8) -> (rest: &mut [u8])
    requires
        old(buf)@.len() >= 1,
    ensures
        rest@ == old(buf)@.skip(1),
        final(buf)@ == uint_bytes(v as nat, 1, false) + final(rest)@,
{
    write_u8(buf, v)
}

/// Stores a 2-byte signed integer at the front of `buf` in the byte order of
/// `swapped`.
fn put_i16(buf: &mut [u8], v: i16, swapped: bool) -> (rest: &mut [u8])
    requires
        old(buf)@.len() >= 2,
    ensures
        rest@ == old(buf)@.skip(2),
        final(buf)@ == int_bytes(v as int, 2, swapped) + final(rest)@,
{
    if swapped {
        write_i16_sw(buf, v)
    } else {
        write_i16(buf, v)
    }
}

/// Stores a 4-byte signed integer at the front of `buf` in the byte order of
/// `swapped`.
fn put_i32(buf: &mut [u8], v: i32, swapped: bool) -> (rest: &mut [u8])
    requires
        old(buf)@.len() >= 4,
    ensures
        rest@ == old(buf)@.skip(4),
        final(buf)@ == int_bytes(v as int, 4, swapped) + final(rest)@,
{
    if swapped {
        write_i32_sw(buf, v)
    } else {
        write_i32(buf, v)
    }
}

/// Stores an 8-byte unsigned integer at the front of `buf` in the byte order
/// of `swapped`.
fn put_u64(buf: &mut [u8], v: u64, swapped: bool) -> (rest: &mut [u8])
    requires
        old(buf)@.len() >= 8,
    ensures
        rest@ == old(buf)@.skip(8),
        final(buf)@ == uint_bytes(v as nat, 8, swapped) + final(rest)@,
{
    if swapped {
        write_u64_sw(buf, v)
    } else {
        write_u64(buf, v)
    }
}

/// Stores an unsigned byte as the whole of `buf`.
fn put_u8_last(buf: &mut [u8], v: u8)
    requires
        old(buf)@.len() == 1,
    ensures
        final(buf)@ == uint_bytes(v as nat, 1, false),
{
    let rest = put_u8(buf, v);
    assert(rest@ =~= Seq::<u8>::empty());
}

/// Stores a 2-byte signed integer as the whole of `buf`.
fn put_i16_last(buf: &mut [u8], v: i16, swapped: bool)
    requires
        old(buf)@.len() == 2,
    ensures
        final(buf)@ == int_bytes(v as int, 2, swapped),
{
    let rest = put_i16(buf, v, swapped);
    assert(rest@ =~= Seq::<u8>::empty());
}

/// Stores a 4-byte signed integer as the whole of `buf`.
fn put_i32_last(buf: &mut [u8], v: i32, swapped: bool)
    requires
        old(buf)@.len() == 4,
    ensures
        final(buf)@ == int_bytes(v as int, 4, swapped),
{
    let rest = put_i32(buf, v, swapped);
    assert(rest@ =~= Seq::<u8>::empty());
}

/// Stores an 8-byte unsigned integer as the whole of `buf`.
fn put_u64_last(buf: &mut [u8], v: u64, swapped: bool)
    requires
        old(buf)@.len() == 8,
    ensures
        final(buf)@ == uint_bytes(v as nat, 8, swapped),
{
    let rest = put_u64(buf, v, swapped);
    assert(rest@ =~= Seq::<u8>::empty());
}

/// Bytes 0 to 18 of the binary header `bh`.
pub open spec fn header_bytes_ids(bh: BinaryHeader, swapped: bool) -> Seq<u8> {
    int_bytes(bh.job_id as int, 4, swapped) + (
        int_bytes(bh.line_num as int, 4, swapped) + (
        int_bytes(bh.reel_num as int, 4, swapped) + (
        int_bytes(bh.trc_num as int, 2, swapped) + (
        int_bytes(bh.aux_trc_num as int, 2, swapped) + (
        int_bytes(bh.samp_int as int, 2, swapped))))))
}

/// Bytes 18 to 30 of the binary header `bh`.
pub open spec fn header_bytes_counts(bh: BinaryHeader, swapped: bool) -> Seq<u8> {
    int_bytes(bh.samp_int_orig as int, 2, swapped) + (
        int_bytes(bh.samp_num as int, 2, swapped) + (
        int_bytes(bh.samp_num_orig as int, 2, swapped) + (
        int_bytes(bh.format_code as int, 2, swapped) + (
        int_bytes(bh.ensemble_fold as int, 2, swapped) + (
        int_bytes(bh.trc_sort_code as int, 2, swapped))))))
}

/// Bytes 30 to 42 of the binary header `bh`.
pub open spec fn header_bytes_sweep(bh: BinaryHeader, swapped: bool) -> Seq<u8> {
    int_bytes(bh.vert_sum_code as int, 2, swapped) + (
        int_bytes(bh.sw_freq_at_start as int, 2, swapped) + (
        int_bytes(bh.sw_freq_at_end as int, 2, swapped) + (
        int_bytes(bh.sw_length as int, 2, swapped) + (
        int_bytes(bh.sw_type_code as int, 2, swapped) + (
        int_bytes(bh.trc_num_of_sw_ch as int, 2, swapped))))))
}

/// Bytes 42 to 54 of the binary header `bh`.
pub open spec fn header_bytes_taper(bh: BinaryHeader, swapped: bool) -> Seq<u8> {
    int_bytes(bh.sw_trc_taper_length_start as int, 2, swapped) + (
        int_bytes(bh.sw_trc_taper_length_end as int, 2, swapped) + (
        int_bytes(bh.taper_type as int, 2, swapped) + (
        int_bytes(bh.corr_data_trc as int, 2, swapped) + (
        int_bytes(bh.bin_gain_recov as int, 2, swapped) + (
        int_bytes(bh.amp_recov_meth as int, 2, swapped))))))
}

/// Bytes 54 to 72 of the binary header `bh`.
pub open spec fn header_bytes_recovery(bh: BinaryHeader, swapped: bool) -> Seq<u8> {
    int_bytes(bh.measure_sys as int, 2, swapped) + (
        int_bytes(bh.impulse_sig_pol as int, 2, swapped) + (
        int_bytes(bh.vib_pol_code as int, 2, swapped) + (
        int_bytes(bh.ext_trc_num as int, 4, swapped) + (
        int_bytes(bh.ext_aux_trc_num as int, 4, swapped) + (
        int_bytes(bh.ext_samp_num as int, 4, swapped))))))
}

/// Bytes 72 to 100 of the binary header `bh`.
pub open spec fn header_bytes_extended(bh: BinaryHeader, swapped: bool) -> Seq<u8> {
    uint_bytes(bh.ext_samp_int_bits as nat, 8, swapped) + (
        uint_bytes(bh.ext_samp_int_orig_bits as nat, 8, swapped) + (
        int_bytes(bh.ext_samp_num_orig as int, 4, swapped) + (
        int_bytes(bh.ext_ensemble_fold as int, 4, swapped) + (
        int_bytes(bh.endianness as int, 4, swapped)))))
}

/// Bytes 300 to 310 of the binary header `bh`.
pub open spec fn header_bytes_revision(bh: BinaryHeader, swapped: bool) -> Seq<u8> {
    uint_bytes(bh.segy_maj_ver as nat, 1, false) + (
        uint_bytes(bh.segy_min_ver as nat, 1, false) + (
        int_bytes(bh.fix_length_trc_flag as int, 2, swapped) + (
        int_bytes(bh.ext_text_hdrs_num as int, 2, swapped) + (
        int_bytes(bh.max_add_trc_hdrs as int, 4, swapped)))))
}

/// Bytes 310 to 332 of the binary header `bh`.
pub open spec fn header_bytes_layout(bh: BinaryHeader, swapped: bool) -> Seq<u8> {
    int_bytes(bh.time_basis_code as int, 2, swapped) + (
        uint_bytes(bh.num_of_trcs_in_file as nat, 8, swapped) + (
        uint_bytes(bh.byte_off_of_first_trc as nat, 8, swapped) + (
        int_bytes(bh.trailer_stanza_num as int, 4, swapped))))
}

/// The 400 bytes that hold the binary header `bh`, in the byte order of
/// `swapped`; the bytes that no header value occupies are zero.
pub open spec fn binary_header_bytes(bh: BinaryHeader, swapped: bool) -> Seq<u8> {
    header_bytes_ids(bh, swapped) + (
    header_bytes_counts(bh, swapped) + (
    header_bytes_sweep(bh, swapped) + (
    header_bytes_taper(bh, swapped) + (
    header_bytes_recovery(bh, swapped) + (
    header_bytes_extended(bh, swapped) + (
    Seq::new(200, |i: int| 0u8) + (
    header_bytes_revision(bh, swapped) + (
    header_bytes_layout(bh, swapped) + (
    Seq::new(68, |i: int| 0u8))))))))))
}

/// Encodes the binary file header into its 400 bytes, in the byte order that
/// its endianness constant gives.
pub fn encode_binary_header(bh: &BinaryHeader) -> (r: Result<Vec<u8>, Error>)
    ensures
        match swapped_for_spec(bh.endianness as u32) {
            Some(sw) => r is Ok && r->Ok_0@ == binary_header_bytes(*bh, sw),
            None => r == Err::<Vec<u8>, Error>(Error::UnsupportedEndianness(bh.endianness as u32)),
        },
{
    let swapped = match swapped_for(bh.endianness as u32) {
        Ok(sw) => sw,
        Err(e) => return Err(e),
    };
    let mut bin_buf: Vec<u8> = vec![0u8; 400];
    {
        let ptr = bin_buf.as_mut_slice();
        let (q, ptr) = ptr.split_at_mut(18);
        let q = put_i32(q, bh.job_id, swapped);
        let q = put_i32(q, bh.line_num, swapped);
        let q = put_i32(q, bh.reel_num, swapped);
        let q = put_i16(q, bh.trc_num, swapped);
        let q = put_i16(q, bh.aux_trc_num, swapped);
        put_i16_last(q, bh.samp_int, swapped);
        let (q, ptr) = ptr.split_at_mut(12);
        let q = put_i16(q, bh.samp_int_orig, swapped);
        let q = put_i16(q, bh.samp_num, swapped);
        let q = put_i16(q, bh.samp_num_orig, swapped);
        let q = put_i16(q, bh.format_code, swapped);
        let q = put_i16(q, bh.ensemble_fold, swapped);
        put_i16_last(q, bh.trc_sort_code, swapped);
        let (q, ptr) = ptr.split_at_mut(12);
        let q = put_i16(q, bh.vert_sum_code, swapped);
        let q = put_i16(q, bh.sw_freq_at_start, swapped);
        let q = put_i16(q, bh.sw_freq_at_end, swapped);
        let q = put_i16(q, bh.sw_length, swapped);
        let q = put_i16(q, bh.sw_type_code, swapped);
        put_i16_last(q, bh.trc_num_of_sw_ch, swapped);
        let (q, ptr) = ptr.split_at_mut(12);
        let q = put_i16(q, bh.sw_trc_taper_length_start, swapped);
        let q = put_i16(q, bh.sw_trc_taper_length_end, swapped);
        let q = put_i16(q, bh.taper_type, swapped);
        let q = put_i16(q, bh.corr_data_trc, swapped);
        let q = put_i16(q, bh.bin_gain_recov, swapped);
        put_i16_last(q, bh.amp_recov_meth, swapped);
        let (q, ptr) = ptr.split_at_mut(18);
        let q = put_i16(q, bh.measure_sys, swapped);
        let q = put_i16(q, bh.impulse_sig_pol, swapped);
        let q = put_i16(q, bh.vib_pol_code, swapped);
        let q = put_i32(q, bh.ext_trc_num, swapped);
        let q = put_i32(q, bh.ext_aux_trc_num, swapped);
        put_i32_last(q, bh.ext_samp_num, swapped);
        let (q, ptr) = ptr.split_at_mut(28);
        let q = put_u64(q, bh.ext_samp_int_bits, swapped);
        let q = put_u64(q, bh.ext_samp_int_orig_bits, swapped);
        let q = put_i32(q, bh.ext_samp_num_orig, swapped);
        let q = put_i32(q, bh.ext_ensemble_fold, swapped);
        put_i32_last(q, bh.endianness, swapped);
        let (gap, ptr) = ptr.split_at_mut(200);
        assert(gap@ =~= Seq::new(200, |i: int| 0u8));
        let (q, ptr) = ptr.split_at_mut(10);
        let q = put_u8(q, bh.segy_maj_ver);
        let q = put_u8(q, bh.segy_min_ver);
        let q = put_i16(q, bh.fix_length_trc_flag, swapped);
        let q = put_i16(q, bh.ext_text_hdrs_num, swapped);
        put_i32_last(q, bh.max_add_trc_hdrs, swapped);
        let (q, ptr) = ptr.split_at_mut(22);
        let q = put_i16(q, bh.time_basis_code, swapped);
        let q = put_u64(q, bh.num_of_trcs_in_file, swapped);
        let q = put_u64(q, bh.byte_off_of_first_trc, swapped);
        put_i32_last(q, bh.trailer_stanza_num, swapped);
        assert(ptr@ =~= Seq::new(68, |i: int| 0u8));
    }
    Ok(bin_buf)
}

/// The bytes that hold the trace header value `v`, in the byte order of
/// `swapped` (single bytes have no byte order).
pub open spec fn hdr_value_bytes(v: HdrValue, swapped: bool) -> Seq<u8> {
    match v {
        HdrValue::I8(x) => int_bytes(x as int, 1, false),
        HdrValue::I16(x) => int_bytes(x as int, 2, swapped),
        HdrValue::I32(x) => int_bytes(x as int, 4, swapped),
        HdrValue::I64(x) => int_bytes(x as int, 8, swapped),
        HdrValue::U8(x) => uint_bytes(x as nat, 1, false),
        HdrValue::U16(x) => uint_bytes(x as nat, 2, swapped),
        HdrValue::U32(x) => uint_bytes(x as nat, 4, swapped),
        HdrValue::U64(x) => uint_bytes(x as nat, 8, swapped),
        HdrValue::F32(x) => uint_bytes(x as nat, 4, swapped),
        HdrValue::F64(x) => uint_bytes(x as nat, 8, swapped),
    }
}

/// A trace header value takes the bytes of its format.
pub proof fn lemma_hdr_value_bytes_len(v: HdrValue, swapped: bool)
    ensures
        hdr_value_bytes(v, swapped).len() == format_size(hdr_value_format(v)),
{
    broadcast use lemma_uint_bytes_len;

}

/// Stores the trace header value `v` at offset `off` of `buf`.
fn put_hdr_value(buf: &mut [u8], off: usize, v: HdrValue, swapped: bool)
    requires
        off + format_size(hdr_value_format(v)) <= old(buf)@.len(),
    ensures
        final(buf)@ == place(old(buf)@, off as int, hdr_value_bytes(v, swapped)),
{
    broadcast use lemma_uint_bytes_len;

    let ghost before = buf@;
    let (front, back) = buf.split_at_mut(off);
    let rest = match v {
        HdrValue::I8(x) => write_i8(back, x),
        HdrValue::I16(x) => put_i16(back, x, swapped),
        HdrValue::I32(x) => put_i32(back, x, swapped),
        HdrValue::I64(x) => {
            if swapped {
                write_i64_sw(back, x)
            } else {
                write_i64(back, x)
            }
        },
        HdrValue::U8(x) => write_u8(back, x),
        HdrValue::U16(x) => {
            if swapped {
                write_u16_sw(back, x)
            } else {
                write_u16(back, x)
            }
        },
        HdrValue::U32(x) => {
            if swapped {
                write_u32_sw(back, x)
            } else {
                write_u32(back, x)
            }
        },
        HdrValue::U64(x) => put_u64(back, x, swapped),
        HdrValue::F32(x) => {
            if swapped {
                write_u32_sw(back, x)
            } else {
                write_u32(back, x)
            }
        },
        HdrValue::F64(x) => put_u64(back, x, swapped),
    };
    assert(rest@ =~= before.skip(off + hdr_value_bytes(v, swapped).len()));
}

/// The trace headers `buf` after the values `vals` were stored in turn under
/// the names `names`.
pub open spec fn headers_written(
    buf: Seq<u8>,
    names: Seq<i32>,
    vals: Seq<HdrValue>,
    swapped: bool,
) -> Seq<u8>
    decreases names.len(),
{
    if names.len() == 0 {
        buf
    } else {
        let k = (names.len() - 1) as int;
        place(
            headers_written(buf, names.drop_last(), vals, swapped),
            field_offset(names[k]),
            hdr_value_bytes(vals[k], swapped),
        )
    }
}

/// Whether the values `vals` can be stored under the names `names` in trace
/// headers of `len` bytes: each name has an entry in the trace header table,
/// its value lies within the headers, and the value given for it has its
/// format.
pub open spec fn header_values_fit(names: Seq<i32>, vals: Seq<HdrValue>, len: int) -> bool {
    &&& names.len() <= vals.len()
    &&& forall|i: int|
        0 <= i < names.len() ==> {
            &&& trace_header_field(#[trigger] names[i]) is Some
            &&& field_fits(names[i], len)
            &&& hdr_value_format(vals[i]) == field_format(names[i])
        }
}

/// Stores the trace header values `hdr_vals` under the names `hdr_names`, in
/// turn, in the headers of one trace, `hdr_buf`.
pub fn write_header_values(
    hdr_buf: &mut [u8],
    hdr_names: &[i32],
    hdr_vals: &[HdrValue],
    swapped: bool,
)
    requires
        header_values_fit(hdr_names@, hdr_vals@, old(hdr_buf)@.len() as int),
    ensures
        final(hdr_buf)@ == headers_written(old(hdr_buf)@, hdr_names@, hdr_vals@, swapped),
{
    broadcast use lemma_uint_bytes_len;

    let ghost start = hdr_buf@;
    let mut i: usize = 0;
    while i < hdr_names.len()
        invariant
            i <= hdr_names@.len(),
            header_values_fit(hdr_names@, hdr_vals@, start.len() as int),
            hdr_buf@.len() == start.len(),
            hdr_buf@ == headers_written(start, hdr_names@.take(i as int), hdr_vals@, swapped),
        decreases hdr_names@.len() - i,
    {
        let name = hdr_names[i];
        assert(trace_header_field(hdr_names@[i as int]) is Some);
        let (fmt, offset) = match trace_header_field(name) {
            Some(entry) => entry,
            None => (TrcHdrFmt::I32, 0),
        };
        let v = hdr_vals[i];
        assert(0 <= offset <= 408);
        let ghost before = hdr_buf@;
        put_hdr_value(hdr_buf, offset as usize, v, swapped);
        proof {
            lemma_hdr_value_bytes_len(v, swapped);
            lemma_place(before, offset as int, hdr_value_bytes(v, swapped), 0, 0);
            assert(hdr_names@.take(i + 1).drop_last() =~= hdr_names@.take(i as int));
        }
        i = i + 1;
    }
    assert(hdr_names@.take(hdr_names@.len() as int) =~= hdr_names@);
}

/// The bytes that hold the sample `v`, in the byte order of `swapped` (single
/// bytes have no byte order); 24-bit samples take the three low bytes.
pub open spec fn sample_bytes(v: SampleValue, swapped: bool) -> Seq<u8> {
    match v {
        SampleValue::Ibm(x) => uint_bytes(x as nat, 4, swapped),
        SampleValue::I32(x) => int_bytes(x as int, 4, swapped),
        SampleValue::I16(x) => int_bytes(x as int, 2, swapped),
        SampleValue::F32(x) => uint_bytes(x as nat, 4, swapped),
        SampleValue::F64(x) => uint_bytes(x as nat, 8, swapped),
        SampleValue::I24(x) => uint_bytes(to_unsigned(x as int, 4), 3, swapped),
        SampleValue::I8(x) => int_bytes(x as int, 1, false),
        SampleValue::I64(x) => int_bytes(x as int, 8, swapped),
        SampleValue::U32(x) => uint_bytes(x as nat, 4, swapped),
        SampleValue::U16(x) => uint_bytes(x as nat, 2, swapped),
        SampleValue::U64(x) => uint_bytes(x as nat, 8, swapped),
        SampleValue::U24(x) => uint_bytes(x as nat, 3, swapped),
        SampleValue::U8(x) => uint_bytes(x as nat, 1, false),
    }
}

/// A sample takes the bytes of its format.
pub proof fn lemma_sample_bytes_len(v: SampleValue, swapped: bool)
    ensures
        sample_bytes(v, swapped).len() == bytes_per_sample(sample_value_format(v)),
{
    broadcast use lemma_uint_bytes_len;

}

/// Stores the sample `v` at offset `off` of `buf`.
fn put_sample(buf: &mut [u8], off: usize, v: SampleValue, swapped: bool)
    requires
        off + bytes_per_sample(sample_value_format(v)) <= old(buf)@.len(),
    ensures
        final(buf)@ == place(old(buf)@, off as int, sample_bytes(v, swapped)),
{
    broadcast use lemma_uint_bytes_len;

    let ghost before = buf@;
    let (front, back) = buf.split_at_mut(off);
    let rest = match v {
        SampleValue::Ibm(x) => {
            if swapped {
                write_u32_sw(back, x)
            } else {
                write_u32(back, x)
            }
        },
        SampleValue::I32(x) => put_i32(back, x, swapped),
        SampleValue::I16(x) => put_i16(back, x, swapped),
        SampleValue::F32(x) => {
            if swapped {
                write_u32_sw(back, x)
            } else {
                write_u32(back, x)
            }
        },
        SampleValue::F64(x) => put_u64(back, x, swapped),
        SampleValue::I24(x) => {
            if swapped {
                write_i24_sw(back, x)
            } else {
                write_i24(back, x)
            }
        },
        SampleValue::I8(x) => write_i8(back, x),
        SampleValue::I64(x) => {
            if swapped {
                write_i64_sw(back, x)
            } else {
                write_i64(back, x)
            }
        },
        SampleValue::U32(x) => {
            if swapped {
                write_u32_sw(back, x)
            } else {
                write_u32(back, x)
            }
        },
        SampleValue::U16(x) => {
            if swapped {
                write_u16_sw(back, x)
            } else {
                write_u16(back, x)
            }
        },
        SampleValue::U64(x) => put_u64(back, x, swapped),
        SampleValue::U24(x) => {
            if swapped {
                write_u24_sw(back, x)
            } else {
                write_u24(back, x)
            }
        },
        SampleValue::U8(x) => write_u8(back, x),
    };
    assert(rest@ =~= before.skip(off + sample_bytes(v, swapped).len()));
}

/// The sample bytes `buf` of a trace after the samples `samples` of format `f`
/// were stored one after the other from its start.
pub open spec fn samples_written(
    buf: Seq<u8>,
    samples: Seq<SampleValue>,
    f: SampleFormat,
    swapped: bool,
) -> Seq<u8>
    decreases samples.len(),
{
    if samples.len() == 0 {
        buf
    } else {
        let k = samples.len() - 1;
        place(
            samples_written(buf, samples.drop_last(), f, swapped),
            k * bytes_per_sample(f),
            sample_bytes(samples[k], swapped),
        )
    }
}

/// Stores the samples `samples` of format `f` one after the other from the
/// start of the sample bytes `samp_buf` of a trace.
pub fn encode_samples(samp_buf: &mut [u8], samples: &[SampleValue], f: SampleFormat, swapped: bool)
    requires
        samples@.len() * bytes_per_sample(f) <= old(samp_buf)@.len(),
        forall|i: int| 0 <= i < samples@.len() ==> sample_value_format(#[trigger] samples@[i]) == f,
    ensures
        final(samp_buf)@ == samples_written(old(samp_buf)@, samples@, f, swapped),
{
    let ghost start = samp_buf@;
    let len = samp_buf.len();
    let bps = bytes_per_sample(f);
    let mut i: usize = 0;
    let mut off: usize = 0;
    while i < samples.len()
        invariant
            i <= samples@.len(),
            samples@.len() * bps <= start.len(),
            len == start.len(),
            bps == bytes_per_sample(f),
            off == i * bps,
            forall|j: int| 0 <= j < samples@.len() ==> sample_value_format(#[trigger] samples@[j]) == f,
            samp_buf@.len() == start.len(),
            samp_buf@ == samples_written(start, samples@.take(i as int), f, swapped),
        decreases samples@.len() - i,
    {
        assert((i + 1) * bps <= samples@.len() * bps) by (nonlinear_arith)
            requires
                i + 1 <= samples@.len(),
                bps > 0,
        ;
        assert((i + 1) * bps == i * bps + bps) by (nonlinear_arith);
        let v = samples[i];
        assert(sample_value_format(samples@[i as int]) == f);
        let ghost before = samp_buf@;
        put_sample(samp_buf, off, v, swapped);
        proof {
            lemma_sample_bytes_len(v, swapped);
            lemma_place(before, off as int, sample_bytes(v, swapped), 0, 0);
            assert(samples@.take(i + 1).drop_last() =~= samples@.take(i as int));
        }
        i = i + 1;
        off = off + bps;
    }
    assert(samples@.take(samples@.len() as int) =~= samples@);
}

/// Checks the traces given to write: as many rows of header values,
/// `n_hdr_rows`, as of samples, `n_sample_rows`, as many header values in the
/// first row, `first_row_len`, as header names, and every named value within
/// the trace headers of a trace, `max_add_trc_hdrs` additional headers after
/// the first. A misplaced value is reported by its index in `hdr_names`.
pub fn check_traces_to_write(
    hdr_names: &[i32],
    n_hdr_rows: usize,
    first_row_len: usize,
    n_sample_rows: usize,
    max_add_trc_hdrs: i32,
) -> (r: Result<(), Error>)
    requires
        n_hdr_rows == n_sample_rows && first_row_len == hdr_names@.len() ==> forall|i: int|
            0 <= i < hdr_names@.len() ==> trace_header_field(#[trigger] hdr_names@[i]) is Some,
        n_hdr_rows == n_sample_rows && first_row_len == hdr_names@.len() && hdr_names@.len() > 0
            ==> i32::MIN <= TRACE_HEADER_SIZE * (max_add_trc_hdrs + 1) <= i32::MAX,
    ensures
        ({
            let dims_differ = n_hdr_rows != n_sample_rows || first_row_len != hdr_names@.len();
            let limit = TRACE_HEADER_SIZE * (max_add_trc_hdrs + 1);
            &&& dims_differ ==> r == Err::<(), Error>(Error::DiffDimToWrite())
            &&& !dims_differ ==> (r is Ok <==> forall|i: int|
                0 <= i < hdr_names@.len() ==> field_fits(#[trigger] hdr_names@[i], limit))
            &&& !dims_differ && r is Err ==> exists|i: int|
                0 <= i < hdr_names@.len() && !field_fits(hdr_names@[i], limit) && (forall|j: int|
                    0 <= j < i ==> field_fits(#[trigger] hdr_names@[j], limit)) && r == Err::<
                    (),
                    Error,
                >(Error::TraceHeaderMap(i as i32))
        }),
{
    if n_hdr_rows != n_sample_rows || first_row_len != hdr_names.len() {
        return Err(Error::DiffDimToWrite());
    }
    let limit = TRACE_HEADER_SIZE as i64 * (max_add_trc_hdrs as i64 + 1);
    match first_misplaced_header(hdr_names, limit) {
        Some(i) => Err(Error::TraceHeaderMap(i as i32)),
        None => Ok(()),
    }
}

/// The number of bytes of the trace headers of a trace with
/// `max_add_trc_hdrs` additional headers after the first.
pub fn trace_headers_len(max_add_trc_hdrs: i32) -> (n: usize)
    requires
        -1 <= max_add_trc_hdrs < i32::MAX,
        TRACE_HEADER_SIZE * (max_add_trc_hdrs + 1) <= usize::MAX,
    ensures
        n == TRACE_HEADER_SIZE * (max_add_trc_hdrs + 1),
{
    TRACE_HEADER_SIZE * (max_add_trc_hdrs + 1) as usize
}

} // verus!
