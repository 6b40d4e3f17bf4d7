//! Decoding of SEG-Y data from bytes: fixed-width integers in either byte
//! order, the binary file header, trace header values and samples.
use crate::bytes::{
    be_nat, int_at, le_nat, lemma_nat_bound, lemma_pow256_monotone, lemma_pow256_values,
    lemma_unsigned_roundtrip, pow256, pow256_exec, to_signed, uint_at, uint_of,
};
use crate::common::{
    bytes_per_sample, field_fits, field_format, field_offset, first_misplaced_header,
    format_size, hdr_value_format, sample_value_format, std_trc_hdr_map, trace_header_field, BinaryHeader, HdrValue, SampleFormat, SampleValue,
    TrcHdrFmt, BIN_HEADER_SIZE, TEXT_HEADER_SIZE, TRACE_HEADER_SIZE,
};
use crate::error::Error;
use vstd::prelude::*;

verus! {

/// Splits the first `n` bytes off the front of `buf`, advancing `buf` past them.
fn split_front<'a>(buf: &mut &'a [u8], n: usize) -> (front: &'a [u8])
    requires
        n <= old(buf)@.len(),
    ensures
        front@ == old(buf)@.take(n as int),
        final(buf)@ == old(buf)@.skip(n as int),
{
    let whole: &'a [u8] = *buf;
    let (front, rest) = whole.split_at(n);
    *buf = rest;
    front
}

/// The value of at most eight bytes read least significant byte first.
fn value_le(bytes: &[u8]) -> (v: u64)
    requires
        bytes@.len() <= 8,
    ensures
        v as nat == le_nat(bytes@),
{
    proof {
        lemma_pow256_values();
    }
    let n = bytes.len();
    let mut v: u64 = 0;
    let mut i: usize = n;
    while i > 0
        invariant
            n == bytes@.len(),
            n <= 8,
            i <= n,
            v as nat == le_nat(bytes@.skip(i as int)),
            v < pow256((n - i) as nat),
            pow256(8) == 0x1_0000_0000_0000_0000,
        decreases i,
    {
        let ghost tail = bytes@.skip(i as int);
        i = i - 1;
        assert(bytes@.skip(i as int).drop_first() =~= tail);
        proof {
            lemma_pow256_monotone((n - i) as nat, 8);
        }
        v = v * 256 + bytes[i] as u64;
    }
    assert(bytes@.skip(0) =~= bytes@);
    v
}

/// The value of at most eight bytes read most significant byte first.
fn value_be(bytes: &[u8]) -> (v: u64)
    requires
        bytes@.len() <= 8,
    ensures
        v as nat == be_nat(bytes@),
{
    proof {
        lemma_pow256_values();
    }
    let n = bytes.len();
    let mut v: u64 = 0;
    let mut i: usize = 0;
    while i < n
        invariant
            n == bytes@.len(),
            n <= 8,
            i <= n,
            v as nat == be_nat(bytes@.take(i as int)),
            v < pow256(i as nat),
            pow256(8) == 0x1_0000_0000_0000_0000,
        decreases n - i,
    {
        assert(bytes@.take(i + 1).drop_last() =~= bytes@.take(i as int));
        proof {
            lemma_pow256_monotone((i + 1) as nat, 8);
        }
        v = v * 256 + bytes[i] as u64;
        i = i + 1;
    }
    assert(bytes@.take(n as int) =~= bytes@);
    v
}

/// The signed value whose `k`-byte two's complement pattern is `u`.
fn signed_value(u: u64, k: usize) -> (v: i64)
    requires
        1 <= k <= 8,
        u < pow256(k as nat),
    ensures
        v == to_signed(u as nat, k as nat),
{
    proof {
        lemma_unsigned_roundtrip(u as nat, k as nat);
        lemma_pow256_values();
        lemma_pow256_monotone(k as nat, 8);
    }
    let full = pow256_exec(k);
    if (u as u128) < full / 2 {
        u as i64
    } else {
        (u as i128 - full as i128) as i64
    }
}

/// Reads a signed byte and advances `buf` past it.
pub fn read_i8(buf: &mut &[u8]) -> (v: i8)
    requires
        old(buf)@.len() >= 1,
    ensures
        v == to_signed(le_nat(old(buf)@.take(1)), 1),
        final(buf)@ == old(buf)@.skip(1),
{
    let b = split_front(buf, 1);
    let u = value_le(b);
    proof {
        lemma_nat_bound(b@);
        lemma_pow256_values();
    }
    signed_value(u, 1) as i8
}

/// Reads a unsigned byte and advances `buf` past it.
pub fn read_u8(buf: &mut &[u8]) -> (v: u8)
    requires
        old(buf)@.len() >= 1,
    ensures
        v == le_nat(old(buf)@.take(1)),
        final(buf)@ == old(buf)@.skip(1),
{
    let b = split_front(buf, 1);
    let u = value_le(b);
    proof {
        lemma_nat_bound(b@);
        lemma_pow256_values();
    }
    u as u8
}

/// Reads a 2-byte signed integer stored least significant byte first, and advances
/// `buf` past it.
pub fn read_i16(buf: &mut &[u8]) -> (v: i16)
    requires
        old(buf)@.len() >= 2,
    ensures
        v == to_signed(le_nat(old(buf)@.take(2)), 2),
        final(buf)@ == old(buf)@.skip(2),
{
    let b = split_front(buf, 2);
    let u = value_le(b);
    proof {
        lemma_nat_bound(b@);
        lemma_pow256_values();
    }
    signed_value(u, 2) as i16
}

/// Reads a 2-byte unsigned integer stored least significant byte first, and advances
/// `buf` past it.
pub fn read_u16(buf: &mut &[u8]) -> (v: u16)
    requires
        old(buf)@.len() >= 2,
    ensures
        v == le_nat(old(buf)@.take(2)),
        final(buf)@ == old(buf)@.skip(2),
{
    let b = split_front(buf, 2);
    let u = value_le(b);
    proof {
        lemma_nat_bound(b@);
        lemma_pow256_values();
    }
    u as u16
}

/// Reads a 3-byte integer stored least significant byte first, and advances `buf`
/// past it. The value is not sign-extended: it lies in `0..2^24`.
pub fn read_i24(buf: &mut &[u8]) -> (v: i32)
    requires
        old(buf)@.len() >= 3,
    ensures
        v == le_nat(old(buf)@.take(3)),
        final(buf)@ == old(buf)@.skip(3),
{
    let b = split_front(buf, 3);
    let u = value_le(b);
    proof {
        lemma_nat_bound(b@);
        lemma_pow256_values();
    }
    u as i32
}

/// Reads a 3-byte unsigned integer stored least significant byte first, and advances
/// `buf` past it.
pub fn read_u24(buf: &mut &[u8]) -> (v: u32)
    requires
        old(buf)@.len() >= 3,
    ensures
        v == le_nat(old(buf)@.take(3)),
        final(buf)@ == old(buf)@.skip(3),
{
    let b = split_front(buf, 3);
    let u = value_le(b);
    proof {
        lemma_nat_bound(b@);
        lemma_pow256_values();
    }
    u as u32
}

/// Reads a 4-byte signed integer stored least significant byte first, and advances
/// `buf` past it.
pub fn read_i32(buf: &mut &[u8]) -> (v: i32)
    requires
        old(buf)@.len() >= 4,
    ensures
        v == to_signed(le_nat(old(buf)@.take(4)), 4),
        final(buf)@ == old(buf)@.skip(4),
{
    let b = split_front(buf, 4);
    let u = value_le(b);
    proof {
        lemma_nat_bound(b@);
        lemma_pow256_values();
    }
    signed_value(u, 4) as i32
}

/// Reads a 4-byte unsigned integer stored least significant byte first, and advances
/// `buf` past it.
pub fn read_u32(buf: &mut &[u8]) -> (v: u32)
    requires
        old(buf)@.len() >= 4,
    ensures
        v == le_nat(old(buf)@.take(4)),
        final(buf)@ == old(buf)@.skip(4),
{
    let b = split_front(buf, 4);
    let u = value_le(b);
    proof {
        lemma_nat_bound(b@);
        lemma_pow256_values();
    }
    u as u32
}

/// Reads an 8-byte signed integer stored least significant byte first, and advances
/// `buf` past it.
pub fn read_i64(buf: &mut &[u8]) -> (v: i64)
    requires
        old(buf)@.len() >= 8,
    ensures
        v == to_signed(le_nat(old(buf)@.take(8)), 8),
        final(buf)@ == old(buf)@.skip(8),
{
    let b = split_front(buf, 8);
    let u = value_le(b);
    proof {
        lemma_nat_bound(b@);
        lemma_pow256_values();
    }
    signed_value(u, 8) as i64
}

/// Reads an 8-byte unsigned integer stored least significant byte first, and advances
/// `buf` past it.
pub fn read_u64(buf: &mut &[u8]) -> (v: u64)
    requires
        old(buf)@.len() >= 8,
    ensures
        v == le_nat(old(buf)@.take(8)),
        final(buf)@ == old(buf)@.skip(8),
{
    let b = split_front(buf, 8);
    let u = value_le(b);
    proof {
        lemma_nat_bound(b@);
        lemma_pow256_values();
    }
    u as u64
}

/// Reads a 2-byte signed integer stored most significant byte first, and advances
/// `buf` past it.
pub fn read_i16_sw(buf: &mut &[u8]) -> (v: i16)
    requires
        old(buf)@.len() >= 2,
    ensures
        v == to_signed(be_nat(old(buf)@.take(2)), 2),
        final(buf)@ == old(buf)@.skip(2),
{
    let b = split_front(buf, 2);
    let u = value_be(b);
    proof {
        lemma_nat_bound(b@);
        lemma_pow256_values();
    }
    signed_value(u, 2) as i16
}

/// Reads a 2-byte unsigned integer stored most significant byte first, and advances
/// `buf` past it.
pub fn read_u16_sw(buf: &mut &[u8]) -> (v: u16)
    requires
        old(buf)@.len() >= 2,
    ensures
        v == be_nat(old(buf)@.take(2)),
        final(buf)@ == old(buf)@.skip(2),
{
    let b = split_front(buf, 2);
    let u = value_be(b);
    proof {
        lemma_nat_bound(b@);
        lemma_pow256_values();
    }
    u as u16
}

/// Reads a 3-byte integer stored most significant byte first, and advances `buf`
/// past it. The value is not sign-extended: it lies in `0..2^24`.
pub fn read_i24_sw(buf: &mut &[u8]) -> (v: i32)
    requires
        old(buf)@.len() >= 3,
    ensures
        v == be_nat(old(buf)@.take(3)),
        final(buf)@ == old(buf)@.skip(3),
{
    let b = split_front(buf, 3);
    let u = value_be(b);
    proof {
        lemma_nat_bound(b@);
        lemma_pow256_values();
    }
    u as i32
}

/// Reads a 3-byte unsigned integer stored most significant byte first, and advances
/// `buf` past it.
pub fn read_u24_sw(buf: &mut &[u8]) -> (v: u32)
    requires
        old(buf)@.len() >= 3,
    ensures
        v == be_nat(old(buf)@.take(3)),
        final(buf)@ == old(buf)@.skip(3),
{
    let b = split_front(buf, 3);
    let u = value_be(b);
    proof {
        lemma_nat_bound(b@);
        lemma_pow256_values();
    }
    u as u32
}

/// Reads a 4-byte signed integer stored most significant byte first, and advances
/// `buf` past it.
pub fn read_i32_sw(buf: &mut &[u8]) -> (v: i32)
    requires
        old(buf)@.len() >= 4,
    ensures
        v == to_signed(be_nat(old(buf)@.take(4)), 4),
        final(buf)@ == old(buf)@.skip(4),
{
    let b = split_front(buf, 4);
    let u = value_be(b);
    proof {
        lemma_nat_bound(b@);
        lemma_pow256_values();
    }
    signed_value(u, 4) as i32
}

/// Reads a 4-byte unsigned integer stored most significant byte first, and advances
/// `buf` past it.
pub fn read_u32_sw(buf: &mut &[u8]) -> (v: u32)
    requires
        old(buf)@.len() >= 4,
    ensures
        v == be_nat(old(buf)@.take(4)),
        final(buf)@ == old(buf)@.skip(4),
{
    let b = split_front(buf, 4);
    let u = value_be(b);
    proof {
        lemma_nat_bound(b@);
        lemma_pow256_values();
    }
    u as u32
}

/// Reads an 8-byte signed integer stored most significant byte first, and advances
/// `buf` past it.
pub fn read_i64_sw(buf: &mut &[u8]) -> (v: i64)
    requires
        old(buf)@.len() >= 8,
    ensures
        v == to_signed(be_nat(old(buf)@.take(8)), 8),
        final(buf)@ == old(buf)@.skip(8),
{
    let b = split_front(buf, 8);
    let u = value_be(b);
    proof {
        lemma_nat_bound(b@);
        lemma_pow256_values();
    }
    signed_value(u, 8) as i64
}

/// Reads an 8-byte unsigned integer stored most significant byte first, and advances
/// `buf` past it.
pub fn read_u64_sw(buf: &mut &[u8]) -> (v: u64)
    requires
        old(buf)@.len() >= 8,
    ensures
        v == be_nat(old(buf)@.take(8)),
        final(buf)@ == old(buf)@.skip(8),
{
    let b = split_front(buf, 8);
    let u = value_be(b);
    proof {
        lemma_nat_bound(b@);
        lemma_pow256_values();
    }
    u as u64
}

/// Whether the data of a file whose binary header holds the endianness
/// constant `endianness` (read least significant byte first) is stored most
/// significant byte first; `None` for an unsupported constant.
pub open spec fn swapped_for_spec(endianness: u32) -> Option<bool> {
    if endianness == 0x01020304 {
        Some(false)
    } else if endianness == 0x04030201 || endianness == 0 {
        Some(true)
    } else {
        None
    }
}

/// Whether data whose endianness constant is `endianness` is stored most
/// significant byte first (`0x04030201`, and `0`, which older files hold) or
/// least significant byte first (`0x01020304`).
pub fn swapped_for(endianness: u32) -> (r: Result<bool, Error>)
    ensures
        match swapped_for_spec(endianness) {
            Some(sw) => r == Ok::<bool, Error>(sw),
            None => r == Err::<bool, Error>(Error::UnsupportedEndianness(endianness)),
        },
{
    if endianness == 0x01020304 {
        Ok(false)
    } else if endianness == 0x04030201 || endianness == 0 {
        Ok(true)
    } else {
        Err(Error::UnsupportedEndianness(endianness))
    }
}

/// The binary header that the 400 bytes `b` hold, read in the byte order of
/// `swapped`.
pub open spec fn binary_header_from_bytes(b: Seq<u8>, swapped: bool) -> BinaryHeader {
    BinaryHeader {
        job_id: int_at(b, 0, 4, swapped) as i32,
        line_num: int_at(b, 4, 4, swapped) as i32,
        reel_num: int_at(b, 8, 4, swapped) as i32,
        trc_num: int_at(b, 12, 2, swapped) as i16,
        aux_trc_num: int_at(b, 14, 2, swapped) as i16,
        samp_int: int_at(b, 16, 2, swapped) as i16,
        samp_int_orig: int_at(b, 18, 2, swapped) as i16,
        samp_num: int_at(b, 20, 2, swapped) as i16,
        samp_num_orig: int_at(b, 22, 2, swapped) as i16,
        format_code: int_at(b, 24, 2, swapped) as i16,
        ensemble_fold: int_at(b, 26, 2, swapped) as i16,
        trc_sort_code: int_at(b, 28, 2, swapped) as i16,
        vert_sum_code: int_at(b, 30, 2, swapped) as i16,
        sw_freq_at_start: int_at(b, 32, 2, swapped) as i16,
        sw_freq_at_end: int_at(b, 34, 2, swapped) as i16,
        sw_length: int_at(b, 36, 2, swapped) as i16,
        sw_type_code: int_at(b, 38, 2, swapped) as i16,
        trc_num_of_sw_ch: int_at(b, 40, 2, swapped) as i16,
        sw_trc_taper_length_start: int_at(b, 42, 2, swapped) as i16,
        sw_trc_taper_length_end: int_at(b, 44, 2, swapped) as i16,
        taper_type: int_at(b, 46, 2, swapped) as i16,
        corr_data_trc: int_at(b, 48, 2, swapped) as i16,
        bin_gain_recov: int_at(b, 50, 2, swapped) as i16,
        amp_recov_meth: int_at(b, 52, 2, swapped) as i16,
        measure_sys: int_at(b, 54, 2, swapped) as i16,
        impulse_sig_pol: int_at(b, 56, 2, swapped) as i16,
        vib_pol_code: int_at(b, 58, 2, swapped) as i16,
        ext_trc_num: int_at(b, 60, 4, swapped) as i32,
        ext_aux_trc_num: int_at(b, 64, 4, swapped) as i32,
        ext_samp_num: int_at(b, 68, 4, swapped) as i32,
        ext_samp_int_bits: uint_at(b, 72, 8, swapped) as u64,
        ext_samp_int_orig_bits: uint_at(b, 80, 8, swapped) as u64,
        ext_samp_num_orig: int_at(b, 88, 4, swapped) as i32,
        ext_ensemble_fold: int_at(b, 92, 4, swapped) as i32,
        endianness: int_at(b, 96, 4, swapped) as i32,
        segy_maj_ver: uint_at(b, 300, 1, false) as u8,
        segy_min_ver: uint_at(b, 301, 1, false) as u8,
        fix_length_trc_flag: int_at(b, 302, 2, swapped) as i16,
        ext_text_hdrs_num: int_at(b, 304, 2, swapped) as i16,
        max_add_trc_hdrs: int_at(b, 306, 4, swapped) as i32,
        time_basis_code: int_at(b, 310, 2, swapped) as i16,
        num_of_trcs_in_file: uint_at(b, 312, 8, swapped) as u64,
        byte_off_of_first_trc: uint_at(b, 320, 8, swapped) as u64,
        trailer_stanza_num: int_at(b, 328, 4, swapped) as i32,
    }
}

/// The endianness constant of the binary header bytes `b`, read least
/// significant byte first.
pub open spec fn endianness_of(b: Seq<u8>) -> u32 {
    uint_at(b, 96, 4, false) as u32
}

fn u8_at(buf: &[u8], off: usize) -> (v: u8)
    requires
        off + 1 <= buf.len(),
    ensures
        v == uint_at(buf@, off as int, 1, false),
{
    let mut p = vstd::slice::slice_subrange(buf, off, off + 1);
    assert(p@.take(1) =~= p@);
    read_u8(&mut p)
}

fn i16_at(buf: &[u8], off: usize, swapped: bool) -> (v: i16)
    requires
        off + 2 <= buf.len(),
    ensures
        v == int_at(buf@, off as int, 2, swapped),
{
    let mut p = vstd::slice::slice_subrange(buf, off, off + 2);
    assert(p@.take(2) =~= p@);
    if swapped {
        read_i16_sw(&mut p)
    } else {
        read_i16(&mut p)
    }
}

fn i32_at(buf: &[u8], off: usize, swapped: bool) -> (v: i32)
    requires
        off + 4 <= buf.len(),
    ensures
        v == int_at(buf@, off as int, 4, swapped),
{
    let mut p = vstd::slice::slice_subrange(buf, off, off + 4);
    assert(p@.take(4) =~= p@);
    if swapped {
        read_i32_sw(&mut p)
    } else {
        read_i32(&mut p)
    }
}

fn u32_at(buf: &[u8], off: usize, swapped: bool) -> (v: u32)
    requires
        off + 4 <= buf.len(),
    ensures
        v == uint_at(buf@, off as int, 4, swapped),
{
    let mut p = vstd::slice::slice_subrange(buf, off, off + 4);
    assert(p@.take(4) =~= p@);
    if swapped {
        read_u32_sw(&mut p)
    } else {
        read_u32(&mut p)
    }
}

fn u64_at(buf: &[u8], off: usize, swapped: bool) -> (v: u64)
    requires
        off + 8 <= buf.len(),
    ensures
        v == uint_at(buf@, off as int, 8, swapped),
{
    let mut p = vstd::slice::slice_subrange(buf, off, off + 8);
    assert(p@.take(8) =~= p@);
    if swapped {
        read_u64_sw(&mut p)
    } else {
        read_u64(&mut p)
    }
}

/// Whether the data of a file whose binary header bytes are `bin_buf` is
/// stored most significant byte first, by the endianness constant at bytes 96
/// to 100 read least significant byte first; an error for an unsupported
/// constant.
pub fn header_byte_order(bin_buf: &[u8]) -> (r: Result<bool, Error>)
    requires
        bin_buf@.len() == BIN_HEADER_SIZE,
    ensures
        match swapped_for_spec(endianness_of(bin_buf@)) {
            Some(sw) => r == Ok::<bool, Error>(sw),
            None => r == Err::<bool, Error>(Error::UnsupportedEndianness(endianness_of(bin_buf@))),
        },
{
    let endianness = u32_at(bin_buf, 96, false);
    swapped_for(endianness)
}

/// Decodes the binary file header from its 400 bytes, in the byte order that
/// its endianness constant gives.
pub fn parse_binary_header(bin_buf: &[u8]) -> (r: Result<BinaryHeader, Error>)
    requires
        bin_buf@.len() == BIN_HEADER_SIZE,
    ensures
        match swapped_for_spec(endianness_of(bin_buf@)) {
            Some(sw) => r == Ok::<BinaryHeader, Error>(binary_header_from_bytes(bin_buf@, sw)),
            None => r == Err::<BinaryHeader, Error>(
                Error::UnsupportedEndianness(endianness_of(bin_buf@)),
            ),
        },
{
    let swapped = match header_byte_order(bin_buf) {
        Ok(sw) => sw,
        Err(e) => return Err(e),
    };
    Ok(BinaryHeader {
        job_id: i32_at(bin_buf, 0, swapped),
        line_num: i32_at(bin_buf, 4, swapped),
        reel_num: i32_at(bin_buf, 8, swapped),
        trc_num: i16_at(bin_buf, 12, swapped),
        aux_trc_num: i16_at(bin_buf, 14, swapped),
        samp_int: i16_at(bin_buf, 16, swapped),
        samp_int_orig: i16_at(bin_buf, 18, swapped),
        samp_num: i16_at(bin_buf, 20, swapped),
        samp_num_orig: i16_at(bin_buf, 22, swapped),
        format_code: i16_at(bin_buf, 24, swapped),
        ensemble_fold: i16_at(bin_buf, 26, swapped),
        trc_sort_code: i16_at(bin_buf, 28, swapped),
        vert_sum_code: i16_at(bin_buf, 30, swapped),
        sw_freq_at_start: i16_at(bin_buf, 32, swapped),
        sw_freq_at_end: i16_at(bin_buf, 34, swapped),
        sw_length: i16_at(bin_buf, 36, swapped),
        sw_type_code: i16_at(bin_buf, 38, swapped),
        trc_num_of_sw_ch: i16_at(bin_buf, 40, swapped),
        sw_trc_taper_length_start: i16_at(bin_buf, 42, swapped),
        sw_trc_taper_length_end: i16_at(bin_buf, 44, swapped),
        taper_type: i16_at(bin_buf, 46, swapped),
        corr_data_trc: i16_at(bin_buf, 48, swapped),
        bin_gain_recov: i16_at(bin_buf, 50, swapped),
        amp_recov_meth: i16_at(bin_buf, 52, swapped),
        measure_sys: i16_at(bin_buf, 54, swapped),
        impulse_sig_pol: i16_at(bin_buf, 56, swapped),
        vib_pol_code: i16_at(bin_buf, 58, swapped),
        ext_trc_num: i32_at(bin_buf, 60, swapped),
        ext_aux_trc_num: i32_at(bin_buf, 64, swapped),
        ext_samp_num: i32_at(bin_buf, 68, swapped),
        ext_samp_int_bits: u64_at(bin_buf, 72, swapped),
        ext_samp_int_orig_bits: u64_at(bin_buf, 80, swapped),
        ext_samp_num_orig: i32_at(bin_buf, 88, swapped),
        ext_ensemble_fold: i32_at(bin_buf, 92, swapped),
        endianness: i32_at(bin_buf, 96, swapped),
        segy_maj_ver: u8_at(bin_buf, 300),
        segy_min_ver: u8_at(bin_buf, 301),
        fix_length_trc_flag: i16_at(bin_buf, 302, swapped),
        ext_text_hdrs_num: i16_at(bin_buf, 304, swapped),
        max_add_trc_hdrs: i32_at(bin_buf, 306, swapped),
        time_basis_code: i16_at(bin_buf, 310, swapped),
        num_of_trcs_in_file: u64_at(bin_buf, 312, swapped),
        byte_off_of_first_trc: u64_at(bin_buf, 320, swapped),
        trailer_stanza_num: i32_at(bin_buf, 328, swapped),
    })
}

/// The byte position where the trace data of a file of `file_len` bytes ends:
/// before its `trailer_stanza_num` trailer stanzas of 3200 bytes. A variable
/// number of stanzas (`-1`) is not supported.
pub fn end_of_data_pos(file_len: u64, trailer_stanza_num: i32) -> (r: Result<u64, Error>)
    requires
        trailer_stanza_num == -1 || (0 <= trailer_stanza_num && trailer_stanza_num
            * TEXT_HEADER_SIZE <= file_len),
    ensures
        trailer_stanza_num == -1 ==> r == Err::<u64, Error>(
            Error::UnsupportedNumberOfStanzas(trailer_stanza_num),
        ),
        trailer_stanza_num != -1 ==> r == Ok::<u64, Error>(
            (file_len - trailer_stanza_num * TEXT_HEADER_SIZE) as u64,
        ),
{
    if trailer_stanza_num == -1 {
        Err(Error::UnsupportedNumberOfStanzas(trailer_stanza_num))
    } else {
        Ok(file_len - trailer_stanza_num as u64 * TEXT_HEADER_SIZE as u64)
    }
}

/// The byte position of the first trace of a file with `ext_text_hdrs_num`
/// extended textual headers after its textual and binary headers. A variable
/// number, `-1`, has no position here: the reader checks the stanzas up to
/// the one that `is_end_text_stanza` recognises, but still takes the first
/// trace to start right after the binary header, at byte 3600.
pub fn first_trace_pos(ext_text_hdrs_num: i16) -> (pos: u64)
    requires
        ext_text_hdrs_num >= 0,
    ensures
        pos == TEXT_HEADER_SIZE + BIN_HEADER_SIZE + ext_text_hdrs_num * TEXT_HEADER_SIZE,
{
    let n = ext_text_hdrs_num as u64;
    assert(n <= 0x7fff);
    3600 + n * 3200
}

/// The first bytes of the last extended textual header stanza.
pub open spec fn end_text_marker() -> Seq<u8> {
    seq![40u8, 40, 83, 69, 71, 58, 32, 69, 110, 100, 84, 101, 120, 116, 41, 41]
}

/// Whether the extended textual header stanza `stanza` is the last one: it
/// starts with `((SEG: EndText))`.
pub fn is_end_text_stanza(stanza: &[u8]) -> (b: bool)
    ensures
        b == (stanza@.len() >= 16 && stanza@.take(16) == end_text_marker()),
{
    let marker: [u8; 16] = [40, 40, 83, 69, 71, 58, 32, 69, 110, 100, 84, 101, 120, 116, 41, 41];
    if stanza.len() < 16 {
        return false;
    }
    let mut i: usize = 0;
    while i < 16
        invariant
            stanza@.len() >= 16,
            i <= 16,
            marker@ == end_text_marker(),
            forall|j: int| 0 <= j < i ==> stanza@[j] == end_text_marker()[j],
        decreases 16 - i,
    {
        if stanza[i] != marker[i] {
            assert(stanza@.take(16)[i as int] != end_text_marker()[i as int]);
            return false;
        }
        i = i + 1;
    }
    assert(stanza@.take(16) =~= end_text_marker());
    true
}

/// The trace header value of format `fmt` that the bytes `b` hold, read in
/// the byte order of `swapped` (single bytes have no byte order).
pub open spec fn hdr_value_from_bytes(b: Seq<u8>, fmt: TrcHdrFmt, swapped: bool) -> HdrValue {
    match fmt {
        TrcHdrFmt::I8 => HdrValue::I8(to_signed(uint_of(b, false), 1) as i8),
        TrcHdrFmt::I16 => HdrValue::I16(to_signed(uint_of(b, swapped), 2) as i16),
        TrcHdrFmt::I32 => HdrValue::I32(to_signed(uint_of(b, swapped), 4) as i32),
        TrcHdrFmt::I64 => HdrValue::I64(to_signed(uint_of(b, swapped), 8) as i64),
        TrcHdrFmt::U8 => HdrValue::U8(uint_of(b, false) as u8),
        TrcHdrFmt::U16 => HdrValue::U16(uint_of(b, swapped) as u16),
        TrcHdrFmt::U32 => HdrValue::U32(uint_of(b, swapped) as u32),
        TrcHdrFmt::U64 => HdrValue::U64(uint_of(b, swapped) as u64),
        TrcHdrFmt::F32 => HdrValue::F32(uint_of(b, swapped) as u32),
        TrcHdrFmt::F64 => HdrValue::F64(uint_of(b, swapped) as u64),
    }
}

/// The value named `name` in the trace headers `buf`; a value that lies
/// beyond `buf` reads as the `i32` zero.
pub open spec fn header_value_at(buf: Seq<u8>, name: i32, swapped: bool) -> HdrValue {
    let off = field_offset(name);
    let fmt = field_format(name);
    if off + format_size(fmt) > buf.len() {
        HdrValue::I32(0)
    } else {
        hdr_value_from_bytes(buf.subrange(off, off + format_size(fmt)), fmt, swapped)
    }
}

/// Decodes a trace header value of format `fmt` from its bytes.
pub fn decode_header_value(bytes: &[u8], fmt: TrcHdrFmt, swapped: bool) -> (v: HdrValue)
    requires
        bytes@.len() == format_size(fmt),
    ensures
        v == hdr_value_from_bytes(bytes@, fmt, swapped),
        hdr_value_format(v) == fmt,
        crate::standard::hdr_value_bits(v) == uint_of(bytes@, swapped),
{
    proof {
        crate::standard::law_header_value_byte_order(bytes@, fmt, swapped);
    }
    let mut p = bytes;
    assert(p@.take(p@.len() as int) =~= p@);
    match fmt {
        TrcHdrFmt::I8 => HdrValue::I8(read_i8(&mut p)),
        TrcHdrFmt::I16 => HdrValue::I16(
            if swapped {
                read_i16_sw(&mut p)
            } else {
                read_i16(&mut p)
            },
        ),
        TrcHdrFmt::I32 => HdrValue::I32(
            if swapped {
                read_i32_sw(&mut p)
            } else {
                read_i32(&mut p)
            },
        ),
        TrcHdrFmt::I64 => HdrValue::I64(
            if swapped {
                read_i64_sw(&mut p)
            } else {
                read_i64(&mut p)
            },
        ),
        TrcHdrFmt::U8 => HdrValue::U8(read_u8(&mut p)),
        TrcHdrFmt::U16 => HdrValue::U16(
            if swapped {
                read_u16_sw(&mut p)
            } else {
                read_u16(&mut p)
            },
        ),
        TrcHdrFmt::U32 => HdrValue::U32(
            if swapped {
                read_u32_sw(&mut p)
            } else {
                read_u32(&mut p)
            },
        ),
        TrcHdrFmt::U64 => HdrValue::U64(
            if swapped {
                read_u64_sw(&mut p)
            } else {
                read_u64(&mut p)
            },
        ),
        TrcHdrFmt::F32 => HdrValue::F32(
            if swapped {
                read_u32_sw(&mut p)
            } else {
                read_u32(&mut p)
            },
        ),
        TrcHdrFmt::F64 => HdrValue::F64(
            if swapped {
                read_u64_sw(&mut p)
            } else {
                read_u64(&mut p)
            },
        ),
    }
}

/// Reads the trace header values named `hdr_names` from the headers of one
/// trace, `hdr_buf`; a value that lies beyond `hdr_buf` reads as the `i32`
/// zero.
pub fn read_header_values(hdr_buf: &[u8], hdr_names: &[i32], swapped: bool) -> (vals: Vec<
    HdrValue,
>)
    requires
        forall|i: int| 0 <= i < hdr_names@.len() ==> trace_header_field(#[trigger] hdr_names@[i]) is Some,
    ensures
        vals@.len() == hdr_names@.len(),
        forall|i: int|
            0 <= i < hdr_names@.len() ==> #[trigger] vals@[i] == header_value_at(
                hdr_buf@,
                hdr_names@[i],
                swapped,
            ),
{
    let mut vals: Vec<HdrValue> = Vec::new();
    let mut i: usize = 0;
    while i < hdr_names.len()
        invariant
            i <= hdr_names@.len(),
            vals@.len() == i,
            forall|j: int| 0 <= j < hdr_names@.len() ==> trace_header_field(#[trigger] hdr_names@[j]) is Some,
            forall|j: int|
                0 <= j < i ==> #[trigger] vals@[j] == header_value_at(
                    hdr_buf@,
                    hdr_names@[j],
                    swapped,
                ),
        decreases hdr_names@.len() - i,
    {
        let name = hdr_names[i];
        let (fmt, offset) = match trace_header_field(name) {
            Some(entry) => entry,
            None => {
                assert(trace_header_field(hdr_names@[i as int]) is Some);
                (TrcHdrFmt::I32, 0)
            },
        };
        let size = format_size(fmt);
        assert(0 <= offset <= 408);
        let v = if offset as usize + size as usize > hdr_buf.len() {
            HdrValue::I32(0)
        } else {
            let start = offset as usize;
            let bytes = vstd::slice::slice_subrange(hdr_buf, start, start + size as usize);
            decode_header_value(bytes, fmt, swapped)
        };
        vals.push(v);
        i = i + 1;
    }
    vals
}

/// Checks that every value named `hdr_names` lies within the trace headers of
/// a trace, `max_add_trc_hdrs` additional headers after the first; the error
/// names the first value that does not.
pub fn check_header_names(hdr_names: &[i32], max_add_trc_hdrs: i32) -> (r: Result<(), Error>)
    requires
        forall|i: int| 0 <= i < hdr_names@.len() ==> trace_header_field(#[trigger] hdr_names@[i]) is Some,
        hdr_names@.len() > 0 ==> i32::MIN <= TRACE_HEADER_SIZE * (max_add_trc_hdrs + 1) <= i32::MAX,
    ensures
        r is Ok <==> forall|i: int|
            0 <= i < hdr_names@.len() ==> field_fits(
                #[trigger] hdr_names@[i],
                TRACE_HEADER_SIZE * (max_add_trc_hdrs + 1),
            ),
        r is Err ==> exists|i: int|
            0 <= i < hdr_names@.len() && !field_fits(
                hdr_names@[i],
                TRACE_HEADER_SIZE * (max_add_trc_hdrs + 1),
            ) && (forall|j: int|
                0 <= j < i ==> field_fits(
                    #[trigger] hdr_names@[j],
                    TRACE_HEADER_SIZE * (max_add_trc_hdrs + 1),
                )) && r == Err::<(), Error>(Error::TraceHeaderMap(hdr_names@[i])),
{
    let limit = TRACE_HEADER_SIZE as i64 * (max_add_trc_hdrs as i64 + 1);
    match first_misplaced_header(hdr_names, limit) {
        Some(i) => Err(Error::TraceHeaderMap(hdr_names[i])),
        None => Ok(()),
    }
}

/// The sample of format `f` that the bytes `b` hold, read in the byte order
/// of `swapped` (single bytes have no byte order). 24-bit samples are not
/// sign-extended.
pub open spec fn sample_from_bytes(b: Seq<u8>, f: SampleFormat, swapped: bool) -> SampleValue {
    match f {
        SampleFormat::Ibm => SampleValue::Ibm(uint_of(b, swapped) as u32),
        SampleFormat::I32 => SampleValue::I32(to_signed(uint_of(b, swapped), 4) as i32),
        SampleFormat::I16 => SampleValue::I16(to_signed(uint_of(b, swapped), 2) as i16),
        SampleFormat::F32 => SampleValue::F32(uint_of(b, swapped) as u32),
        SampleFormat::F64 => SampleValue::F64(uint_of(b, swapped) as u64),
        SampleFormat::I24 => SampleValue::I24(uint_of(b, swapped) as i32),
        SampleFormat::I8 => SampleValue::I8(to_signed(uint_of(b, false), 1) as i8),
        SampleFormat::I64 => SampleValue::I64(to_signed(uint_of(b, swapped), 8) as i64),
        SampleFormat::U32 => SampleValue::U32(uint_of(b, swapped) as u32),
        SampleFormat::U16 => SampleValue::U16(uint_of(b, swapped) as u16),
        SampleFormat::U64 => SampleValue::U64(uint_of(b, swapped) as u64),
        SampleFormat::U24 => SampleValue::U24(uint_of(b, swapped) as u32),
        SampleFormat::U8 => SampleValue::U8(uint_of(b, false) as u8),
    }
}

/// Decodes one sample of format `f` from its bytes.
pub fn decode_sample(bytes: &[u8], f: SampleFormat, swapped: bool) -> (v: SampleValue)
    requires
        bytes@.len() == bytes_per_sample(f),
    ensures
        v == sample_from_bytes(bytes@, f, swapped),
        sample_value_format(v) == f,
        crate::standard::sample_bits(v) == uint_of(bytes@, swapped),
{
    proof {
        crate::standard::law_sample_byte_order(bytes@, f, swapped);
    }
    let mut p = bytes;
    assert(p@.take(p@.len() as int) =~= p@);
    match f {
        SampleFormat::Ibm => SampleValue::Ibm(
            if swapped {
                read_u32_sw(&mut p)
            } else {
                read_u32(&mut p)
            },
        ),
        SampleFormat::I32 => SampleValue::I32(
            if swapped {
                read_i32_sw(&mut p)
            } else {
                read_i32(&mut p)
            },
        ),
        SampleFormat::I16 => SampleValue::I16(
            if swapped {
                read_i16_sw(&mut p)
            } else {
                read_i16(&mut p)
            },
        ),
        SampleFormat::F32 => SampleValue::F32(
            if swapped {
                read_u32_sw(&mut p)
            } else {
                read_u32(&mut p)
            },
        ),
        SampleFormat::F64 => SampleValue::F64(
            if swapped {
                read_u64_sw(&mut p)
            } else {
                read_u64(&mut p)
            },
        ),
        SampleFormat::I24 => SampleValue::I24(
            if swapped {
                read_i24_sw(&mut p)
            } else {
                read_i24(&mut p)
            },
        ),
        SampleFormat::I8 => SampleValue::I8(read_i8(&mut p)),
        SampleFormat::I64 => SampleValue::I64(
            if swapped {
                read_i64_sw(&mut p)
            } else {
                read_i64(&mut p)
            },
        ),
        SampleFormat::U32 => SampleValue::U32(
            if swapped {
                read_u32_sw(&mut p)
            } else {
                read_u32(&mut p)
            },
        ),
        SampleFormat::U16 => SampleValue::U16(
            if swapped {
                read_u16_sw(&mut p)
            } else {
                read_u16(&mut p)
            },
        ),
        SampleFormat::U64 => SampleValue::U64(
            if swapped {
                read_u64_sw(&mut p)
            } else {
                read_u64(&mut p)
            },
        ),
        SampleFormat::U24 => SampleValue::U24(
            if swapped {
                read_u24_sw(&mut p)
            } else {
                read_u24(&mut p)
            },
        ),
        SampleFormat::U8 => SampleValue::U8(read_u8(&mut p)),
    }
}

/// The bytes of sample `i` in a run of samples of format `f`.
pub open spec fn sample_bytes_at(buf: Seq<u8>, i: int, f: SampleFormat) -> Seq<u8> {
    buf.subrange(i * bytes_per_sample(f), (i + 1) * bytes_per_sample(f))
}

/// Decodes the first `count` samples of format `f` of a trace from its sample
/// bytes `buf`.
pub fn decode_samples(buf: &[u8], count: usize, f: SampleFormat, swapped: bool) -> (samples: Vec<
    SampleValue,
>)
    requires
        count * bytes_per_sample(f) <= buf.len(),
    ensures
        samples@.len() == count,
        forall|i: int|
            0 <= i < count ==> #[trigger] samples@[i] == sample_from_bytes(
                sample_bytes_at(buf@, i, f),
                f,
                swapped,
            ),
{
    let bps = bytes_per_sample(f);
    let mut samples: Vec<SampleValue> = Vec::new();
    let mut i: usize = 0;
    let mut off: usize = 0;
    while i < count
        invariant
            i <= count,
            count * bps <= buf.len(),
            bps == bytes_per_sample(f),
            off == i * bps,
            samples@.len() == i,
            forall|j: int|
                0 <= j < i ==> #[trigger] samples@[j] == sample_from_bytes(
                    sample_bytes_at(buf@, j, f),
                    f,
                    swapped,
                ),
        decreases count - i,
    {
        assert((i + 1) * bps <= count * bps) by (nonlinear_arith)
            requires
                i + 1 <= count,
                bps > 0,
        ;
        assert((i + 1) * bps == i * bps + bps) by (nonlinear_arith);
        let bytes = vstd::slice::slice_subrange(buf, off, off + bps);
        let v = decode_sample(bytes, f, swapped);
        samples.push(v);
        i = i + 1;
        off = off + bps;
    }
    samples
}

/// The number of samples of a trace of variable length: the number in its
/// trace header, or the extended number when the trace has additional headers
/// and that is greater.
pub fn trace_samp_num(samp_num: i32, ext_samp_num: Option<i32>) -> (n: i32)
    ensures
        n == (match ext_samp_num {
            Some(ext) => if ext > samp_num {
                ext
            } else {
                samp_num
            },
            None => samp_num,
        }),
{
    match ext_samp_num {
        Some(ext) => if ext > samp_num {
            ext
        } else {
            samp_num
        },
        None => samp_num,
    }
}

/// Whether the trace headers of each trace are read whole rather than value
/// by value: for more names than one in twenty of the 114 entries of the
/// standard trace header table.
pub fn reads_headers_whole(n_names: usize) -> (b: bool)
    ensures
        b == (n_names > 114 * 5 / 100),
{
    let map = std_trc_hdr_map();
    n_names > map.len() * 5 / 100
}

} // verus!
