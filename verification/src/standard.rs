//! What the SEG-Y format fixes, stated over the decoders' results: which byte
//! of a value is most significant in either byte order, the byte offsets of
//! the binary header fields, the standard trace header table, the sample
//! format codes and the format codes allowed in each revision.
use crate::bytes::{
    be_nat, le_nat, lemma_nat_bound, lemma_pow256_values, lemma_unsigned_roundtrip, pow256,
    to_signed, to_unsigned, uint_of,
};
use crate::common::{
    bytes_per_sample, hdr_value_format, sample_format_spec, format_size, sample_value_format, HdrValue, SampleFormat,
    SampleValue, TrcHdrFmt, trace_header_field,
};
use crate::writer::format_allowed_in_revision;
use crate::reader::{
    binary_header_from_bytes, endianness_of, hdr_value_from_bytes, sample_from_bytes,
    swapped_for_spec,
};
use vstd::prelude::*;

verus! {

/// Law: the value of one, two, three, four or eight bytes, read most
/// significant byte first (`swapped`, big-endian) or least significant byte
/// first (little-endian), by the place of each byte.
pub proof fn law_byte_positions(b: Seq<u8>, swapped: bool)
    ensures
        b.len() == 1 ==> uint_of(b, swapped) == b[0],
        b.len() == 2 ==> uint_of(b, swapped) == if swapped {
            b[0] * 0x100 + b[1]
        } else {
            b[1] * 0x100 + b[0]
        },
        b.len() == 3 ==> uint_of(b, swapped) == if swapped {
            b[0] * 0x1_0000 + b[1] * 0x100 + b[2]
        } else {
            b[2] * 0x1_0000 + b[1] * 0x100 + b[0]
        },
        b.len() == 4 ==> uint_of(b, swapped) == if swapped {
            b[0] * 0x100_0000 + b[1] * 0x1_0000 + b[2] * 0x100 + b[3]
        } else {
            b[3] * 0x100_0000 + b[2] * 0x1_0000 + b[1] * 0x100 + b[0]
        },
        b.len() == 8 ==> uint_of(b, swapped) == if swapped {
            b[0] * 0x100_0000_0000_0000 + b[1] * 0x1_0000_0000_0000 + b[2] * 0x100_0000_0000
                + b[3] * 0x1_0000_0000 + b[4] * 0x100_0000 + b[5] * 0x1_0000 + b[6] * 0x100 + b[7]
        } else {
            b[7] * 0x100_0000_0000_0000 + b[6] * 0x1_0000_0000_0000 + b[5] * 0x100_0000_0000
                + b[4] * 0x1_0000_0000 + b[3] * 0x100_0000 + b[2] * 0x1_0000 + b[1] * 0x100 + b[0]
        },
{
    if b.len() == 1 || b.len() == 2 || b.len() == 3 || b.len() == 4 || b.len() == 8 {
        lemma_le_positions(b);
        lemma_be_positions(b);
    }
}

/// The little-endian value of `b` by the place of each byte.
proof fn lemma_le_positions(b: Seq<u8>)
    ensures
        b.len() == 0 ==> le_nat(b) == 0,
        b.len() >= 1 ==> le_nat(b) == b[0] + 0x100 * le_nat(b.drop_first()),
        b.len() == 1 ==> le_nat(b) == b[0],
        b.len() == 2 ==> le_nat(b) == b[1] * 0x100 + b[0],
        b.len() == 3 ==> le_nat(b) == b[2] * 0x1_0000 + b[1] * 0x100 + b[0],
        b.len() == 4 ==> le_nat(b) == b[3] * 0x100_0000 + b[2] * 0x1_0000 + b[1] * 0x100 + b[0],
        b.len() == 5 ==> le_nat(b) == b[4] * 0x1_0000_0000 + b[3] * 0x100_0000 + b[2] * 0x1_0000
            + b[1] * 0x100 + b[0],
        b.len() == 6 ==> le_nat(b) == b[5] * 0x100_0000_0000 + b[4] * 0x1_0000_0000 + b[3]
            * 0x100_0000 + b[2] * 0x1_0000 + b[1] * 0x100 + b[0],
        b.len() == 7 ==> le_nat(b) == b[6] * 0x1_0000_0000_0000 + b[5] * 0x100_0000_0000 + b[4]
            * 0x1_0000_0000 + b[3] * 0x100_0000 + b[2] * 0x1_0000 + b[1] * 0x100 + b[0],
        b.len() == 8 ==> le_nat(b) == b[7] * 0x100_0000_0000_0000 + b[6] * 0x1_0000_0000_0000 + b[5]
            * 0x100_0000_0000 + b[4] * 0x1_0000_0000 + b[3] * 0x100_0000 + b[2] * 0x1_0000 + b[1]
            * 0x100 + b[0],
    decreases b.len(),
{
    if b.len() > 0 {
        let t = b.drop_first();
        lemma_le_positions(t);
        assert(forall|i: int| 0 <= i < t.len() ==> t[i] == b[i + 1]);
    }
}

/// The big-endian value of `b` by the place of each byte.
proof fn lemma_be_positions(b: Seq<u8>)
    ensures
        b.len() == 0 ==> be_nat(b) == 0,
        b.len() == 1 ==> be_nat(b) == b[0],
        b.len() == 2 ==> be_nat(b) == b[0] * 0x100 + b[1],
        b.len() == 3 ==> be_nat(b) == b[0] * 0x1_0000 + b[1] * 0x100 + b[2],
        b.len() == 4 ==> be_nat(b) == b[0] * 0x100_0000 + b[1] * 0x1_0000 + b[2] * 0x100 + b[3],
        b.len() == 5 ==> be_nat(b) == b[0] * 0x1_0000_0000 + b[1] * 0x100_0000 + b[2] * 0x1_0000
            + b[3] * 0x100 + b[4],
        b.len() == 6 ==> be_nat(b) == b[0] * 0x100_0000_0000 + b[1] * 0x1_0000_0000 + b[2]
            * 0x100_0000 + b[3] * 0x1_0000 + b[4] * 0x100 + b[5],
        b.len() == 7 ==> be_nat(b) == b[0] * 0x1_0000_0000_0000 + b[1] * 0x100_0000_0000 + b[2]
            * 0x1_0000_0000 + b[3] * 0x100_0000 + b[4] * 0x1_0000 + b[5] * 0x100 + b[6],
        b.len() == 8 ==> be_nat(b) == b[0] * 0x100_0000_0000_0000 + b[1] * 0x1_0000_0000_0000 + b[2]
            * 0x100_0000_0000 + b[3] * 0x1_0000_0000 + b[4] * 0x100_0000 + b[5] * 0x1_0000 + b[6]
            * 0x100 + b[7],
    decreases b.len(),
{
    if b.len() > 0 {
        let t = b.drop_last();
        lemma_be_positions(t);
        assert(forall|i: int| 0 <= i < t.len() ==> t[i] == b[i]);
    }
}

/// The bit pattern of the sample `v`: its value for unsigned and floating
/// point formats, its two's complement pattern of its width for signed ones.
pub open spec fn sample_bits(v: SampleValue) -> int {
    match v {
        SampleValue::Ibm(x) => x as int,
        SampleValue::I32(x) => to_unsigned(x as int, 4) as int,
        SampleValue::I16(x) => to_unsigned(x as int, 2) as int,
        SampleValue::F32(x) => x as int,
        SampleValue::F64(x) => x as int,
        SampleValue::I24(x) => to_unsigned(x as int, 3) as int,
        SampleValue::I8(x) => to_unsigned(x as int, 1) as int,
        SampleValue::I64(x) => to_unsigned(x as int, 8) as int,
        SampleValue::U32(x) => x as int,
        SampleValue::U16(x) => x as int,
        SampleValue::U64(x) => x as int,
        SampleValue::U24(x) => x as int,
        SampleValue::U8(x) => x as int,
    }
}

/// Law: a sample of any format is read, in a file of either byte order, as
/// the pattern of its bytes in that order: most significant byte first in a
/// big-endian file (`swapped`), least significant first otherwise (see
/// `law_byte_positions` for the place of each byte). The sample has the format
/// it was read in, and 24-bit samples are the three bytes' pattern, not
/// sign-extended.
pub proof fn law_sample_byte_order(b: Seq<u8>, f: SampleFormat, swapped: bool)
    requires
        b.len() == bytes_per_sample(f),
    ensures
        sample_value_format(sample_from_bytes(b, f, swapped)) == f,
        sample_bits(sample_from_bytes(b, f, swapped)) == uint_of(b, swapped),
        f == SampleFormat::I24 ==> sample_from_bytes(b, f, swapped) == SampleValue::I24(
            uint_of(b, swapped) as i32,
        ) && 0 <= uint_of(b, swapped) < 0x100_0000,
{
    lemma_pow256_values();
    lemma_nat_bound(b);
    law_byte_positions(b, swapped);
    law_byte_positions(b, false);
    let n = uint_of(b, swapped);
    let k = b.len();
    if k > 1 {
        lemma_unsigned_roundtrip(n, k);
    } else {
        lemma_unsigned_roundtrip(uint_of(b, false), 1);
    }
}

/// The bit pattern of the trace header value `v`: its value for unsigned and
/// floating point formats, its two's complement pattern of its width for
/// signed ones.
pub open spec fn hdr_value_bits(v: HdrValue) -> int {
    match v {
        HdrValue::I8(x) => to_unsigned(x as int, 1) as int,
        HdrValue::I16(x) => to_unsigned(x as int, 2) as int,
        HdrValue::I32(x) => to_unsigned(x as int, 4) as int,
        HdrValue::I64(x) => to_unsigned(x as int, 8) as int,
        HdrValue::U8(x) => x as int,
        HdrValue::U16(x) => x as int,
        HdrValue::U32(x) => x as int,
        HdrValue::U64(x) => x as int,
        HdrValue::F32(x) => x as int,
        HdrValue::F64(x) => x as int,
    }
}

/// Law: a trace header value of any format is read, in a file of either byte
/// order, as the pattern of its bytes in that order, and has that format.
pub proof fn law_header_value_byte_order(b: Seq<u8>, fmt: TrcHdrFmt, swapped: bool)
    requires
        b.len() == format_size(fmt),
    ensures
        hdr_value_format(hdr_value_from_bytes(b, fmt, swapped)) == fmt,
        hdr_value_bits(hdr_value_from_bytes(b, fmt, swapped)) == uint_of(b, swapped),
{
    lemma_pow256_values();
    lemma_nat_bound(b);
    law_byte_positions(b, swapped);
    law_byte_positions(b, false);
    let n = uint_of(b, swapped);
    let k = b.len();
    if k > 1 {
        lemma_unsigned_roundtrip(n, k);
    } else {
        lemma_unsigned_roundtrip(uint_of(b, false), 1);
    }
}

/// The value of the `k` bytes of `b` from `off` lies in the range of `k`
/// bytes, unsigned and as two's complement.
proof fn lemma_field_bounds(b: Seq<u8>, off: int, k: nat, swapped: bool)
    requires
        0 <= off,
        off + k <= b.len(),
        k == 1 || k == 2 || k == 4 || k == 8,
    ensures
        uint_of(b.subrange(off, off + k), swapped) < pow256(k),
        -(pow256(k) / 2) <= to_signed(uint_of(b.subrange(off, off + k), swapped), k) < pow256(k) / 2,
{
    lemma_nat_bound(b.subrange(off, off + k));
    lemma_unsigned_roundtrip(uint_of(b.subrange(off, off + k), swapped), k);
}

/// Law: each field of the binary file header is read from its byte offset in
/// the SEG-Y standard, in the byte order of the file (`swapped` for
/// big-endian), as two's complement for signed fields; the revision numbers
/// are single bytes. What `encode_binary_header` stores reads back through
/// these offsets (`law_binary_header_write_read`), so it stores each field at
/// the same place.
#[verifier::spinoff_prover]
#[verifier::rlimit(60)]
pub proof fn law_binary_header_offsets(b: Seq<u8>, swapped: bool)
    requires
        b.len() == 400,
    ensures
        ({
            let bh = binary_header_from_bytes(b, swapped);
            &&& bh.job_id == to_signed(uint_of(b.subrange(0, 4), swapped), 4)
            &&& bh.line_num == to_signed(uint_of(b.subrange(4, 8), swapped), 4)
            &&& bh.reel_num == to_signed(uint_of(b.subrange(8, 12), swapped), 4)
            &&& bh.trc_num == to_signed(uint_of(b.subrange(12, 14), swapped), 2)
            &&& bh.aux_trc_num == to_signed(uint_of(b.subrange(14, 16), swapped), 2)
            &&& bh.samp_int == to_signed(uint_of(b.subrange(16, 18), swapped), 2)
            &&& bh.samp_int_orig == to_signed(uint_of(b.subrange(18, 20), swapped), 2)
            &&& bh.samp_num == to_signed(uint_of(b.subrange(20, 22), swapped), 2)
            &&& bh.samp_num_orig == to_signed(uint_of(b.subrange(22, 24), swapped), 2)
            &&& bh.format_code == to_signed(uint_of(b.subrange(24, 26), swapped), 2)
            &&& bh.ensemble_fold == to_signed(uint_of(b.subrange(26, 28), swapped), 2)
            &&& bh.trc_sort_code == to_signed(uint_of(b.subrange(28, 30), swapped), 2)
            &&& bh.vert_sum_code == to_signed(uint_of(b.subrange(30, 32), swapped), 2)
            &&& bh.sw_freq_at_start == to_signed(uint_of(b.subrange(32, 34), swapped), 2)
            &&& bh.sw_freq_at_end == to_signed(uint_of(b.subrange(34, 36), swapped), 2)
            &&& bh.sw_length == to_signed(uint_of(b.subrange(36, 38), swapped), 2)
            &&& bh.sw_type_code == to_signed(uint_of(b.subrange(38, 40), swapped), 2)
            &&& bh.trc_num_of_sw_ch == to_signed(uint_of(b.subrange(40, 42), swapped), 2)
            &&& bh.sw_trc_taper_length_start == to_signed(uint_of(b.subrange(42, 44), swapped), 2)
            &&& bh.sw_trc_taper_length_end == to_signed(uint_of(b.subrange(44, 46), swapped), 2)
            &&& bh.taper_type == to_signed(uint_of(b.subrange(46, 48), swapped), 2)
            &&& bh.corr_data_trc == to_signed(uint_of(b.subrange(48, 50), swapped), 2)
            &&& bh.bin_gain_recov == to_signed(uint_of(b.subrange(50, 52), swapped), 2)
            &&& bh.amp_recov_meth == to_signed(uint_of(b.subrange(52, 54), swapped), 2)
            &&& bh.measure_sys == to_signed(uint_of(b.subrange(54, 56), swapped), 2)
            &&& bh.impulse_sig_pol == to_signed(uint_of(b.subrange(56, 58), swapped), 2)
            &&& bh.vib_pol_code == to_signed(uint_of(b.subrange(58, 60), swapped), 2)
            &&& bh.ext_trc_num == to_signed(uint_of(b.subrange(60, 64), swapped), 4)
            &&& bh.ext_aux_trc_num == to_signed(uint_of(b.subrange(64, 68), swapped), 4)
            &&& bh.ext_samp_num == to_signed(uint_of(b.subrange(68, 72), swapped), 4)
            &&& bh.ext_samp_int_bits == uint_of(b.subrange(72, 80), swapped)
            &&& bh.ext_samp_int_orig_bits == uint_of(b.subrange(80, 88), swapped)
            &&& bh.ext_samp_num_orig == to_signed(uint_of(b.subrange(88, 92), swapped), 4)
            &&& bh.ext_ensemble_fold == to_signed(uint_of(b.subrange(92, 96), swapped), 4)
            &&& bh.endianness == to_signed(uint_of(b.subrange(96, 100), swapped), 4)
            &&& bh.segy_maj_ver == b[300]
            &&& bh.segy_min_ver == b[301]
            &&& bh.fix_length_trc_flag == to_signed(uint_of(b.subrange(302, 304), swapped), 2)
            &&& bh.ext_text_hdrs_num == to_signed(uint_of(b.subrange(304, 306), swapped), 2)
            &&& bh.max_add_trc_hdrs == to_signed(uint_of(b.subrange(306, 310), swapped), 4)
            &&& bh.time_basis_code == to_signed(uint_of(b.subrange(310, 312), swapped), 2)
            &&& bh.num_of_trcs_in_file == uint_of(b.subrange(312, 320), swapped)
            &&& bh.byte_off_of_first_trc == uint_of(b.subrange(320, 328), swapped)
            &&& bh.trailer_stanza_num == to_signed(uint_of(b.subrange(328, 332), swapped), 4)
        }),
{
    lemma_pow256_values();
    lemma_field_bounds(b, 0, 4, swapped);
    lemma_field_bounds(b, 4, 4, swapped);
    lemma_field_bounds(b, 8, 4, swapped);
    lemma_field_bounds(b, 12, 2, swapped);
    lemma_field_bounds(b, 14, 2, swapped);
    lemma_field_bounds(b, 16, 2, swapped);
    lemma_field_bounds(b, 18, 2, swapped);
    lemma_field_bounds(b, 20, 2, swapped);
    lemma_field_bounds(b, 22, 2, swapped);
    lemma_field_bounds(b, 24, 2, swapped);
    lemma_field_bounds(b, 26, 2, swapped);
    lemma_field_bounds(b, 28, 2, swapped);
    lemma_field_bounds(b, 30, 2, swapped);
    lemma_field_bounds(b, 32, 2, swapped);
    lemma_field_bounds(b, 34, 2, swapped);
    lemma_field_bounds(b, 36, 2, swapped);
    lemma_field_bounds(b, 38, 2, swapped);
    lemma_field_bounds(b, 40, 2, swapped);
    lemma_field_bounds(b, 42, 2, swapped);
    lemma_field_bounds(b, 44, 2, swapped);
    lemma_field_bounds(b, 46, 2, swapped);
    lemma_field_bounds(b, 48, 2, swapped);
    lemma_field_bounds(b, 50, 2, swapped);
    lemma_field_bounds(b, 52, 2, swapped);
    lemma_field_bounds(b, 54, 2, swapped);
    lemma_field_bounds(b, 56, 2, swapped);
    lemma_field_bounds(b, 58, 2, swapped);
    lemma_field_bounds(b, 60, 4, swapped);
    lemma_field_bounds(b, 64, 4, swapped);
    lemma_field_bounds(b, 68, 4, swapped);
    lemma_field_bounds(b, 72, 8, swapped);
    lemma_field_bounds(b, 80, 8, swapped);
    lemma_field_bounds(b, 88, 4, swapped);
    lemma_field_bounds(b, 92, 4, swapped);
    lemma_field_bounds(b, 96, 4, swapped);
    lemma_field_bounds(b, 300, 1, false);
    lemma_field_bounds(b, 301, 1, false);
    lemma_field_bounds(b, 302, 2, swapped);
    lemma_field_bounds(b, 304, 2, swapped);
    lemma_field_bounds(b, 306, 4, swapped);
    lemma_field_bounds(b, 310, 2, swapped);
    lemma_field_bounds(b, 312, 8, swapped);
    lemma_field_bounds(b, 320, 8, swapped);
    lemma_field_bounds(b, 328, 4, swapped);
    law_byte_positions(b.subrange(300, 301), false);
    law_byte_positions(b.subrange(301, 302), false);
}

/// Law: the standard trace header table. Every name from 0 to 114 but 95
/// (`R_DEPTH`) has an entry and no other name has one; each entry has the
/// number format and the byte offset in the trace headers that the SEG-Y
/// standard gives it (offsets from 240 on lie in the first additional trace
/// header); the only floating point values are the IEEE doubles of the
/// additional header, and every value lies within the first 416 bytes.
pub proof fn law_trace_header_table(name: i32)
    ensures
        trace_header_field(name) is Some <==> 0 <= name <= 114 && name != 95,
        trace_header_field(name) is Some ==> 0 <= trace_header_field(name).unwrap().1
            && trace_header_field(name).unwrap().1 + format_size(trace_header_field(name).unwrap().0)
            <= 416,
        trace_header_field(name) is Some ==> ((trace_header_field(name).unwrap().0 == TrcHdrFmt::F32
            || trace_header_field(name).unwrap().0 == TrcHdrFmt::F64) <==> (name == 94 || name == 96 || name == 97 || name == 98 || name == 99 || name == 100 || name == 101 || name == 102 || name == 103 || name == 104 || name == 105 || name == 106 || name == 109 || name == 113 || name == 114)),
        trace_header_field(name) is Some ==> trace_header_field(name).unwrap().0 != TrcHdrFmt::F32,
        trace_header_field(0) == Some((TrcHdrFmt::I32, 0i32)),
        trace_header_field(1) == Some((TrcHdrFmt::I32, 4i32)),
        trace_header_field(2) == Some((TrcHdrFmt::I32, 8i32)),
        trace_header_field(3) == Some((TrcHdrFmt::I32, 12i32)),
        trace_header_field(4) == Some((TrcHdrFmt::I32, 16i32)),
        trace_header_field(5) == Some((TrcHdrFmt::I32, 20i32)),
        trace_header_field(6) == Some((TrcHdrFmt::I32, 24i32)),
        trace_header_field(7) == Some((TrcHdrFmt::I16, 28i32)),
        trace_header_field(8) == Some((TrcHdrFmt::I16, 30i32)),
        trace_header_field(9) == Some((TrcHdrFmt::I16, 32i32)),
        trace_header_field(10) == Some((TrcHdrFmt::I16, 34i32)),
        trace_header_field(11) == Some((TrcHdrFmt::I32, 36i32)),
        trace_header_field(12) == Some((TrcHdrFmt::I32, 40i32)),
        trace_header_field(13) == Some((TrcHdrFmt::I32, 44i32)),
        trace_header_field(14) == Some((TrcHdrFmt::I32, 48i32)),
        trace_header_field(15) == Some((TrcHdrFmt::I32, 52i32)),
        trace_header_field(16) == Some((TrcHdrFmt::I32, 56i32)),
        trace_header_field(17) == Some((TrcHdrFmt::I32, 60i32)),
        trace_header_field(18) == Some((TrcHdrFmt::I32, 64i32)),
        trace_header_field(19) == Some((TrcHdrFmt::I16, 68i32)),
        trace_header_field(20) == Some((TrcHdrFmt::I16, 70i32)),
        trace_header_field(21) == Some((TrcHdrFmt::I32, 72i32)),
        trace_header_field(22) == Some((TrcHdrFmt::I32, 76i32)),
        trace_header_field(23) == Some((TrcHdrFmt::I32, 80i32)),
        trace_header_field(24) == Some((TrcHdrFmt::I32, 84i32)),
        trace_header_field(25) == Some((TrcHdrFmt::I16, 88i32)),
        trace_header_field(26) == Some((TrcHdrFmt::I16, 90i32)),
        trace_header_field(27) == Some((TrcHdrFmt::I16, 92i32)),
        trace_header_field(28) == Some((TrcHdrFmt::I16, 94i32)),
        trace_header_field(29) == Some((TrcHdrFmt::I16, 96i32)),
        trace_header_field(30) == Some((TrcHdrFmt::I16, 98i32)),
        trace_header_field(31) == Some((TrcHdrFmt::I16, 100i32)),
        trace_header_field(32) == Some((TrcHdrFmt::I16, 102i32)),
        trace_header_field(33) == Some((TrcHdrFmt::I16, 104i32)),
        trace_header_field(34) == Some((TrcHdrFmt::I16, 106i32)),
        trace_header_field(35) == Some((TrcHdrFmt::I16, 108i32)),
        trace_header_field(36) == Some((TrcHdrFmt::I16, 110i32)),
        trace_header_field(37) == Some((TrcHdrFmt::I16, 112i32)),
        trace_header_field(38) == Some((TrcHdrFmt::I16, 114i32)),
        trace_header_field(39) == Some((TrcHdrFmt::I16, 116i32)),
        trace_header_field(40) == Some((TrcHdrFmt::I16, 118i32)),
        trace_header_field(41) == Some((TrcHdrFmt::I16, 120i32)),
        trace_header_field(42) == Some((TrcHdrFmt::I16, 122i32)),
        trace_header_field(43) == Some((TrcHdrFmt::I16, 124i32)),
        trace_header_field(44) == Some((TrcHdrFmt::I16, 126i32)),
        trace_header_field(45) == Some((TrcHdrFmt::I16, 128i32)),
        trace_header_field(46) == Some((TrcHdrFmt::I16, 130i32)),
        trace_header_field(47) == Some((TrcHdrFmt::I16, 132i32)),
        trace_header_field(48) == Some((TrcHdrFmt::I16, 134i32)),
        trace_header_field(49) == Some((TrcHdrFmt::I16, 136i32)),
        trace_header_field(50) == Some((TrcHdrFmt::I16, 138i32)),
        trace_header_field(51) == Some((TrcHdrFmt::I16, 140i32)),
        trace_header_field(52) == Some((TrcHdrFmt::I16, 142i32)),
        trace_header_field(53) == Some((TrcHdrFmt::I16, 144i32)),
        trace_header_field(54) == Some((TrcHdrFmt::I16, 146i32)),
        trace_header_field(55) == Some((TrcHdrFmt::I16, 148i32)),
        trace_header_field(56) == Some((TrcHdrFmt::I16, 150i32)),
        trace_header_field(57) == Some((TrcHdrFmt::I16, 152i32)),
        trace_header_field(58) == Some((TrcHdrFmt::I16, 154i32)),
        trace_header_field(59) == Some((TrcHdrFmt::I16, 156i32)),
        trace_header_field(60) == Some((TrcHdrFmt::I16, 158i32)),
        trace_header_field(61) == Some((TrcHdrFmt::I16, 160i32)),
        trace_header_field(62) == Some((TrcHdrFmt::I16, 162i32)),
        trace_header_field(63) == Some((TrcHdrFmt::I16, 164i32)),
        trace_header_field(64) == Some((TrcHdrFmt::I16, 166i32)),
        trace_header_field(65) == Some((TrcHdrFmt::I16, 168i32)),
        trace_header_field(66) == Some((TrcHdrFmt::I16, 170i32)),
        trace_header_field(67) == Some((TrcHdrFmt::I16, 172i32)),
        trace_header_field(68) == Some((TrcHdrFmt::I16, 174i32)),
        trace_header_field(69) == Some((TrcHdrFmt::I16, 176i32)),
        trace_header_field(70) == Some((TrcHdrFmt::I16, 178i32)),
        trace_header_field(71) == Some((TrcHdrFmt::I32, 180i32)),
        trace_header_field(72) == Some((TrcHdrFmt::I32, 184i32)),
        trace_header_field(73) == Some((TrcHdrFmt::I32, 188i32)),
        trace_header_field(74) == Some((TrcHdrFmt::I32, 192i32)),
        trace_header_field(75) == Some((TrcHdrFmt::I32, 196i32)),
        trace_header_field(76) == Some((TrcHdrFmt::I16, 200i32)),
        trace_header_field(77) == Some((TrcHdrFmt::I16, 202i32)),
        trace_header_field(78) == Some((TrcHdrFmt::I32, 204i32)),
        trace_header_field(79) == Some((TrcHdrFmt::I16, 208i32)),
        trace_header_field(80) == Some((TrcHdrFmt::I16, 210i32)),
        trace_header_field(81) == Some((TrcHdrFmt::I16, 212i32)),
        trace_header_field(82) == Some((TrcHdrFmt::I16, 214i32)),
        trace_header_field(83) == Some((TrcHdrFmt::I16, 216i32)),
        trace_header_field(84) == Some((TrcHdrFmt::I16, 218i32)),
        trace_header_field(85) == Some((TrcHdrFmt::I16, 220i32)),
        trace_header_field(86) == Some((TrcHdrFmt::I16, 222i32)),
        trace_header_field(87) == Some((TrcHdrFmt::I32, 224i32)),
        trace_header_field(88) == Some((TrcHdrFmt::I16, 228i32)),
        trace_header_field(89) == Some((TrcHdrFmt::I16, 230i32)),
        trace_header_field(90) == Some((TrcHdrFmt::I64, 240i32)),
        trace_header_field(91) == Some((TrcHdrFmt::I64, 248i32)),
        trace_header_field(92) == Some((TrcHdrFmt::I64, 256i32)),
        trace_header_field(93) == Some((TrcHdrFmt::I64, 264i32)),
        trace_header_field(94) == Some((TrcHdrFmt::F64, 272i32)),
        trace_header_field(96) == Some((TrcHdrFmt::F64, 288i32)),
        trace_header_field(97) == Some((TrcHdrFmt::F64, 296i32)),
        trace_header_field(98) == Some((TrcHdrFmt::F64, 304i32)),
        trace_header_field(99) == Some((TrcHdrFmt::F64, 312i32)),
        trace_header_field(100) == Some((TrcHdrFmt::F64, 320i32)),
        trace_header_field(101) == Some((TrcHdrFmt::F64, 328i32)),
        trace_header_field(102) == Some((TrcHdrFmt::F64, 336i32)),
        trace_header_field(103) == Some((TrcHdrFmt::F64, 344i32)),
        trace_header_field(104) == Some((TrcHdrFmt::F64, 352i32)),
        trace_header_field(105) == Some((TrcHdrFmt::F64, 360i32)),
        trace_header_field(106) == Some((TrcHdrFmt::F64, 368i32)),
        trace_header_field(107) == Some((TrcHdrFmt::I32, 376i32)),
        trace_header_field(108) == Some((TrcHdrFmt::I32, 380i32)),
        trace_header_field(109) == Some((TrcHdrFmt::F64, 384i32)),
        trace_header_field(110) == Some((TrcHdrFmt::I32, 392i32)),
        trace_header_field(111) == Some((TrcHdrFmt::I16, 396i32)),
        trace_header_field(112) == Some((TrcHdrFmt::I16, 398i32)),
        trace_header_field(113) == Some((TrcHdrFmt::F64, 400i32)),
        trace_header_field(114) == Some((TrcHdrFmt::F64, 408i32)),
{
}

/// Law: the sample format codes of the binary header. Codes 1 to 3, 5 to 12,
/// 15 and 16 are supported and no others: 1 IBM floating point, 2 32-bit
/// integers, 3 16-bit integers, 5 IEEE single, 6 IEEE double, 7 24-bit
/// integers, 8 8-bit integers, 9 64-bit integers, 10, 11, 12, 15 and 16
/// unsigned 32, 16, 64, 24 and 8-bit integers. Distinct codes name distinct
/// formats, and each takes the bytes of its width.
pub proof fn law_sample_format_codes(code: i16, other: i16)
    ensures
        sample_format_spec(code) is Some <==> (1 <= code <= 3 || 5 <= code <= 12 || code == 15
            || code == 16),
        sample_format_spec(code) is Some && sample_format_spec(other) is Some && code != other
            ==> sample_format_spec(code) != sample_format_spec(other),
        sample_format_spec(1) == Some(SampleFormat::Ibm),
        sample_format_spec(2) == Some(SampleFormat::I32),
        sample_format_spec(3) == Some(SampleFormat::I16),
        sample_format_spec(5) == Some(SampleFormat::F32),
        sample_format_spec(6) == Some(SampleFormat::F64),
        sample_format_spec(7) == Some(SampleFormat::I24),
        sample_format_spec(8) == Some(SampleFormat::I8),
        sample_format_spec(9) == Some(SampleFormat::I64),
        sample_format_spec(10) == Some(SampleFormat::U32),
        sample_format_spec(11) == Some(SampleFormat::U16),
        sample_format_spec(12) == Some(SampleFormat::U64),
        sample_format_spec(15) == Some(SampleFormat::U24),
        sample_format_spec(16) == Some(SampleFormat::U8),
        sample_format_spec(code) is Some ==> bytes_per_sample(sample_format_spec(code).unwrap()) == (
        if code == 8 || code == 16 {
            1usize
        } else if code == 3 || code == 11 {
            2
        } else if code == 7 || code == 15 {
            3
        } else if code == 6 || code == 9 || code == 12 {
            8
        } else {
            4
        }),
{
}

/// Law: the sample format codes that a binary header of each revision may
/// give, as `check_bin_hdr` allows them: revision 0 codes 1 to 3; revision 1
/// codes 1, 2, 4, 5 and 8; revision 2 codes 1 to 16 but 3, 13 and 14.
pub proof fn law_formats_by_revision(code: i16)
    ensures
        format_allowed_in_revision(0, code) <==> (code == 1 || code == 2 || code == 3),
        format_allowed_in_revision(1, code) <==> (code == 1 || code == 2 || code == 4 || code == 5
            || code == 8),
        format_allowed_in_revision(2, code) <==> (1 <= code <= 16 && code != 3 && code != 13
            && code != 14),
        format_allowed_in_revision(1, 1),
        format_allowed_in_revision(2, 1),
        !format_allowed_in_revision(1, 3),
{
}

/// Law: the byte order of a file is the one in which the endianness constant
/// of its binary header (bytes 96 to 99) reads as `0x01020304`: bytes
/// `04 03 02 01` mark a little-endian file and `01 02 03 04` a big-endian one
/// (`swapped`). A zero constant, which older files hold, marks a big-endian
/// file; any other constant is not supported.
pub proof fn law_byte_order_from_endianness(b: Seq<u8>)
    requires
        b.len() == 400,
    ensures
        endianness_of(b) == uint_of(b.subrange(96, 100), false),
        b[96] == 4 && b[97] == 3 && b[98] == 2 && b[99] == 1 ==> swapped_for_spec(endianness_of(b))
            == Some(false),
        b[96] == 1 && b[97] == 2 && b[98] == 3 && b[99] == 4 ==> swapped_for_spec(endianness_of(b))
            == Some(true),
        forall|sw: bool|
            swapped_for_spec(endianness_of(b)) == Some(sw) && endianness_of(b) != 0 ==> uint_of(
                b.subrange(96, 100),
                sw,
            ) == 0x01020304,
        endianness_of(b) == 0 ==> swapped_for_spec(endianness_of(b)) == Some(true),
        endianness_of(b) != 0 && endianness_of(b) != 0x01020304 && endianness_of(b) != 0x04030201
            ==> swapped_for_spec(endianness_of(b)) is None,
{
    let e = b.subrange(96, 100);
    lemma_nat_bound(e);
    lemma_pow256_values();
    law_byte_positions(e, false);
    law_byte_positions(e, true);
    assert(e[0] == b[96] && e[1] == b[97] && e[2] == b[98] && e[3] == b[99]);
    let v = uint_of(e, false);
    if v == 0x04030201 {
        assert(e[0] == 1 && e[1] == 2 && e[2] == 3 && e[3] == 4) by (nonlinear_arith)
            requires
                v == e[3] * 0x100_0000 + e[2] * 0x1_0000 + e[1] * 0x100 + e[0],
                v == 0x04030201,
                e[0] < 256,
                e[1] < 256,
                e[2] < 256,
                e[3] < 256,
        ;
    }
}

/// Law: the number of bytes of each trace header value format and of each
/// sample format.
pub proof fn law_format_sizes()
    ensures
        format_size(TrcHdrFmt::I8) == 1 && format_size(TrcHdrFmt::U8) == 1,
        format_size(TrcHdrFmt::I16) == 2 && format_size(TrcHdrFmt::U16) == 2,
        format_size(TrcHdrFmt::I32) == 4 && format_size(TrcHdrFmt::U32) == 4 && format_size(
            TrcHdrFmt::F32,
        ) == 4,
        format_size(TrcHdrFmt::I64) == 8 && format_size(TrcHdrFmt::U64) == 8 && format_size(
            TrcHdrFmt::F64,
        ) == 8,
        bytes_per_sample(SampleFormat::I8) == 1 && bytes_per_sample(SampleFormat::U8) == 1,
        bytes_per_sample(SampleFormat::I16) == 2 && bytes_per_sample(SampleFormat::U16) == 2,
        bytes_per_sample(SampleFormat::I24) == 3 && bytes_per_sample(SampleFormat::U24) == 3,
        bytes_per_sample(SampleFormat::Ibm) == 4 && bytes_per_sample(SampleFormat::I32) == 4
            && bytes_per_sample(SampleFormat::F32) == 4 && bytes_per_sample(SampleFormat::U32) == 4,
        bytes_per_sample(SampleFormat::F64) == 8 && bytes_per_sample(SampleFormat::I64) == 8
            && bytes_per_sample(SampleFormat::U64) == 8,
{
}

} // verus!
