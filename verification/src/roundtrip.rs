//! What reading gives back of writing: the binary file header, trace header
//! values and samples that the writer stores, the reader reads back, and the
//! bytes of a binary header that the reader decodes, the writer stores back.
use crate::bytes::{
    be_bytes, int_bytes, lemma_bytes_read_store, lemma_int_bytes_roundtrip, lemma_nat_bound,
    lemma_place, lemma_place_same, lemma_pow256_values, lemma_uint_bytes_len, lemma_uint_bytes_roundtrip,
    to_unsigned, uint_bytes,
};
use crate::common::{
    bytes_per_sample, field_fits, field_format, field_offset, format_size, hdr_value_format,
    lemma_table_sorted, sample_value_format, trace_header_field, BinaryHeader, HdrValue,
    SampleFormat, SampleValue, TrcHdrFmt, BIN_HEADER_SIZE,
};
use crate::reader::{
    binary_header_from_bytes, endianness_of, hdr_value_from_bytes, header_value_at,
    sample_bytes_at, sample_from_bytes, swapped_for_spec,
};
use crate::writer::{
    binary_header_bytes, hdr_value_bytes, header_bytes_counts, header_bytes_extended,
    header_bytes_ids, header_bytes_layout, header_bytes_recovery, header_bytes_revision,
    header_bytes_sweep, header_bytes_taper, header_values_fit, headers_written,
    lemma_hdr_value_bytes_len, lemma_sample_bytes_len, sample_bytes, samples_written,
};
use vstd::prelude::*;

verus! {

/// The values of bytes 0 to 18 that `binary_header_bytes` stores read back.
proof fn lemma_read_back_ids(bh: BinaryHeader, sw: bool)
    ensures
        binary_header_from_bytes(binary_header_bytes(bh, sw), sw).job_id == bh.job_id,
        binary_header_from_bytes(binary_header_bytes(bh, sw), sw).line_num == bh.line_num,
        binary_header_from_bytes(binary_header_bytes(bh, sw), sw).reel_num == bh.reel_num,
        binary_header_from_bytes(binary_header_bytes(bh, sw), sw).trc_num == bh.trc_num,
        binary_header_from_bytes(binary_header_bytes(bh, sw), sw).aux_trc_num == bh.aux_trc_num,
        binary_header_from_bytes(binary_header_bytes(bh, sw), sw).samp_int == bh.samp_int,
{
    broadcast use lemma_uint_bytes_len;

    lemma_pow256_values();
    let b = binary_header_bytes(bh, sw);
    let g = header_bytes_ids(bh, sw);
    assert(b.subrange(0, 18) =~= g);
    assert(b.subrange(0, 4) =~= int_bytes(bh.job_id as int, 4, sw)) by {
        assert(b.subrange(0, 4) =~= g.subrange(0, 4));
    }
    lemma_int_bytes_roundtrip(bh.job_id as int, 4, sw);
    assert(b.subrange(4, 8) =~= int_bytes(bh.line_num as int, 4, sw)) by {
        assert(b.subrange(4, 8) =~= g.subrange(4, 8));
    }
    lemma_int_bytes_roundtrip(bh.line_num as int, 4, sw);
    assert(b.subrange(8, 12) =~= int_bytes(bh.reel_num as int, 4, sw)) by {
        assert(b.subrange(8, 12) =~= g.subrange(8, 12));
    }
    lemma_int_bytes_roundtrip(bh.reel_num as int, 4, sw);
    assert(b.subrange(12, 14) =~= int_bytes(bh.trc_num as int, 2, sw)) by {
        assert(b.subrange(12, 14) =~= g.subrange(12, 14));
    }
    lemma_int_bytes_roundtrip(bh.trc_num as int, 2, sw);
    assert(b.subrange(14, 16) =~= int_bytes(bh.aux_trc_num as int, 2, sw)) by {
        assert(b.subrange(14, 16) =~= g.subrange(14, 16));
    }
    lemma_int_bytes_roundtrip(bh.aux_trc_num as int, 2, sw);
    assert(b.subrange(16, 18) =~= int_bytes(bh.samp_int as int, 2, sw)) by {
        assert(b.subrange(16, 18) =~= g.subrange(16, 18));
    }
    lemma_int_bytes_roundtrip(bh.samp_int as int, 2, sw);
}

/// The values of bytes 18 to 30 that `binary_header_bytes` stores read back.
proof fn lemma_read_back_counts(bh: BinaryHeader, sw: bool)
    ensures
        binary_header_from_bytes(binary_header_bytes(bh, sw), sw).samp_int_orig == bh.samp_int_orig,
        binary_header_from_bytes(binary_header_bytes(bh, sw), sw).samp_num == bh.samp_num,
        binary_header_from_bytes(binary_header_bytes(bh, sw), sw).samp_num_orig == bh.samp_num_orig,
        binary_header_from_bytes(binary_header_bytes(bh, sw), sw).format_code == bh.format_code,
        binary_header_from_bytes(binary_header_bytes(bh, sw), sw).ensemble_fold == bh.ensemble_fold,
        binary_header_from_bytes(binary_header_bytes(bh, sw), sw).trc_sort_code == bh.trc_sort_code,
{
    broadcast use lemma_uint_bytes_len;

    lemma_pow256_values();
    let b = binary_header_bytes(bh, sw);
    let g = header_bytes_counts(bh, sw);
    assert(b.subrange(18, 30) =~= g);
    assert(b.subrange(18, 20) =~= int_bytes(bh.samp_int_orig as int, 2, sw)) by {
        assert(b.subrange(18, 20) =~= g.subrange(0, 2));
    }
    lemma_int_bytes_roundtrip(bh.samp_int_orig as int, 2, sw);
    assert(b.subrange(20, 22) =~= int_bytes(bh.samp_num as int, 2, sw)) by {
        assert(b.subrange(20, 22) =~= g.subrange(2, 4));
    }
    lemma_int_bytes_roundtrip(bh.samp_num as int, 2, sw);
    assert(b.subrange(22, 24) =~= int_bytes(bh.samp_num_orig as int, 2, sw)) by {
        assert(b.subrange(22, 24) =~= g.subrange(4, 6));
    }
    lemma_int_bytes_roundtrip(bh.samp_num_orig as int, 2, sw);
    assert(b.subrange(24, 26) =~= int_bytes(bh.format_code as int, 2, sw)) by {
        assert(b.subrange(24, 26) =~= g.subrange(6, 8));
    }
    lemma_int_bytes_roundtrip(bh.format_code as int, 2, sw);
    assert(b.subrange(26, 28) =~= int_bytes(bh.ensemble_fold as int, 2, sw)) by {
        assert(b.subrange(26, 28) =~= g.subrange(8, 10));
    }
    lemma_int_bytes_roundtrip(bh.ensemble_fold as int, 2, sw);
    assert(b.subrange(28, 30) =~= int_bytes(bh.trc_sort_code as int, 2, sw)) by {
        assert(b.subrange(28, 30) =~= g.subrange(10, 12));
    }
    lemma_int_bytes_roundtrip(bh.trc_sort_code as int, 2, sw);
}

/// The values of bytes 30 to 42 that `binary_header_bytes` stores read back.
proof fn lemma_read_back_sweep(bh: BinaryHeader, sw: bool)
    ensures
        binary_header_from_bytes(binary_header_bytes(bh, sw), sw).vert_sum_code == bh.vert_sum_code,
        binary_header_from_bytes(binary_header_bytes(bh, sw), sw).sw_freq_at_start == bh.sw_freq_at_start,
        binary_header_from_bytes(binary_header_bytes(bh, sw), sw).sw_freq_at_end == bh.sw_freq_at_end,
        binary_header_from_bytes(binary_header_bytes(bh, sw), sw).sw_length == bh.sw_length,
        binary_header_from_bytes(binary_header_bytes(bh, sw), sw).sw_type_code == bh.sw_type_code,
        binary_header_from_bytes(binary_header_bytes(bh, sw), sw).trc_num_of_sw_ch == bh.trc_num_of_sw_ch,
{
    broadcast use lemma_uint_bytes_len;

    lemma_pow256_values();
    let b = binary_header_bytes(bh, sw);
    let g = header_bytes_sweep(bh, sw);
    assert(b.subrange(30, 42) =~= g);
    assert(b.subrange(30, 32) =~= int_bytes(bh.vert_sum_code as int, 2, sw)) by {
        assert(b.subrange(30, 32) =~= g.subrange(0, 2));
    }
    lemma_int_bytes_roundtrip(bh.vert_sum_code as int, 2, sw);
    assert(b.subrange(32, 34) =~= int_bytes(bh.sw_freq_at_start as int, 2, sw)) by {
        assert(b.subrange(32, 34) =~= g.subrange(2, 4));
    }
    lemma_int_bytes_roundtrip(bh.sw_freq_at_start as int, 2, sw);
    assert(b.subrange(34, 36) =~= int_bytes(bh.sw_freq_at_end as int, 2, sw)) by {
        assert(b.subrange(34, 36) =~= g.subrange(4, 6));
    }
    lemma_int_bytes_roundtrip(bh.sw_freq_at_end as int, 2, sw);
    assert(b.subrange(36, 38) =~= int_bytes(bh.sw_length as int, 2, sw)) by {
        assert(b.subrange(36, 38) =~= g.subrange(6, 8));
    }
    lemma_int_bytes_roundtrip(bh.sw_length as int, 2, sw);
    assert(b.subrange(38, 40) =~= int_bytes(bh.sw_type_code as int, 2, sw)) by {
        assert(b.subrange(38, 40) =~= g.subrange(8, 10));
    }
    lemma_int_bytes_roundtrip(bh.sw_type_code as int, 2, sw);
    assert(b.subrange(40, 42) =~= int_bytes(bh.trc_num_of_sw_ch as int, 2, sw)) by {
        assert(b.subrange(40, 42) =~= g.subrange(10, 12));
    }
    lemma_int_bytes_roundtrip(bh.trc_num_of_sw_ch as int, 2, sw);
}

/// The values of bytes 42 to 54 that `binary_header_bytes` stores read back.
proof fn lemma_read_back_taper(bh: BinaryHeader, sw: bool)
    ensures
        binary_header_from_bytes(binary_header_bytes(bh, sw), sw).sw_trc_taper_length_start == bh.sw_trc_taper_length_start,
        binary_header_from_bytes(binary_header_bytes(bh, sw), sw).sw_trc_taper_length_end == bh.sw_trc_taper_length_end,
        binary_header_from_bytes(binary_header_bytes(bh, sw), sw).taper_type == bh.taper_type,
        binary_header_from_bytes(binary_header_bytes(bh, sw), sw).corr_data_trc == bh.corr_data_trc,
        binary_header_from_bytes(binary_header_bytes(bh, sw), sw).bin_gain_recov == bh.bin_gain_recov,
        binary_header_from_bytes(binary_header_bytes(bh, sw), sw).amp_recov_meth == bh.amp_recov_meth,
{
    broadcast use lemma_uint_bytes_len;

    lemma_pow256_values();
    let b = binary_header_bytes(bh, sw);
    let g = header_bytes_taper(bh, sw);
    assert(b.subrange(42, 54) =~= g);
    assert(b.subrange(42, 44) =~= int_bytes(bh.sw_trc_taper_length_start as int, 2, sw)) by {
        assert(b.subrange(42, 44) =~= g.subrange(0, 2));
    }
    lemma_int_bytes_roundtrip(bh.sw_trc_taper_length_start as int, 2, sw);
    assert(b.subrange(44, 46) =~= int_bytes(bh.sw_trc_taper_length_end as int, 2, sw)) by {
        assert(b.subrange(44, 46) =~= g.subrange(2, 4));
    }
    lemma_int_bytes_roundtrip(bh.sw_trc_taper_length_end as int, 2, sw);
    assert(b.subrange(46, 48) =~= int_bytes(bh.taper_type as int, 2, sw)) by {
        assert(b.subrange(46, 48) =~= g.subrange(4, 6));
    }
    lemma_int_bytes_roundtrip(bh.taper_type as int, 2, sw);
    assert(b.subrange(48, 50) =~= int_bytes(bh.corr_data_trc as int, 2, sw)) by {
        assert(b.subrange(48, 50) =~= g.subrange(6, 8));
    }
    lemma_int_bytes_roundtrip(bh.corr_data_trc as int, 2, sw);
    assert(b.subrange(50, 52) =~= int_bytes(bh.bin_gain_recov as int, 2, sw)) by {
        assert(b.subrange(50, 52) =~= g.subrange(8, 10));
    }
    lemma_int_bytes_roundtrip(bh.bin_gain_recov as int, 2, sw);
    assert(b.subrange(52, 54) =~= int_bytes(bh.amp_recov_meth as int, 2, sw)) by {
        assert(b.subrange(52, 54) =~= g.subrange(10, 12));
    }
    lemma_int_bytes_roundtrip(bh.amp_recov_meth as int, 2, sw);
}

/// The values of bytes 54 to 72 that `binary_header_bytes` stores read back.
proof fn lemma_read_back_recovery(bh: BinaryHeader, sw: bool)
    ensures
        binary_header_from_bytes(binary_header_bytes(bh, sw), sw).measure_sys == bh.measure_sys,
        binary_header_from_bytes(binary_header_bytes(bh, sw), sw).impulse_sig_pol == bh.impulse_sig_pol,
        binary_header_from_bytes(binary_header_bytes(bh, sw), sw).vib_pol_code == bh.vib_pol_code,
        binary_header_from_bytes(binary_header_bytes(bh, sw), sw).ext_trc_num == bh.ext_trc_num,
        binary_header_from_bytes(binary_header_bytes(bh, sw), sw).ext_aux_trc_num == bh.ext_aux_trc_num,
        binary_header_from_bytes(binary_header_bytes(bh, sw), sw).ext_samp_num == bh.ext_samp_num,
{
    broadcast use lemma_uint_bytes_len;

    lemma_pow256_values();
    let b = binary_header_bytes(bh, sw);
    let g = header_bytes_recovery(bh, sw);
    assert(b.subrange(54, 72) =~= g);
    assert(b.subrange(54, 56) =~= int_bytes(bh.measure_sys as int, 2, sw)) by {
        assert(b.subrange(54, 56) =~= g.subrange(0, 2));
    }
    lemma_int_bytes_roundtrip(bh.measure_sys as int, 2, sw);
    assert(b.subrange(56, 58) =~= int_bytes(bh.impulse_sig_pol as int, 2, sw)) by {
        assert(b.subrange(56, 58) =~= g.subrange(2, 4));
    }
    lemma_int_bytes_roundtrip(bh.impulse_sig_pol as int, 2, sw);
    assert(b.subrange(58, 60) =~= int_bytes(bh.vib_pol_code as int, 2, sw)) by {
        assert(b.subrange(58, 60) =~= g.subrange(4, 6));
    }
    lemma_int_bytes_roundtrip(bh.vib_pol_code as int, 2, sw);
    assert(b.subrange(60, 64) =~= int_bytes(bh.ext_trc_num as int, 4, sw)) by {
        assert(b.subrange(60, 64) =~= g.subrange(6, 10));
    }
    lemma_int_bytes_roundtrip(bh.ext_trc_num as int, 4, sw);
    assert(b.subrange(64, 68) =~= int_bytes(bh.ext_aux_trc_num as int, 4, sw)) by {
        assert(b.subrange(64, 68) =~= g.subrange(10, 14));
    }
    lemma_int_bytes_roundtrip(bh.ext_aux_trc_num as int, 4, sw);
    assert(b.subrange(68, 72) =~= int_bytes(bh.ext_samp_num as int, 4, sw)) by {
        assert(b.subrange(68, 72) =~= g.subrange(14, 18));
    }
    lemma_int_bytes_roundtrip(bh.ext_samp_num as int, 4, sw);
}

/// The values of bytes 72 to 100 that `binary_header_bytes` stores read back.
proof fn lemma_read_back_extended(bh: BinaryHeader, sw: bool)
    ensures
        binary_header_from_bytes(binary_header_bytes(bh, sw), sw).ext_samp_int_bits == bh.ext_samp_int_bits,
        binary_header_from_bytes(binary_header_bytes(bh, sw), sw).ext_samp_int_orig_bits == bh.ext_samp_int_orig_bits,
        binary_header_from_bytes(binary_header_bytes(bh, sw), sw).ext_samp_num_orig == bh.ext_samp_num_orig,
        binary_header_from_bytes(binary_header_bytes(bh, sw), sw).ext_ensemble_fold == bh.ext_ensemble_fold,
        binary_header_from_bytes(binary_header_bytes(bh, sw), sw).endianness == bh.endianness,
{
    broadcast use lemma_uint_bytes_len;

    lemma_pow256_values();
    let b = binary_header_bytes(bh, sw);
    let g = header_bytes_extended(bh, sw);
    assert(b.subrange(72, 100) =~= g);
    assert(b.subrange(72, 80) =~= uint_bytes(bh.ext_samp_int_bits as nat, 8, sw)) by {
        assert(b.subrange(72, 80) =~= g.subrange(0, 8));
    }
    lemma_uint_bytes_roundtrip(bh.ext_samp_int_bits as nat, 8, sw);
    assert(b.subrange(80, 88) =~= uint_bytes(bh.ext_samp_int_orig_bits as nat, 8, sw)) by {
        assert(b.subrange(80, 88) =~= g.subrange(8, 16));
    }
    lemma_uint_bytes_roundtrip(bh.ext_samp_int_orig_bits as nat, 8, sw);
    assert(b.subrange(88, 92) =~= int_bytes(bh.ext_samp_num_orig as int, 4, sw)) by {
        assert(b.subrange(88, 92) =~= g.subrange(16, 20));
    }
    lemma_int_bytes_roundtrip(bh.ext_samp_num_orig as int, 4, sw);
    assert(b.subrange(92, 96) =~= int_bytes(bh.ext_ensemble_fold as int, 4, sw)) by {
        assert(b.subrange(92, 96) =~= g.subrange(20, 24));
    }
    lemma_int_bytes_roundtrip(bh.ext_ensemble_fold as int, 4, sw);
    assert(b.subrange(96, 100) =~= int_bytes(bh.endianness as int, 4, sw)) by {
        assert(b.subrange(96, 100) =~= g.subrange(24, 28));
    }
    lemma_int_bytes_roundtrip(bh.endianness as int, 4, sw);
}

/// The values of bytes 300 to 310 that `binary_header_bytes` stores read back.
proof fn lemma_read_back_revision(bh: BinaryHeader, sw: bool)
    ensures
        binary_header_from_bytes(binary_header_bytes(bh, sw), sw).segy_maj_ver == bh.segy_maj_ver,
        binary_header_from_bytes(binary_header_bytes(bh, sw), sw).segy_min_ver == bh.segy_min_ver,
        binary_header_from_bytes(binary_header_bytes(bh, sw), sw).fix_length_trc_flag == bh.fix_length_trc_flag,
        binary_header_from_bytes(binary_header_bytes(bh, sw), sw).ext_text_hdrs_num == bh.ext_text_hdrs_num,
        binary_header_from_bytes(binary_header_bytes(bh, sw), sw).max_add_trc_hdrs == bh.max_add_trc_hdrs,
{
    broadcast use lemma_uint_bytes_len;

    lemma_pow256_values();
    let b = binary_header_bytes(bh, sw);
    let g = header_bytes_revision(bh, sw);
    assert(b.subrange(300, 310) =~= g);
    assert(b.subrange(300, 301) =~= uint_bytes(bh.segy_maj_ver as nat, 1, false)) by {
        assert(b.subrange(300, 301) =~= g.subrange(0, 1));
    }
    lemma_uint_bytes_roundtrip(bh.segy_maj_ver as nat, 1, false);
    assert(b.subrange(301, 302) =~= uint_bytes(bh.segy_min_ver as nat, 1, false)) by {
        assert(b.subrange(301, 302) =~= g.subrange(1, 2));
    }
    lemma_uint_bytes_roundtrip(bh.segy_min_ver as nat, 1, false);
    assert(b.subrange(302, 304) =~= int_bytes(bh.fix_length_trc_flag as int, 2, sw)) by {
        assert(b.subrange(302, 304) =~= g.subrange(2, 4));
    }
    lemma_int_bytes_roundtrip(bh.fix_length_trc_flag as int, 2, sw);
    assert(b.subrange(304, 306) =~= int_bytes(bh.ext_text_hdrs_num as int, 2, sw)) by {
        assert(b.subrange(304, 306) =~= g.subrange(4, 6));
    }
    lemma_int_bytes_roundtrip(bh.ext_text_hdrs_num as int, 2, sw);
    assert(b.subrange(306, 310) =~= int_bytes(bh.max_add_trc_hdrs as int, 4, sw)) by {
        assert(b.subrange(306, 310) =~= g.subrange(6, 10));
    }
    lemma_int_bytes_roundtrip(bh.max_add_trc_hdrs as int, 4, sw);
}

/// The values of bytes 310 to 332 that `binary_header_bytes` stores read back.
proof fn lemma_read_back_layout(bh: BinaryHeader, sw: bool)
    ensures
        binary_header_from_bytes(binary_header_bytes(bh, sw), sw).time_basis_code == bh.time_basis_code,
        binary_header_from_bytes(binary_header_bytes(bh, sw), sw).num_of_trcs_in_file == bh.num_of_trcs_in_file,
        binary_header_from_bytes(binary_header_bytes(bh, sw), sw).byte_off_of_first_trc == bh.byte_off_of_first_trc,
        binary_header_from_bytes(binary_header_bytes(bh, sw), sw).trailer_stanza_num == bh.trailer_stanza_num,
{
    broadcast use lemma_uint_bytes_len;

    lemma_pow256_values();
    let b = binary_header_bytes(bh, sw);
    let g = header_bytes_layout(bh, sw);
    assert(b.subrange(310, 332) =~= g);
    assert(b.subrange(310, 312) =~= int_bytes(bh.time_basis_code as int, 2, sw)) by {
        assert(b.subrange(310, 312) =~= g.subrange(0, 2));
    }
    lemma_int_bytes_roundtrip(bh.time_basis_code as int, 2, sw);
    assert(b.subrange(312, 320) =~= uint_bytes(bh.num_of_trcs_in_file as nat, 8, sw)) by {
        assert(b.subrange(312, 320) =~= g.subrange(2, 10));
    }
    lemma_uint_bytes_roundtrip(bh.num_of_trcs_in_file as nat, 8, sw);
    assert(b.subrange(320, 328) =~= uint_bytes(bh.byte_off_of_first_trc as nat, 8, sw)) by {
        assert(b.subrange(320, 328) =~= g.subrange(10, 18));
    }
    lemma_uint_bytes_roundtrip(bh.byte_off_of_first_trc as nat, 8, sw);
    assert(b.subrange(328, 332) =~= int_bytes(bh.trailer_stanza_num as int, 4, sw)) by {
        assert(b.subrange(328, 332) =~= g.subrange(18, 22));
    }
    lemma_int_bytes_roundtrip(bh.trailer_stanza_num as int, 4, sw);
}

/// The endianness constant that `binary_header_bytes` stores reads back, least
/// significant byte first, as `0` or `0x01020304`.
proof fn lemma_endianness_reads_back(bh: BinaryHeader)
    requires
        bh.endianness == 0 || bh.endianness == 0x01020304,
    ensures
        endianness_of(binary_header_bytes(bh, bh.endianness == 0)) == bh.endianness as u32,
{
    broadcast use lemma_uint_bytes_len;

    lemma_pow256_values();
    let sw = bh.endianness == 0;
    let b = binary_header_bytes(bh, sw);
    let g = header_bytes_extended(bh, sw);
    assert(b.subrange(96, 100) =~= int_bytes(bh.endianness as int, 4, sw)) by {
        assert(b.subrange(96, 100) =~= g.subrange(24, 28));
    }
    if sw {
        reveal_with_fuel(be_bytes, 5);
        reveal_with_fuel(crate::bytes::le_nat, 5);
        assert(int_bytes(0, 4, true) =~= seq![0u8, 0u8, 0u8, 0u8]);
    } else {
        lemma_uint_bytes_roundtrip(to_unsigned(bh.endianness as int, 4), 4, false);
    }
}

/// Bytes 0 to 18 of a binary header, decoded and stored back, are unchanged.
proof fn lemma_stored_back_ids(b: Seq<u8>, sw: bool)
    requires
        b.len() == BIN_HEADER_SIZE,
    ensures
        header_bytes_ids(binary_header_from_bytes(b, sw), sw) == b.subrange(0, 18),
{
    lemma_pow256_values();
    lemma_bytes_read_store(b.subrange(0, 4), 4, sw);
    lemma_bytes_read_store(b.subrange(4, 8), 4, sw);
    lemma_bytes_read_store(b.subrange(8, 12), 4, sw);
    lemma_bytes_read_store(b.subrange(12, 14), 2, sw);
    lemma_bytes_read_store(b.subrange(14, 16), 2, sw);
    lemma_bytes_read_store(b.subrange(16, 18), 2, sw);
    assert(header_bytes_ids(binary_header_from_bytes(b, sw), sw) =~= b.subrange(0, 18));
}

/// Bytes 18 to 30 of a binary header, decoded and stored back, are unchanged.
proof fn lemma_stored_back_counts(b: Seq<u8>, sw: bool)
    requires
        b.len() == BIN_HEADER_SIZE,
    ensures
        header_bytes_counts(binary_header_from_bytes(b, sw), sw) == b.subrange(18, 30),
{
    lemma_pow256_values();
    lemma_bytes_read_store(b.subrange(18, 20), 2, sw);
    lemma_bytes_read_store(b.subrange(20, 22), 2, sw);
    lemma_bytes_read_store(b.subrange(22, 24), 2, sw);
    lemma_bytes_read_store(b.subrange(24, 26), 2, sw);
    lemma_bytes_read_store(b.subrange(26, 28), 2, sw);
    lemma_bytes_read_store(b.subrange(28, 30), 2, sw);
    assert(header_bytes_counts(binary_header_from_bytes(b, sw), sw) =~= b.subrange(18, 30));
}

/// Bytes 30 to 42 of a binary header, decoded and stored back, are unchanged.
proof fn lemma_stored_back_sweep(b: Seq<u8>, sw: bool)
    requires
        b.len() == BIN_HEADER_SIZE,
    ensures
        header_bytes_sweep(binary_header_from_bytes(b, sw), sw) == b.subrange(30, 42),
{
    lemma_pow256_values();
    lemma_bytes_read_store(b.subrange(30, 32), 2, sw);
    lemma_bytes_read_store(b.subrange(32, 34), 2, sw);
    lemma_bytes_read_store(b.subrange(34, 36), 2, sw);
    lemma_bytes_read_store(b.subrange(36, 38), 2, sw);
    lemma_bytes_read_store(b.subrange(38, 40), 2, sw);
    lemma_bytes_read_store(b.subrange(40, 42), 2, sw);
    assert(header_bytes_sweep(binary_header_from_bytes(b, sw), sw) =~= b.subrange(30, 42));
}

/// Bytes 42 to 54 of a binary header, decoded and stored back, are unchanged.
proof fn lemma_stored_back_taper(b: Seq<u8>, sw: bool)
    requires
        b.len() == BIN_HEADER_SIZE,
    ensures
        header_bytes_taper(binary_header_from_bytes(b, sw), sw) == b.subrange(42, 54),
{
    lemma_pow256_values();
    lemma_bytes_read_store(b.subrange(42, 44), 2, sw);
    lemma_bytes_read_store(b.subrange(44, 46), 2, sw);
    lemma_bytes_read_store(b.subrange(46, 48), 2, sw);
    lemma_bytes_read_store(b.subrange(48, 50), 2, sw);
    lemma_bytes_read_store(b.subrange(50, 52), 2, sw);
    lemma_bytes_read_store(b.subrange(52, 54), 2, sw);
    assert(header_bytes_taper(binary_header_from_bytes(b, sw), sw) =~= b.subrange(42, 54));
}

/// Bytes 54 to 72 of a binary header, decoded and stored back, are unchanged.
proof fn lemma_stored_back_recovery(b: Seq<u8>, sw: bool)
    requires
        b.len() == BIN_HEADER_SIZE,
    ensures
        header_bytes_recovery(binary_header_from_bytes(b, sw), sw) == b.subrange(54, 72),
{
    lemma_pow256_values();
    lemma_bytes_read_store(b.subrange(54, 56), 2, sw);
    lemma_bytes_read_store(b.subrange(56, 58), 2, sw);
    lemma_bytes_read_store(b.subrange(58, 60), 2, sw);
    lemma_bytes_read_store(b.subrange(60, 64), 4, sw);
    lemma_bytes_read_store(b.subrange(64, 68), 4, sw);
    lemma_bytes_read_store(b.subrange(68, 72), 4, sw);
    assert(header_bytes_recovery(binary_header_from_bytes(b, sw), sw) =~= b.subrange(54, 72));
}

/// Bytes 72 to 100 of a binary header, decoded and stored back, are unchanged.
proof fn lemma_stored_back_extended(b: Seq<u8>, sw: bool)
    requires
        b.len() == BIN_HEADER_SIZE,
    ensures
        header_bytes_extended(binary_header_from_bytes(b, sw), sw) == b.subrange(72, 100),
{
    lemma_pow256_values();
    lemma_bytes_read_store(b.subrange(72, 80), 8, sw);
    lemma_bytes_read_store(b.subrange(80, 88), 8, sw);
    lemma_bytes_read_store(b.subrange(88, 92), 4, sw);
    lemma_bytes_read_store(b.subrange(92, 96), 4, sw);
    lemma_bytes_read_store(b.subrange(96, 100), 4, sw);
    assert(header_bytes_extended(binary_header_from_bytes(b, sw), sw) =~= b.subrange(72, 100));
}

/// Bytes 300 to 310 of a binary header, decoded and stored back, are unchanged.
proof fn lemma_stored_back_revision(b: Seq<u8>, sw: bool)
    requires
        b.len() == BIN_HEADER_SIZE,
    ensures
        header_bytes_revision(binary_header_from_bytes(b, sw), sw) == b.subrange(300, 310),
{
    lemma_pow256_values();
    lemma_bytes_read_store(b.subrange(300, 301), 1, false);
    lemma_bytes_read_store(b.subrange(301, 302), 1, false);
    lemma_bytes_read_store(b.subrange(302, 304), 2, sw);
    lemma_bytes_read_store(b.subrange(304, 306), 2, sw);
    lemma_bytes_read_store(b.subrange(306, 310), 4, sw);
    assert(header_bytes_revision(binary_header_from_bytes(b, sw), sw) =~= b.subrange(300, 310));
}

/// Bytes 310 to 332 of a binary header, decoded and stored back, are unchanged.
proof fn lemma_stored_back_layout(b: Seq<u8>, sw: bool)
    requires
        b.len() == BIN_HEADER_SIZE,
    ensures
        header_bytes_layout(binary_header_from_bytes(b, sw), sw) == b.subrange(310, 332),
{
    lemma_pow256_values();
    lemma_bytes_read_store(b.subrange(310, 312), 2, sw);
    lemma_bytes_read_store(b.subrange(312, 320), 8, sw);
    lemma_bytes_read_store(b.subrange(320, 328), 8, sw);
    lemma_bytes_read_store(b.subrange(328, 332), 4, sw);
    assert(header_bytes_layout(binary_header_from_bytes(b, sw), sw) =~= b.subrange(310, 332));
}

/// Law: the 400 bytes of a binary header whose endianness constant is `0` or
/// `0x01020304` and whose unassigned bytes are zero, `parse_binary_header`
/// decodes and `encode_binary_header` stores back unchanged.
pub proof fn law_binary_header_read_write(b: Seq<u8>)
    requires
        b.len() == BIN_HEADER_SIZE,
        endianness_of(b) == 0 || endianness_of(b) == 0x01020304,
        forall|i: int| 100 <= i < 300 || 332 <= i < 400 ==> b[i] == 0,
    ensures
        ({
            let sw = endianness_of(b) == 0;
            let bh = binary_header_from_bytes(b, sw);
            &&& swapped_for_spec(endianness_of(b)) == Some(sw)
            &&& swapped_for_spec(bh.endianness as u32) == Some(sw)
            &&& binary_header_bytes(bh, sw) == b
        }),
{
    lemma_pow256_values();
    let sw = endianness_of(b) == 0;
    let bh = binary_header_from_bytes(b, sw);
    lemma_stored_back_ids(b, sw);
    lemma_stored_back_counts(b, sw);
    lemma_stored_back_sweep(b, sw);
    lemma_stored_back_taper(b, sw);
    lemma_stored_back_recovery(b, sw);
    lemma_stored_back_extended(b, sw);
    lemma_stored_back_revision(b, sw);
    lemma_stored_back_layout(b, sw);
    lemma_endianness_decodes(b);
    assert(b.subrange(100, 300) =~= Seq::new(200, |i: int| 0u8));
    assert(b.subrange(332, 400) =~= Seq::new(68, |i: int| 0u8));
    assert(binary_header_bytes(bh, sw) =~= b);
}

/// The endianness constant `0` or `0x01020304` decodes, in the byte order it
/// gives, as itself.
proof fn lemma_endianness_decodes(b: Seq<u8>)
    requires
        b.len() == BIN_HEADER_SIZE,
        endianness_of(b) == 0 || endianness_of(b) == 0x01020304,
    ensures
        binary_header_from_bytes(b, endianness_of(b) == 0).endianness as u32 == endianness_of(b),
{
    lemma_pow256_values();
    let s = b.subrange(96, 100);
    lemma_nat_bound(s);
    if endianness_of(b) == 0 {
        reveal_with_fuel(crate::bytes::le_nat, 5);
        reveal_with_fuel(crate::bytes::be_nat, 5);
        assert(s =~= seq![s[0], s[1], s[2], s[3]]);
        assert(s.drop_first() =~= seq![s[1], s[2], s[3]]);
        assert(s.drop_first().drop_first() =~= seq![s[2], s[3]]);
        assert(s.drop_first().drop_first().drop_first() =~= seq![s[3]]);
        assert(s.drop_last() =~= seq![s[0], s[1], s[2]]);
        assert(s.drop_last().drop_last() =~= seq![s[0], s[1]]);
        assert(s.drop_last().drop_last().drop_last() =~= seq![s[0]]);
    }
}

/// Law: the binary header that `encode_binary_header` stores,
/// `parse_binary_header` reads back, for the endianness constants `0` and
/// `0x01020304`. (With `0x04030201` the values are stored most significant
/// byte first, but the constant then reads as `0x01020304`.)
pub proof fn law_binary_header_write_read(bh: BinaryHeader)
    requires
        bh.endianness == 0 || bh.endianness == 0x01020304,
    ensures
        ({
            let sw = bh.endianness == 0;
            let b = binary_header_bytes(bh, sw);
            &&& swapped_for_spec(bh.endianness as u32) == Some(sw)
            &&& b.len() == BIN_HEADER_SIZE
            &&& swapped_for_spec(endianness_of(b)) == Some(sw)
            &&& binary_header_from_bytes(b, sw) == bh
        }),
{
    broadcast use lemma_uint_bytes_len;

    lemma_pow256_values();
    let sw = bh.endianness == 0;
    let b = binary_header_bytes(bh, sw);
    lemma_read_back_ids(bh, sw);
    lemma_read_back_counts(bh, sw);
    lemma_read_back_sweep(bh, sw);
    lemma_read_back_taper(bh, sw);
    lemma_read_back_recovery(bh, sw);
    lemma_read_back_extended(bh, sw);
    lemma_read_back_revision(bh, sw);
    lemma_read_back_layout(bh, sw);
    lemma_endianness_reads_back(bh);
}

/// The value that `hdr_value_bytes` stores reads back as itself.
pub proof fn lemma_hdr_value_roundtrip(v: HdrValue, swapped: bool)
    ensures
        hdr_value_from_bytes(hdr_value_bytes(v, swapped), hdr_value_format(v), swapped) == v,
{
    lemma_pow256_values();
    match v {
        HdrValue::I8(x) => lemma_int_bytes_roundtrip(x as int, 1, false),
        HdrValue::I16(x) => lemma_int_bytes_roundtrip(x as int, 2, swapped),
        HdrValue::I32(x) => lemma_int_bytes_roundtrip(x as int, 4, swapped),
        HdrValue::I64(x) => lemma_int_bytes_roundtrip(x as int, 8, swapped),
        HdrValue::U8(x) => lemma_uint_bytes_roundtrip(x as nat, 1, false),
        HdrValue::U16(x) => lemma_uint_bytes_roundtrip(x as nat, 2, swapped),
        HdrValue::U32(x) => lemma_uint_bytes_roundtrip(x as nat, 4, swapped),
        HdrValue::U64(x) => lemma_uint_bytes_roundtrip(x as nat, 8, swapped),
        HdrValue::F32(x) => lemma_uint_bytes_roundtrip(x as nat, 4, swapped),
        HdrValue::F64(x) => lemma_uint_bytes_roundtrip(x as nat, 8, swapped),
    }
}

/// Storing trace header values keeps the length of the headers.
pub proof fn lemma_headers_written_len(
    buf: Seq<u8>,
    names: Seq<i32>,
    vals: Seq<HdrValue>,
    swapped: bool,
)
    requires
        header_values_fit(names, vals, buf.len() as int),
    ensures
        headers_written(buf, names, vals, swapped).len() == buf.len(),
    decreases names.len(),
{
    if names.len() > 0 {
        let k = names.len() - 1;
        let prefix = names.drop_last();
        assert(header_values_fit(prefix, vals, buf.len() as int)) by {
            assert forall|i: int| 0 <= i < prefix.len() implies trace_header_field(#[trigger] prefix[i]) is Some by {
                assert(prefix[i] == names[i]);
            }
        }
        lemma_headers_written_len(buf, prefix, vals, swapped);
        assert(trace_header_field(names[k]) is Some);
        lemma_hdr_value_bytes_len(vals[k], swapped);
        lemma_place(
            headers_written(buf, prefix, vals, swapped),
            field_offset(names[k]),
            hdr_value_bytes(vals[k], swapped),
            0,
            0,
        );
    }
}

/// Law: every trace header value that `write_header_values` stores under a
/// name, `read_header_values` reads back under that name, when the names are
/// distinct (each value lies in bytes of its own, so later values leave
/// earlier ones in place).
pub proof fn law_header_values_write_read(
    buf: Seq<u8>,
    names: Seq<i32>,
    vals: Seq<HdrValue>,
    swapped: bool,
)
    requires
        header_values_fit(names, vals, buf.len() as int),
        forall|i: int, j: int| 0 <= i < j < names.len() ==> names[i] != names[j],
    ensures
        forall|i: int|
            0 <= i < names.len() ==> header_value_at(
                headers_written(buf, names, vals, swapped),
                #[trigger] names[i],
                swapped,
            ) == vals[i],
    decreases names.len(),
{
    if names.len() > 0 {
        let k = names.len() - 1;
        let prefix = names.drop_last();
        let w = headers_written(buf, prefix, vals, swapped);
        assert(header_values_fit(prefix, vals, buf.len() as int)) by {
            assert forall|i: int| 0 <= i < prefix.len() implies trace_header_field(#[trigger] prefix[i]) is Some by {
                assert(prefix[i] == names[i]);
            }
        }
        law_header_values_write_read(buf, prefix, vals, swapped);
        lemma_headers_written_len(buf, prefix, vals, swapped);
        let name = names[k];
        assert(trace_header_field(name) is Some);
        let off = field_offset(name);
        let p = hdr_value_bytes(vals[k], swapped);
        lemma_hdr_value_bytes_len(vals[k], swapped);
        assert forall|i: int| 0 <= i < names.len() implies header_value_at(
            headers_written(buf, names, vals, swapped),
            #[trigger] names[i],
            swapped,
        ) == vals[i] by {
            assert(trace_header_field(names[i]) is Some);
            let oi = field_offset(names[i]);
            let ei = oi + format_size(field_format(names[i]));
            assert(field_fits(names[i], buf.len() as int));
            lemma_place(w, off, p, oi, ei);
            if i == k {
                lemma_hdr_value_roundtrip(vals[k], swapped);
            } else {
                assert(prefix[i] == names[i]);
                if names[i] < name {
                    lemma_table_sorted(names[i], name);
                } else {
                    lemma_table_sorted(name, names[i]);
                }
            }
        }
    }
}

/// Whether the sample `v` reads back as itself once stored: 24-bit samples are
/// stored by their three low bytes and read without sign extension, so only
/// values in `0..2^24` do.
pub open spec fn sample_value_storable(v: SampleValue) -> bool {
    match v {
        SampleValue::I24(x) => 0 <= x < 0x100_0000,
        SampleValue::U24(x) => x < 0x100_0000,
        _ => true,
    }
}

/// A storable sample that `sample_bytes` stores reads back as itself.
pub proof fn lemma_sample_roundtrip(v: SampleValue, swapped: bool)
    requires
        sample_value_storable(v),
    ensures
        sample_from_bytes(sample_bytes(v, swapped), sample_value_format(v), swapped) == v,
{
    lemma_pow256_values();
    match v {
        SampleValue::Ibm(x) => lemma_uint_bytes_roundtrip(x as nat, 4, swapped),
        SampleValue::I32(x) => lemma_int_bytes_roundtrip(x as int, 4, swapped),
        SampleValue::I16(x) => lemma_int_bytes_roundtrip(x as int, 2, swapped),
        SampleValue::F32(x) => lemma_uint_bytes_roundtrip(x as nat, 4, swapped),
        SampleValue::F64(x) => lemma_uint_bytes_roundtrip(x as nat, 8, swapped),
        SampleValue::I24(x) => lemma_uint_bytes_roundtrip(x as nat, 3, swapped),
        SampleValue::I8(x) => lemma_int_bytes_roundtrip(x as int, 1, false),
        SampleValue::I64(x) => lemma_int_bytes_roundtrip(x as int, 8, swapped),
        SampleValue::U32(x) => lemma_uint_bytes_roundtrip(x as nat, 4, swapped),
        SampleValue::U16(x) => lemma_uint_bytes_roundtrip(x as nat, 2, swapped),
        SampleValue::U64(x) => lemma_uint_bytes_roundtrip(x as nat, 8, swapped),
        SampleValue::U24(x) => lemma_uint_bytes_roundtrip(x as nat, 3, swapped),
        SampleValue::U8(x) => lemma_uint_bytes_roundtrip(x as nat, 1, false),
    }
}

/// Law: the samples that `encode_samples` stores, `decode_samples` reads back,
/// when they are storable (24-bit samples in `0..2^24`).
pub proof fn law_samples_write_read(
    buf: Seq<u8>,
    samples: Seq<SampleValue>,
    f: SampleFormat,
    swapped: bool,
)
    requires
        samples.len() * bytes_per_sample(f) <= buf.len(),
        forall|i: int|
            0 <= i < samples.len() ==> sample_value_format(#[trigger] samples[i]) == f
                && sample_value_storable(samples[i]),
    ensures
        samples_written(buf, samples, f, swapped).len() == buf.len(),
        forall|i: int|
            0 <= i < samples.len() ==> sample_from_bytes(
                sample_bytes_at(samples_written(buf, samples, f, swapped), i, f),
                f,
                swapped,
            ) == #[trigger] samples[i],
    decreases samples.len(),
{
    if samples.len() > 0 {
        let k = samples.len() - 1;
        let prefix = samples.drop_last();
        let bps = bytes_per_sample(f);
        assert(prefix.len() * bps <= buf.len()) by (nonlinear_arith)
            requires
                prefix.len() + 1 == samples.len(),
                samples.len() * bps <= buf.len(),
        ;
        assert forall|i: int| 0 <= i < prefix.len() implies sample_value_format(
            #[trigger] prefix[i],
        ) == f && sample_value_storable(prefix[i]) by {
            assert(prefix[i] == samples[i]);
        }
        law_samples_write_read(buf, prefix, f, swapped);
        let w = samples_written(buf, prefix, f, swapped);
        let p = sample_bytes(samples[k], swapped);
        assert(sample_value_format(samples[k]) == f);
        lemma_sample_bytes_len(samples[k], swapped);
        assert(k * bps + bps <= buf.len()) by (nonlinear_arith)
            requires
                k + 1 == samples.len(),
                samples.len() * bps <= buf.len(),
        ;
        lemma_place(w, k * bps, p, 0, 0);
        assert forall|i: int| 0 <= i < samples.len() implies sample_from_bytes(
            sample_bytes_at(samples_written(buf, samples, f, swapped), i, f),
            f,
            swapped,
        ) == #[trigger] samples[i] by {
            assert((i + 1) * bps == i * bps + bps) by (nonlinear_arith);
            assert(i * bps >= 0) by (nonlinear_arith)
                requires
                    i >= 0,
                    bps > 0,
            ;
            if i == k {
                lemma_place(w, k * bps, p, i * bps, (i + 1) * bps);
                lemma_sample_roundtrip(samples[k], swapped);
            } else {
                assert((i + 1) * bps <= k * bps) by (nonlinear_arith)
                    requires
                        i + 1 <= k,
                        bps > 0,
                ;
                lemma_place(w, k * bps, p, i * bps, (i + 1) * bps);
                assert(prefix[i] == samples[i]);
            }
        }
    }
}

/// The bytes of a trace header value, decoded and stored again, are unchanged.
pub proof fn lemma_hdr_value_bytes_back(b: Seq<u8>, fmt: TrcHdrFmt, swapped: bool)
    requires
        b.len() == format_size(fmt),
    ensures
        hdr_value_bytes(hdr_value_from_bytes(b, fmt, swapped), swapped) == b,
{
    lemma_pow256_values();
    match fmt {
        TrcHdrFmt::I8 | TrcHdrFmt::U8 => lemma_bytes_read_store(b, 1, false),
        TrcHdrFmt::I16 | TrcHdrFmt::U16 => lemma_bytes_read_store(b, 2, swapped),
        TrcHdrFmt::I32 | TrcHdrFmt::U32 | TrcHdrFmt::F32 => lemma_bytes_read_store(b, 4, swapped),
        TrcHdrFmt::I64 | TrcHdrFmt::U64 | TrcHdrFmt::F64 => lemma_bytes_read_store(b, 8, swapped),
    }
}

/// Law: storing back, under the same names, the trace header values read from
/// trace headers leaves the headers unchanged, when every named value lies
/// within them.
pub proof fn law_header_values_read_write(
    buf: Seq<u8>,
    names: Seq<i32>,
    vals: Seq<HdrValue>,
    swapped: bool,
)
    requires
        vals.len() == names.len(),
        forall|i: int|
            0 <= i < names.len() ==> trace_header_field(#[trigger] names[i]) is Some && field_fits(
                names[i],
                buf.len() as int,
            ) && vals[i] == header_value_at(buf, names[i], swapped),
    ensures
        headers_written(buf, names, vals, swapped) == buf,
    decreases names.len(),
{
    if names.len() > 0 {
        let k = names.len() - 1;
        let prefix = names.drop_last();
        let vals_prefix = vals.drop_last();
        assert forall|i: int| 0 <= i < prefix.len() implies trace_header_field(#[trigger] prefix[i])
            is Some && field_fits(prefix[i], buf.len() as int) && vals_prefix[i] == header_value_at(
            buf,
            prefix[i],
            swapped,
        ) by {
            assert(prefix[i] == names[i]);
        }
        law_header_values_read_write(buf, prefix, vals_prefix, swapped);
        lemma_headers_written_prefix(buf, names, vals, swapped);
        let name = names[k];
        assert(trace_header_field(name) is Some && field_fits(name, buf.len() as int));
        let off = field_offset(name);
        let e = off + format_size(field_format(name));
        lemma_hdr_value_bytes_back(buf.subrange(off, e), field_format(name), swapped);
        lemma_place_same(buf, off, e);
    }
}

/// Storing values under the first names of a list depends on the values given
/// for those names alone.
proof fn lemma_headers_written_prefix(
    buf: Seq<u8>,
    names: Seq<i32>,
    vals: Seq<HdrValue>,
    swapped: bool,
)
    requires
        names.len() > 0,
        vals.len() == names.len(),
    ensures
        headers_written(buf, names.drop_last(), vals, swapped) == headers_written(
            buf,
            names.drop_last(),
            vals.drop_last(),
            swapped,
        ),
{
    lemma_headers_written_vals(buf, names.drop_last(), vals, vals.drop_last(), swapped);
}

/// Storing values under names depends on the values given for those names alone.
proof fn lemma_headers_written_vals(
    buf: Seq<u8>,
    names: Seq<i32>,
    vals1: Seq<HdrValue>,
    vals2: Seq<HdrValue>,
    swapped: bool,
)
    requires
        names.len() <= vals1.len(),
        names.len() <= vals2.len(),
        forall|i: int| 0 <= i < names.len() ==> vals1[i] == vals2[i],
    ensures
        headers_written(buf, names, vals1, swapped) == headers_written(buf, names, vals2, swapped),
    decreases names.len(),
{
    if names.len() > 0 {
        lemma_headers_written_vals(buf, names.drop_last(), vals1, vals2, swapped);
    }
}

/// The bytes of a sample, decoded and stored again, are unchanged.
pub proof fn lemma_sample_bytes_back(b: Seq<u8>, f: SampleFormat, swapped: bool)
    requires
        b.len() == bytes_per_sample(f),
    ensures
        sample_bytes(sample_from_bytes(b, f, swapped), swapped) == b,
{
    lemma_pow256_values();
    match f {
        SampleFormat::I8 | SampleFormat::U8 => lemma_bytes_read_store(b, 1, false),
        SampleFormat::I16 | SampleFormat::U16 => lemma_bytes_read_store(b, 2, swapped),
        SampleFormat::I24 | SampleFormat::U24 => {
            lemma_bytes_read_store(b, 3, swapped);
        },
        SampleFormat::Ibm | SampleFormat::I32 | SampleFormat::F32 | SampleFormat::U32 => {
            lemma_bytes_read_store(b, 4, swapped)
        },
        SampleFormat::F64 | SampleFormat::I64 | SampleFormat::U64 => {
            lemma_bytes_read_store(b, 8, swapped)
        },
    }
}

/// The first `n` samples of format `f` that the sample bytes `buf` hold.
pub open spec fn samples_of(buf: Seq<u8>, n: nat, f: SampleFormat, swapped: bool) -> Seq<
    SampleValue,
> {
    Seq::new(n, |i: int| sample_from_bytes(sample_bytes_at(buf, i, f), f, swapped))
}

/// Law: storing back the samples read from the sample bytes of a trace leaves
/// the bytes unchanged.
pub proof fn law_samples_read_write(buf: Seq<u8>, n: nat, f: SampleFormat, swapped: bool)
    requires
        n * bytes_per_sample(f) <= buf.len(),
    ensures
        samples_written(buf, samples_of(buf, n, f, swapped), f, swapped) == buf,
    decreases n,
{
    if n > 0 {
        let k = (n - 1) as nat;
        let bps = bytes_per_sample(f);
        assert(k * bps + bps <= buf.len()) by (nonlinear_arith)
            requires
                k + 1 == n,
                n * bps <= buf.len(),
        ;
        assert(k * bps >= 0) by (nonlinear_arith)
            requires
                bps > 0,
        ;
        assert((k + 1) * bps == k * bps + bps) by (nonlinear_arith);
        law_samples_read_write(buf, k, f, swapped);
        let s = samples_of(buf, n, f, swapped);
        assert(s.drop_last() =~= samples_of(buf, k, f, swapped));
        lemma_sample_bytes_back(sample_bytes_at(buf, k as int, f), f, swapped);
        lemma_place_same(buf, k * bps, k * bps + bps);
    }
}

} // verus!
