//! What the reader and the writer share: the sizes of the file parts, the
//! binary file header, and the table of standard trace header values.
use crate::error::Error;
use crate::trc_hdr_names::EXT_CDP_Y;
use std::collections::HashMap;
use vstd::prelude::*;

verus! {

/// Size in bytes of the textual file header, and of each extended textual
/// header and trailer stanza.
pub const TEXT_HEADER_SIZE: usize = 3200;

/// Size in bytes of the binary file header.
pub const BIN_HEADER_SIZE: usize = 400;

/// Size in bytes of one trace header.
pub const TRACE_HEADER_SIZE: usize = 240;

/// The textual header of SEG-Y revision 1 with no values filled in.
pub const DEFAULT_TEXT_HEADER: &'static str = "\
C 1 CLIENT                        COMPANY                       CREW NO         \
C 2 LINE            AREA                        MAP ID                          \
C 3 REEL NO           DAY-START OF REEL     YEAR      OBSERVER                  \
C 4 INSTRUMENT: MFG            MODEL            SERIAL NO                       \
C 5 DATA TRACES/RECORD        AUXILIARY TRACES/RECORD         CDP FOLD          \
C 6 SAMPLE INTERNAL         SAMPLES/TRACE       BITS/IN      BYTES/SAMPLE       \
C 7 RECORDING FORMAT        FORMAT THIS REEL        MEASUREMENT SYSTEM          \
C 8 SAMPLE CODE: FLOATING PT     FIXED PT     FIXED PT-GAIN     CORRELATED      \
C 9 GAIN  TYPE: FIXED     BINARY     FLOATING POINT     OTHER                   \
C10 FILTERS: ALIAS     HZ  NOTCH     HZ  BAND    -     HZ  SLOPE    -    DB/OCT \
C11 SOURCE: TYPE            NUMBER/POINT        POINT INTERVAL                  \
C12     PATTERN:                           LENGTH        WIDTH                  \
C13 SWEEP: START     HZ  END     HZ  LENGTH      MS  CHANNEL NO     TYPE        \
C14 TAPER: START LENGTH       MS  END LENGTH       MS  TYPE                     \
C15 SPREAD: OFFSET        MAX DISTANCE        GROUP INTERVAL                    \
C16 GEOPHONES: PER GROUP     SPACING     FREQUENCY     MFG          MODEL       \
C17     PATTERN:                           LENGTH        WIDTH                  \
C18 TRACES SORTED BY: RECORD     CDP     OTHER                                  \
C19 AMPLITUDE RECOVEY: NONE      SPHERICAL DIV       AGC    OTHER               \
C20 MAP PROJECTION                      ZONE ID       COORDINATE UNITS          \
C21 PROCESSING:                                                                 \
C22 PROCESSING:                                                                 \
C23                                                                             \
C24                                                                             \
C25                                                                             \
C26                                                                             \
C27                                                                             \
C28                                                                             \
C29                                                                             \
C30                                                                             \
C31                                                                             \
C32                                                                             \
C33                                                                             \
C34                                                                             \
C35                                                                             \
C36                                                                             \
C37                                                                             \
C38                                                                             \
C39 SEG Y REV1                                                                  \
C40 END EBCDIC                                                                  ";

/// The binary file header. The two extended sample intervals, IEEE double
/// precision numbers in the file, are held as their 64-bit patterns.
#[derive(Clone, Copy, Debug, PartialEq, Eq, Structural)]
pub struct BinaryHeader {
    pub job_id: i32,
    pub line_num: i32,
    pub reel_num: i32,
    pub trc_num: i16,
    pub aux_trc_num: i16,
    pub samp_int: i16,
    pub samp_int_orig: i16,
    pub samp_num: i16,
    pub samp_num_orig: i16,
    pub format_code: i16,
    pub ensemble_fold: i16,
    pub trc_sort_code: i16,
    pub vert_sum_code: i16,
    pub sw_freq_at_start: i16,
    pub sw_freq_at_end: i16,
    pub sw_length: i16,
    pub sw_type_code: i16,
    pub trc_num_of_sw_ch: i16,
    pub sw_trc_taper_length_start: i16,
    pub sw_trc_taper_length_end: i16,
    pub taper_type: i16,
    pub corr_data_trc: i16,
    pub bin_gain_recov: i16,
    pub amp_recov_meth: i16,
    pub measure_sys: i16,
    pub impulse_sig_pol: i16,
    pub vib_pol_code: i16,
    pub ext_trc_num: i32,
    pub ext_aux_trc_num: i32,
    pub ext_samp_num: i32,
    pub ext_samp_int_bits: u64,
    pub ext_samp_int_orig_bits: u64,
    pub ext_samp_num_orig: i32,
    pub ext_ensemble_fold: i32,
    pub endianness: i32,
    pub segy_maj_ver: u8,
    pub segy_min_ver: u8,
    pub fix_length_trc_flag: i16,
    pub ext_text_hdrs_num: i16,
    pub max_add_trc_hdrs: i32,
    pub time_basis_code: i16,
    pub num_of_trcs_in_file: u64,
    pub byte_off_of_first_trc: u64,
    pub trailer_stanza_num: i32,
}

impl BinaryHeader {
    /// The header whose values are all zero.
    pub open spec fn zeroed() -> BinaryHeader {
        BinaryHeader {
            job_id: 0,
            line_num: 0,
            reel_num: 0,
            trc_num: 0,
            aux_trc_num: 0,
            samp_int: 0,
            samp_int_orig: 0,
            samp_num: 0,
            samp_num_orig: 0,
            format_code: 0,
            ensemble_fold: 0,
            trc_sort_code: 0,
            vert_sum_code: 0,
            sw_freq_at_start: 0,
            sw_freq_at_end: 0,
            sw_length: 0,
            sw_type_code: 0,
            trc_num_of_sw_ch: 0,
            sw_trc_taper_length_start: 0,
            sw_trc_taper_length_end: 0,
            taper_type: 0,
            corr_data_trc: 0,
            bin_gain_recov: 0,
            amp_recov_meth: 0,
            measure_sys: 0,
            impulse_sig_pol: 0,
            vib_pol_code: 0,
            ext_trc_num: 0,
            ext_aux_trc_num: 0,
            ext_samp_num: 0,
            ext_samp_int_bits: 0,
            ext_samp_int_orig_bits: 0,
            ext_samp_num_orig: 0,
            ext_ensemble_fold: 0,
            endianness: 0,
            segy_maj_ver: 0,
            segy_min_ver: 0,
            fix_length_trc_flag: 0,
            ext_text_hdrs_num: 0,
            max_add_trc_hdrs: 0,
            time_basis_code: 0,
            num_of_trcs_in_file: 0,
            byte_off_of_first_trc: 0,
            trailer_stanza_num: 0,
        }
    }

    /// A header whose values are all zero.
    pub fn new() -> (bh: Self)
        ensures
            bh == BinaryHeader::zeroed(),
    {
        BinaryHeader {
            job_id: 0,
            line_num: 0,
            reel_num: 0,
            trc_num: 0,
            aux_trc_num: 0,
            samp_int: 0,
            samp_int_orig: 0,
            samp_num: 0,
            samp_num_orig: 0,
            format_code: 0,
            ensemble_fold: 0,
            trc_sort_code: 0,
            vert_sum_code: 0,
            sw_freq_at_start: 0,
            sw_freq_at_end: 0,
            sw_length: 0,
            sw_type_code: 0,
            trc_num_of_sw_ch: 0,
            sw_trc_taper_length_start: 0,
            sw_trc_taper_length_end: 0,
            taper_type: 0,
            corr_data_trc: 0,
            bin_gain_recov: 0,
            amp_recov_meth: 0,
            measure_sys: 0,
            impulse_sig_pol: 0,
            vib_pol_code: 0,
            ext_trc_num: 0,
            ext_aux_trc_num: 0,
            ext_samp_num: 0,
            ext_samp_int_bits: 0,
            ext_samp_int_orig_bits: 0,
            ext_samp_num_orig: 0,
            ext_ensemble_fold: 0,
            endianness: 0,
            segy_maj_ver: 0,
            segy_min_ver: 0,
            fix_length_trc_flag: 0,
            ext_text_hdrs_num: 0,
            max_add_trc_hdrs: 0,
            time_basis_code: 0,
            num_of_trcs_in_file: 0,
            byte_off_of_first_trc: 0,
            trailer_stanza_num: 0,
        }
    }
}

/// The number formats of trace header values.
#[derive(Clone, Copy, Debug, PartialEq, Eq, Structural)]
pub enum TrcHdrFmt {
    I8,
    I16,
    I32,
    I64,
    U8,
    U16,
    U32,
    U64,
    F32,
    F64,
}

/// Size in bytes of a value of format `fmt`.
pub open spec fn format_size_spec(fmt: TrcHdrFmt) -> i32 {
    match fmt {
        TrcHdrFmt::I8 | TrcHdrFmt::U8 => 1,
        TrcHdrFmt::I16 | TrcHdrFmt::U16 => 2,
        TrcHdrFmt::I32 | TrcHdrFmt::U32 | TrcHdrFmt::F32 => 4,
        TrcHdrFmt::I64 | TrcHdrFmt::U64 | TrcHdrFmt::F64 => 8,
    }
}

/// Size in bytes of a value of format `fmt`.
#[verifier::when_used_as_spec(format_size_spec)]
pub fn format_size(fmt: TrcHdrFmt) -> (n: i32)
    ensures
        n == format_size_spec(fmt),
{
    match fmt {
        TrcHdrFmt::I8 | TrcHdrFmt::U8 => 1,
        TrcHdrFmt::I16 | TrcHdrFmt::U16 => 2,
        TrcHdrFmt::I32 | TrcHdrFmt::U32 | TrcHdrFmt::F32 => 4,
        TrcHdrFmt::I64 | TrcHdrFmt::U64 | TrcHdrFmt::F64 => 8,
    }
}

/// The standard trace header table: the format of the value named `name`
/// (see `crate::trc_hdr_names`) and its byte offset from the start of the
/// trace's first header. Offsets from 240 on lie in the first additional
/// trace header. The name `R_DEPTH` has no entry, and `EXT_S_DEPTH` is the
/// value at offset 296.
pub open spec fn trace_header_field_spec(name: i32) -> Option<(TrcHdrFmt, i32)> {
    match name {
        0 => Some((TrcHdrFmt::I32, 0)),
        1 => Some((TrcHdrFmt::I32, 4)),
        2 => Some((TrcHdrFmt::I32, 8)),
        3 => Some((TrcHdrFmt::I32, 12)),
        4 => Some((TrcHdrFmt::I32, 16)),
        5 => Some((TrcHdrFmt::I32, 20)),
        6 => Some((TrcHdrFmt::I32, 24)),
        7 => Some((TrcHdrFmt::I16, 28)),
        8 => Some((TrcHdrFmt::I16, 30)),
        9 => Some((TrcHdrFmt::I16, 32)),
        10 => Some((TrcHdrFmt::I16, 34)),
        11 => Some((TrcHdrFmt::I32, 36)),
        12 => Some((TrcHdrFmt::I32, 40)),
        13 => Some((TrcHdrFmt::I32, 44)),
        14 => Some((TrcHdrFmt::I32, 48)),
        15 => Some((TrcHdrFmt::I32, 52)),
        16 => Some((TrcHdrFmt::I32, 56)),
        17 => Some((TrcHdrFmt::I32, 60)),
        18 => Some((TrcHdrFmt::I32, 64)),
        19 => Some((TrcHdrFmt::I16, 68)),
        20 => Some((TrcHdrFmt::I16, 70)),
        21 => Some((TrcHdrFmt::I32, 72)),
        22 => Some((TrcHdrFmt::I32, 76)),
        23 => Some((TrcHdrFmt::I32, 80)),
        24 => Some((TrcHdrFmt::I32, 84)),
        25 => Some((TrcHdrFmt::I16, 88)),
        26 => Some((TrcHdrFmt::I16, 90)),
        27 => Some((TrcHdrFmt::I16, 92)),
        28 => Some((TrcHdrFmt::I16, 94)),
        29 => Some((TrcHdrFmt::I16, 96)),
        30 => Some((TrcHdrFmt::I16, 98)),
        31 => Some((TrcHdrFmt::I16, 100)),
        32 => Some((TrcHdrFmt::I16, 102)),
        33 => Some((TrcHdrFmt::I16, 104)),
        34 => Some((TrcHdrFmt::I16, 106)),
        35 => Some((TrcHdrFmt::I16, 108)),
        36 => Some((TrcHdrFmt::I16, 110)),
        37 => Some((TrcHdrFmt::I16, 112)),
        38 => Some((TrcHdrFmt::I16, 114)),
        39 => Some((TrcHdrFmt::I16, 116)),
        40 => Some((TrcHdrFmt::I16, 118)),
        41 => Some((TrcHdrFmt::I16, 120)),
        42 => Some((TrcHdrFmt::I16, 122)),
        43 => Some((TrcHdrFmt::I16, 124)),
        44 => Some((TrcHdrFmt::I16, 126)),
        45 => Some((TrcHdrFmt::I16, 128)),
        46 => Some((TrcHdrFmt::I16, 130)),
        47 => Some((TrcHdrFmt::I16, 132)),
        48 => Some((TrcHdrFmt::I16, 134)),
        49 => Some((TrcHdrFmt::I16, 136)),
        50 => Some((TrcHdrFmt::I16, 138)),
        51 => Some((TrcHdrFmt::I16, 140)),
        52 => Some((TrcHdrFmt::I16, 142)),
        53 => Some((TrcHdrFmt::I16, 144)),
        54 => Some((TrcHdrFmt::I16, 146)),
        55 => Some((TrcHdrFmt::I16, 148)),
        56 => Some((TrcHdrFmt::I16, 150)),
        57 => Some((TrcHdrFmt::I16, 152)),
        58 => Some((TrcHdrFmt::I16, 154)),
        59 => Some((TrcHdrFmt::I16, 156)),
        60 => Some((TrcHdrFmt::I16, 158)),
        61 => Some((TrcHdrFmt::I16, 160)),
        62 => Some((TrcHdrFmt::I16, 162)),
        63 => Some((TrcHdrFmt::I16, 164)),
        64 => Some((TrcHdrFmt::I16, 166)),
        65 => Some((TrcHdrFmt::I16, 168)),
        66 => Some((TrcHdrFmt::I16, 170)),
        67 => Some((TrcHdrFmt::I16, 172)),
        68 => Some((TrcHdrFmt::I16, 174)),
        69 => Some((TrcHdrFmt::I16, 176)),
        70 => Some((TrcHdrFmt::I16, 178)),
        71 => Some((TrcHdrFmt::I32, 180)),
        72 => Some((TrcHdrFmt::I32, 184)),
        73 => Some((TrcHdrFmt::I32, 188)),
        74 => Some((TrcHdrFmt::I32, 192)),
        75 => Some((TrcHdrFmt::I32, 196)),
        76 => Some((TrcHdrFmt::I16, 200)),
        77 => Some((TrcHdrFmt::I16, 202)),
        78 => Some((TrcHdrFmt::I32, 204)),
        79 => Some((TrcHdrFmt::I16, 208)),
        80 => Some((TrcHdrFmt::I16, 210)),
        81 => Some((TrcHdrFmt::I16, 212)),
        82 => Some((TrcHdrFmt::I16, 214)),
        83 => Some((TrcHdrFmt::I16, 216)),
        84 => Some((TrcHdrFmt::I16, 218)),
        85 => Some((TrcHdrFmt::I16, 220)),
        86 => Some((TrcHdrFmt::I16, 222)),
        87 => Some((TrcHdrFmt::I32, 224)),
        88 => Some((TrcHdrFmt::I16, 228)),
        89 => Some((TrcHdrFmt::I16, 230)),
        90 => Some((TrcHdrFmt::I64, 240)),
        91 => Some((TrcHdrFmt::I64, 248)),
        92 => Some((TrcHdrFmt::I64, 256)),
        93 => Some((TrcHdrFmt::I64, 264)),
        94 => Some((TrcHdrFmt::F64, 272)),
        96 => Some((TrcHdrFmt::F64, 288)),
        97 => Some((TrcHdrFmt::F64, 296)),
        98 => Some((TrcHdrFmt::F64, 304)),
        99 => Some((TrcHdrFmt::F64, 312)),
        100 => Some((TrcHdrFmt::F64, 320)),
        101 => Some((TrcHdrFmt::F64, 328)),
        102 => Some((TrcHdrFmt::F64, 336)),
        103 => Some((TrcHdrFmt::F64, 344)),
        104 => Some((TrcHdrFmt::F64, 352)),
        105 => Some((TrcHdrFmt::F64, 360)),
        106 => Some((TrcHdrFmt::F64, 368)),
        107 => Some((TrcHdrFmt::I32, 376)),
        108 => Some((TrcHdrFmt::I32, 380)),
        109 => Some((TrcHdrFmt::F64, 384)),
        110 => Some((TrcHdrFmt::I32, 392)),
        111 => Some((TrcHdrFmt::I16, 396)),
        112 => Some((TrcHdrFmt::I16, 398)),
        113 => Some((TrcHdrFmt::F64, 400)),
        114 => Some((TrcHdrFmt::F64, 408)),
        _ => None,
    }
}

/// The entry of the standard trace header table for `name`, if it has one.
#[verifier::when_used_as_spec(trace_header_field_spec)]
pub fn trace_header_field(name: i32) -> (entry: Option<(TrcHdrFmt, i32)>)
    ensures
        entry == trace_header_field_spec(name),
{
    match name {
        0 => Some((TrcHdrFmt::I32, 0)),
        1 => Some((TrcHdrFmt::I32, 4)),
        2 => Some((TrcHdrFmt::I32, 8)),
        3 => Some((TrcHdrFmt::I32, 12)),
        4 => Some((TrcHdrFmt::I32, 16)),
        5 => Some((TrcHdrFmt::I32, 20)),
        6 => Some((TrcHdrFmt::I32, 24)),
        7 => Some((TrcHdrFmt::I16, 28)),
        8 => Some((TrcHdrFmt::I16, 30)),
        9 => Some((TrcHdrFmt::I16, 32)),
        10 => Some((TrcHdrFmt::I16, 34)),
        11 => Some((TrcHdrFmt::I32, 36)),
        12 => Some((TrcHdrFmt::I32, 40)),
        13 => Some((TrcHdrFmt::I32, 44)),
        14 => Some((TrcHdrFmt::I32, 48)),
        15 => Some((TrcHdrFmt::I32, 52)),
        16 => Some((TrcHdrFmt::I32, 56)),
        17 => Some((TrcHdrFmt::I32, 60)),
        18 => Some((TrcHdrFmt::I32, 64)),
        19 => Some((TrcHdrFmt::I16, 68)),
        20 => Some((TrcHdrFmt::I16, 70)),
        21 => Some((TrcHdrFmt::I32, 72)),
        22 => Some((TrcHdrFmt::I32, 76)),
        23 => Some((TrcHdrFmt::I32, 80)),
        24 => Some((TrcHdrFmt::I32, 84)),
        25 => Some((TrcHdrFmt::I16, 88)),
        26 => Some((TrcHdrFmt::I16, 90)),
        27 => Some((TrcHdrFmt::I16, 92)),
        28 => Some((TrcHdrFmt::I16, 94)),
        29 => Some((TrcHdrFmt::I16, 96)),
        30 => Some((TrcHdrFmt::I16, 98)),
        31 => Some((TrcHdrFmt::I16, 100)),
        32 => Some((TrcHdrFmt::I16, 102)),
        33 => Some((TrcHdrFmt::I16, 104)),
        34 => Some((TrcHdrFmt::I16, 106)),
        35 => Some((TrcHdrFmt::I16, 108)),
        36 => Some((TrcHdrFmt::I16, 110)),
        37 => Some((TrcHdrFmt::I16, 112)),
        38 => Some((TrcHdrFmt::I16, 114)),
        39 => Some((TrcHdrFmt::I16, 116)),
        40 => Some((TrcHdrFmt::I16, 118)),
        41 => Some((TrcHdrFmt::I16, 120)),
        42 => Some((TrcHdrFmt::I16, 122)),
        43 => Some((TrcHdrFmt::I16, 124)),
        44 => Some((TrcHdrFmt::I16, 126)),
        45 => Some((TrcHdrFmt::I16, 128)),
        46 => Some((TrcHdrFmt::I16, 130)),
        47 => Some((TrcHdrFmt::I16, 132)),
        48 => Some((TrcHdrFmt::I16, 134)),
        49 => Some((TrcHdrFmt::I16, 136)),
        50 => Some((TrcHdrFmt::I16, 138)),
        51 => Some((TrcHdrFmt::I16, 140)),
        52 => Some((TrcHdrFmt::I16, 142)),
        53 => Some((TrcHdrFmt::I16, 144)),
        54 => Some((TrcHdrFmt::I16, 146)),
        55 => Some((TrcHdrFmt::I16, 148)),
        56 => Some((TrcHdrFmt::I16, 150)),
        57 => Some((TrcHdrFmt::I16, 152)),
        58 => Some((TrcHdrFmt::I16, 154)),
        59 => Some((TrcHdrFmt::I16, 156)),
        60 => Some((TrcHdrFmt::I16, 158)),
        61 => Some((TrcHdrFmt::I16, 160)),
        62 => Some((TrcHdrFmt::I16, 162)),
        63 => Some((TrcHdrFmt::I16, 164)),
        64 => Some((TrcHdrFmt::I16, 166)),
        65 => Some((TrcHdrFmt::I16, 168)),
        66 => Some((TrcHdrFmt::I16, 170)),
        67 => Some((TrcHdrFmt::I16, 172)),
        68 => Some((TrcHdrFmt::I16, 174)),
        69 => Some((TrcHdrFmt::I16, 176)),
        70 => Some((TrcHdrFmt::I16, 178)),
        71 => Some((TrcHdrFmt::I32, 180)),
        72 => Some((TrcHdrFmt::I32, 184)),
        73 => Some((TrcHdrFmt::I32, 188)),
        74 => Some((TrcHdrFmt::I32, 192)),
        75 => Some((TrcHdrFmt::I32, 196)),
        76 => Some((TrcHdrFmt::I16, 200)),
        77 => Some((TrcHdrFmt::I16, 202)),
        78 => Some((TrcHdrFmt::I32, 204)),
        79 => Some((TrcHdrFmt::I16, 208)),
        80 => Some((TrcHdrFmt::I16, 210)),
        81 => Some((TrcHdrFmt::I16, 212)),
        82 => Some((TrcHdrFmt::I16, 214)),
        83 => Some((TrcHdrFmt::I16, 216)),
        84 => Some((TrcHdrFmt::I16, 218)),
        85 => Some((TrcHdrFmt::I16, 220)),
        86 => Some((TrcHdrFmt::I16, 222)),
        87 => Some((TrcHdrFmt::I32, 224)),
        88 => Some((TrcHdrFmt::I16, 228)),
        89 => Some((TrcHdrFmt::I16, 230)),
        90 => Some((TrcHdrFmt::I64, 240)),
        91 => Some((TrcHdrFmt::I64, 248)),
        92 => Some((TrcHdrFmt::I64, 256)),
        93 => Some((TrcHdrFmt::I64, 264)),
        94 => Some((TrcHdrFmt::F64, 272)),
        96 => Some((TrcHdrFmt::F64, 288)),
        97 => Some((TrcHdrFmt::F64, 296)),
        98 => Some((TrcHdrFmt::F64, 304)),
        99 => Some((TrcHdrFmt::F64, 312)),
        100 => Some((TrcHdrFmt::F64, 320)),
        101 => Some((TrcHdrFmt::F64, 328)),
        102 => Some((TrcHdrFmt::F64, 336)),
        103 => Some((TrcHdrFmt::F64, 344)),
        104 => Some((TrcHdrFmt::F64, 352)),
        105 => Some((TrcHdrFmt::F64, 360)),
        106 => Some((TrcHdrFmt::F64, 368)),
        107 => Some((TrcHdrFmt::I32, 376)),
        108 => Some((TrcHdrFmt::I32, 380)),
        109 => Some((TrcHdrFmt::F64, 384)),
        110 => Some((TrcHdrFmt::I32, 392)),
        111 => Some((TrcHdrFmt::I16, 396)),
        112 => Some((TrcHdrFmt::I16, 398)),
        113 => Some((TrcHdrFmt::F64, 400)),
        114 => Some((TrcHdrFmt::F64, 408)),
        _ => None,
    }
}

/// The standard trace header table as a map.
pub open spec fn std_trc_hdr_map_spec() -> Map<i32, (TrcHdrFmt, i32)> {
    Map::new(|name: i32| trace_header_field(name) is Some, |name: i32| trace_header_field(name)->0)
}

/// Builds the standard trace header table as a hash map from value names to
/// their format and byte offset.
pub fn std_trc_hdr_map() -> (map: HashMap<i32, (TrcHdrFmt, i32)>)
    ensures
        map@ == std_trc_hdr_map_spec(),
        map@.len() == 114,
{
    let mut map: HashMap<i32, (TrcHdrFmt, i32)> = HashMap::new();
    let mut name: i32 = 0;
    while name <= EXT_CDP_Y
        invariant
            0 <= name <= EXT_CDP_Y + 1,
            map@ == Map::new(
                |k: i32| 0 <= k < name && trace_header_field(k) is Some,
                |k: i32| trace_header_field(k)->0,
            ),
            map@.dom().finite(),
            map@.len() == (if name > 95 {
                name - 1
            } else {
                name as int
            }),
        decreases EXT_CDP_Y + 1 - name,
    {
        if let Some(entry) = trace_header_field(name) {
            assert(!map@.dom().contains(name));
            map.insert(name, entry);
        }
        name = name + 1;
        assert(map@ =~= Map::new(
            |k: i32| 0 <= k < name && trace_header_field(k) is Some,
            |k: i32| trace_header_field(k)->0,
        ));
    }
    assert(map@ =~= std_trc_hdr_map_spec());
    map
}

/// The data sample formats, by the format code of the binary header:
/// 1 IBM floating point, 2 `i32`, 3 `i16`, 5 IEEE `f32`, 6 IEEE `f64`, 7 `i24`,
/// 8 `i8`, 9 `i64`, 10 `u32`, 11 `u16`, 12 `u64`, 15 `u24`, 16 `u8`.
#[derive(Clone, Copy, Debug, PartialEq, Eq, Structural)]
pub enum SampleFormat {
    Ibm,
    I32,
    I16,
    F32,
    F64,
    I24,
    I8,
    I64,
    U32,
    U16,
    U64,
    U24,
    U8,
}

/// The sample format of format code `code`, if it is supported.
pub open spec fn sample_format_spec(code: i16) -> Option<SampleFormat> {
    match code {
        1 => Some(SampleFormat::Ibm),
        2 => Some(SampleFormat::I32),
        3 => Some(SampleFormat::I16),
        5 => Some(SampleFormat::F32),
        6 => Some(SampleFormat::F64),
        7 => Some(SampleFormat::I24),
        8 => Some(SampleFormat::I8),
        9 => Some(SampleFormat::I64),
        10 => Some(SampleFormat::U32),
        11 => Some(SampleFormat::U16),
        12 => Some(SampleFormat::U64),
        15 => Some(SampleFormat::U24),
        16 => Some(SampleFormat::U8),
        _ => None,
    }
}

/// The sample format of format code `code`; an error for an unsupported code.
pub fn sample_format(code: i16) -> (r: Result<SampleFormat, Error>)
    ensures
        match sample_format_spec(code) {
            Some(f) => r == Ok::<SampleFormat, Error>(f),
            None => r == Err::<SampleFormat, Error>(Error::UnsupportedFormatCode(code)),
        },
{
    match code {
        1 => Ok(SampleFormat::Ibm),
        2 => Ok(SampleFormat::I32),
        3 => Ok(SampleFormat::I16),
        5 => Ok(SampleFormat::F32),
        6 => Ok(SampleFormat::F64),
        7 => Ok(SampleFormat::I24),
        8 => Ok(SampleFormat::I8),
        9 => Ok(SampleFormat::I64),
        10 => Ok(SampleFormat::U32),
        11 => Ok(SampleFormat::U16),
        12 => Ok(SampleFormat::U64),
        15 => Ok(SampleFormat::U24),
        16 => Ok(SampleFormat::U8),
        _ => Err(Error::UnsupportedFormatCode(code)),
    }
}

/// A data sample, in the number format of the file; `Ibm` holds the 32-bit
/// pattern of an IBM floating point number and `F32` and `F64` IEEE bit
/// patterns.
#[derive(Clone, Copy, Debug, PartialEq, Eq, Structural)]
pub enum SampleValue {
    Ibm(u32),
    I32(i32),
    I16(i16),
    F32(u32),
    F64(u64),
    I24(i32),
    I8(i8),
    I64(i64),
    U32(u32),
    U16(u16),
    U64(u64),
    U24(u32),
    U8(u8),
}

/// The sample format of the sample `v`.
pub open spec fn sample_value_format(v: SampleValue) -> SampleFormat {
    match v {
        SampleValue::Ibm(_) => SampleFormat::Ibm,
        SampleValue::I32(_) => SampleFormat::I32,
        SampleValue::I16(_) => SampleFormat::I16,
        SampleValue::F32(_) => SampleFormat::F32,
        SampleValue::F64(_) => SampleFormat::F64,
        SampleValue::I24(_) => SampleFormat::I24,
        SampleValue::I8(_) => SampleFormat::I8,
        SampleValue::I64(_) => SampleFormat::I64,
        SampleValue::U32(_) => SampleFormat::U32,
        SampleValue::U16(_) => SampleFormat::U16,
        SampleValue::U64(_) => SampleFormat::U64,
        SampleValue::U24(_) => SampleFormat::U24,
        SampleValue::U8(_) => SampleFormat::U8,
    }
}

/// Size in bytes of one sample of format `f`.
pub open spec fn bytes_per_sample_spec(f: SampleFormat) -> usize {
    match f {
        SampleFormat::I8 | SampleFormat::U8 => 1,
        SampleFormat::I16 | SampleFormat::U16 => 2,
        SampleFormat::I24 | SampleFormat::U24 => 3,
        SampleFormat::Ibm | SampleFormat::I32 | SampleFormat::F32 | SampleFormat::U32 => 4,
        SampleFormat::F64 | SampleFormat::I64 | SampleFormat::U64 => 8,
    }
}

/// Size in bytes of one sample of format `f`.
#[verifier::when_used_as_spec(bytes_per_sample_spec)]
pub fn bytes_per_sample(f: SampleFormat) -> (n: usize)
    ensures
        n == bytes_per_sample_spec(f),
{
    match f {
        SampleFormat::I8 | SampleFormat::U8 => 1,
        SampleFormat::I16 | SampleFormat::U16 => 2,
        SampleFormat::I24 | SampleFormat::U24 => 3,
        SampleFormat::Ibm | SampleFormat::I32 | SampleFormat::F32 | SampleFormat::U32 => 4,
        SampleFormat::F64 | SampleFormat::I64 | SampleFormat::U64 => 8,
    }
}

/// The number of samples per trace that the binary header gives: the extended
/// number when it is not zero, the number otherwise.
pub open spec fn samples_per_trace_spec(bh: BinaryHeader) -> i32 {
    if bh.ext_samp_num != 0 {
        bh.ext_samp_num
    } else {
        bh.samp_num as i32
    }
}

/// The number of samples per trace that the binary header gives: the extended
/// number when it is not zero, the number otherwise.
pub fn samples_per_trace(bh: &BinaryHeader) -> (n: i32)
    ensures
        n == samples_per_trace_spec(*bh),
{
    if bh.ext_samp_num != 0 {
        bh.ext_samp_num
    } else {
        bh.samp_num as i32
    }
}

/// Whether all traces have the length that the binary header gives: the
/// fixed length trace flag is set, or the file is of revision 0.
pub open spec fn has_fixed_length_traces_spec(bh: BinaryHeader) -> bool {
    bh.fix_length_trc_flag == 1 || bh.segy_maj_ver == 0
}

/// Whether all traces have the length that the binary header gives: the
/// fixed length trace flag is set, or the file is of revision 0.
pub fn has_fixed_length_traces(bh: &BinaryHeader) -> (b: bool)
    ensures
        b == has_fixed_length_traces_spec(*bh),
{
    bh.fix_length_trc_flag == 1 || bh.segy_maj_ver == 0
}

/// A trace header value, in the number format of its entry in the trace
/// header table; `F32` and `F64` hold IEEE bit patterns.
#[derive(Clone, Copy, Debug, PartialEq, Eq, Structural)]
pub enum HdrValue {
    I8(i8),
    I16(i16),
    I32(i32),
    I64(i64),
    U8(u8),
    U16(u16),
    U32(u32),
    U64(u64),
    F32(u32),
    F64(u64),
}

/// The number format of the value `v`.
pub open spec fn hdr_value_format(v: HdrValue) -> TrcHdrFmt {
    match v {
        HdrValue::I8(_) => TrcHdrFmt::I8,
        HdrValue::I16(_) => TrcHdrFmt::I16,
        HdrValue::I32(_) => TrcHdrFmt::I32,
        HdrValue::I64(_) => TrcHdrFmt::I64,
        HdrValue::U8(_) => TrcHdrFmt::U8,
        HdrValue::U16(_) => TrcHdrFmt::U16,
        HdrValue::U32(_) => TrcHdrFmt::U32,
        HdrValue::U64(_) => TrcHdrFmt::U64,
        HdrValue::F32(_) => TrcHdrFmt::F32,
        HdrValue::F64(_) => TrcHdrFmt::F64,
    }
}

/// The format of the value named `name` in the trace header table.
pub open spec fn field_format(name: i32) -> TrcHdrFmt {
    trace_header_field(name).unwrap().0
}

/// The byte offset of the value named `name` in the trace headers.
pub open spec fn field_offset(name: i32) -> int {
    trace_header_field(name).unwrap().1 as int
}

/// The byte after the value named `name` in the trace headers.
pub open spec fn field_end(name: i32) -> int {
    trace_header_field(name).unwrap().1 + format_size(trace_header_field(name).unwrap().0)
}

/// Whether the value named `name` lies within `limit` bytes of trace headers.
pub open spec fn field_fits(name: i32, limit: int) -> bool {
    field_end(name) <= limit
}

/// Whether the value named `name` lies within `limit` bytes of trace headers.
pub fn field_lies_within(name: i32, limit: i64) -> (b: bool)
    requires
        trace_header_field(name) is Some,
    ensures
        b == field_fits(name, limit as int),
{
    let (fmt, offset) = match trace_header_field(name) {
        Some(entry) => entry,
        None => (TrcHdrFmt::I32, 0),
    };
    offset as i64 + format_size(fmt) as i64 <= limit
}

/// The index of the first of `names` whose value does not lie within `limit`
/// bytes of trace headers, if there is one.
pub fn first_misplaced_header(names: &[i32], limit: i64) -> (r: Option<usize>)
    requires
        forall|i: int| 0 <= i < names@.len() ==> trace_header_field(#[trigger] names@[i]) is Some,
    ensures
        match r {
            Some(i) => i < names@.len() && !field_fits(names@[i as int], limit as int) && forall|
                j: int,
            | 0 <= j < i ==> field_fits(#[trigger] names@[j], limit as int),
            None => forall|j: int| 0 <= j < names@.len() ==> field_fits(#[trigger] names@[j], limit as int),
        },
{
    let mut i: usize = 0;
    while i < names.len()
        invariant
            i <= names@.len(),
            forall|j: int| 0 <= j < names@.len() ==> trace_header_field(#[trigger] names@[j]) is Some,
            forall|j: int| 0 <= j < i ==> field_fits(#[trigger] names@[j], limit as int),
        decreases names@.len() - i,
    {
        assert(trace_header_field(names@[i as int]) is Some);
        if !field_lies_within(names[i], limit) {
            return Some(i);
        }
        i = i + 1;
    }
    None
}

/// Each entry of the trace header table ends at or before the next entry
/// starts.
proof fn lemma_table_consecutive(a: i32)
    requires
        trace_header_field(a) is Some,
        trace_header_field((a + 1) as i32) is Some || a == 94,
    ensures
        a == 94 ==> field_end(a) <= trace_header_field(96).unwrap().1,
        a != 94 ==> field_end(a) <= trace_header_field((a + 1) as i32).unwrap().1,
{
}

/// Entries of the trace header table with greater names lie at greater
/// offsets and do not overlap.
pub proof fn lemma_table_sorted(a: i32, b: i32)
    requires
        a < b,
        trace_header_field(a) is Some,
        trace_header_field(b) is Some,
    ensures
        field_end(a) <= trace_header_field(b).unwrap().1,
    decreases b - a,
{
    let next: i32 = if a == 94 { 96 } else { (a + 1) as i32 };
    lemma_table_consecutive(a);
    if next < b {
        lemma_table_sorted(next, b);
    }
}

} // verus!
