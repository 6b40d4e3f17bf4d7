use segy::common::{
    bytes_per_sample, has_fixed_length_traces, sample_format, samples_per_trace,
    std_trc_hdr_map, trace_header_field, BinaryHeader, HdrValue, SampleFormat, SampleValue,
    TrcHdrFmt, DEFAULT_TEXT_HEADER, TEXT_HEADER_SIZE,
};
use segy::error::Error;
use segy::reader::{
    check_header_names, decode_header_value, decode_sample, decode_samples, end_of_data_pos,
    first_trace_pos, header_byte_order, reads_headers_whole, is_end_text_stanza, parse_binary_header, read_i16,
    read_i16_sw, read_i24, read_i24_sw, read_u64, read_u64_sw, read_header_values, swapped_for,
    trace_samp_num,
};
use segy::trc_hdr_names::{
    ADD_TRC_HDR_NUM, EXT_CDP_X, EXT_S_DEPTH, EXT_SOU_X, OFFSET, R_DEPTH, SAMP_NUM, TO_STRING,
    TRC_SEQ_SEGY, YEAR,
};
use segy::utils::{ebcdic_to_ascii, text_header_to_ascii};
use segy::writer::{
    check_bin_hdr, check_traces_to_write, encode_binary_header, encode_samples,
    trace_headers_len, write_header_values, write_i16, write_i16_sw, write_i24, write_i24_sw,
    write_u64, write_u64_sw,
};

fn sample_header(endianness: i32) -> BinaryHeader {
    let mut bh = BinaryHeader::new();
    bh.job_id = 7;
    bh.line_num = -3;
    bh.reel_num = 0x01020304;
    bh.trc_num = 40;
    bh.aux_trc_num = -1;
    bh.samp_int = 2000;
    bh.samp_num = 501;
    bh.format_code = 5;
    bh.ensemble_fold = 4;
    bh.measure_sys = 1;
    bh.ext_samp_num = 70000;
    bh.ext_samp_int_bits = 2.5f64.to_bits();
    bh.ext_samp_int_orig_bits = (-0.125f64).to_bits();
    bh.endianness = endianness;
    bh.segy_maj_ver = 2;
    bh.segy_min_ver = 1;
    bh.fix_length_trc_flag = 1;
    bh.ext_text_hdrs_num = 3;
    bh.max_add_trc_hdrs = 1;
    bh.time_basis_code = -2;
    bh.num_of_trcs_in_file = 0x0102_0304_0506_0708;
    bh.byte_off_of_first_trc = 3600;
    bh.trailer_stanza_num = 2;
    bh
}

#[test]
fn binary_header_new_is_zero() {
    let bh = BinaryHeader::new();
    assert_eq!(bh.job_id, 0);
    assert_eq!(bh.ext_samp_int_bits, 0);
    assert_eq!(bh.trailer_stanza_num, 0);
    assert_eq!(bh.segy_maj_ver, 0);
}

#[test]
fn binary_header_write_read_little_endian() {
    let bh = sample_header(0x01020304);
    let bytes = encode_binary_header(&bh).unwrap();
    assert_eq!(bytes.len(), 400);
    assert_eq!(&bytes[0..4], &[7, 0, 0, 0]);
    assert_eq!(&bytes[96..100], &[4, 3, 2, 1]);
    assert_eq!(bytes[300], 2);
    assert_eq!(bytes[301], 1);
    assert_eq!(header_byte_order(&bytes), Ok(false));
    assert_eq!(parse_binary_header(&bytes), Ok(bh));
}

#[test]
fn binary_header_write_read_zero_endianness() {
    let bh = sample_header(0);
    let bytes = encode_binary_header(&bh).unwrap();
    assert_eq!(&bytes[0..4], &[0, 0, 0, 7]);
    assert_eq!(&bytes[312..320], &[1, 2, 3, 4, 5, 6, 7, 8]);
    assert_eq!(header_byte_order(&bytes), Ok(true));
    assert_eq!(parse_binary_header(&bytes), Ok(bh));
}

#[test]
fn binary_header_big_endian_constant_does_not_read_back() {
    let bh = sample_header(0x04030201);
    let bytes = encode_binary_header(&bh).unwrap();
    assert_eq!(&bytes[0..4], &[0, 0, 0, 7]);
    let read = parse_binary_header(&bytes).unwrap();
    assert_eq!(read.endianness, 0x01020304);
    assert_eq!(read.job_id, 0x07000000);
}

#[test]
fn binary_header_read_write_bytes() {
    let bh = sample_header(0x01020304);
    let bytes = encode_binary_header(&bh).unwrap();
    let read = parse_binary_header(&bytes).unwrap();
    assert_eq!(encode_binary_header(&read).unwrap(), bytes);
}

#[test]
fn binary_header_unsupported_endianness() {
    let mut bytes = vec![0u8; 400];
    bytes[96] = 0x44;
    bytes[97] = 0x33;
    bytes[98] = 0x22;
    bytes[99] = 0x11;
    assert_eq!(
        parse_binary_header(&bytes),
        Err(Error::UnsupportedEndianness(0x11223344))
    );
    assert_eq!(
        header_byte_order(&bytes),
        Err(Error::UnsupportedEndianness(0x11223344))
    );
    let bh = sample_header(5);
    assert_eq!(encode_binary_header(&bh), Err(Error::UnsupportedEndianness(5)));
    let bh = sample_header(-1);
    assert_eq!(
        encode_binary_header(&bh),
        Err(Error::UnsupportedEndianness(0xffff_ffff))
    );
}

#[test]
fn byte_order_of_endianness_constants() {
    assert_eq!(swapped_for(0x01020304), Ok(false));
    assert_eq!(swapped_for(0x04030201), Ok(true));
    assert_eq!(swapped_for(0), Ok(true));
    assert_eq!(swapped_for(1), Err(Error::UnsupportedEndianness(1)));
}

#[test]
fn check_bin_hdr_errors() {
    let mut bh = sample_header(0x01020304);
    assert_eq!(check_bin_hdr(&bh), Ok(()));
    bh.samp_int = 0;
    assert_eq!(check_bin_hdr(&bh), Ok(()));
    bh.ext_samp_int_bits = 0;
    assert_eq!(check_bin_hdr(&bh), Err(Error::ZeroSampleInterval()));
    bh.ext_samp_int_bits = (-0.0f64).to_bits();
    assert_eq!(check_bin_hdr(&bh), Err(Error::ZeroSampleInterval()));
    bh.samp_int = 1000;
    bh.samp_num = 0;
    bh.ext_samp_num = 0;
    assert_eq!(check_bin_hdr(&bh), Err(Error::ZeroSampleNumber()));
    bh.samp_num = 10;
    bh.segy_maj_ver = 3;
    assert_eq!(check_bin_hdr(&bh), Err(Error::UnsupportedRevision(3)));
    bh.segy_maj_ver = 0;
    bh.format_code = 5;
    assert_eq!(check_bin_hdr(&bh), Err(Error::WrongFormatForRevision(5)));
    bh.format_code = 3;
    assert_eq!(check_bin_hdr(&bh), Ok(()));
    bh.segy_maj_ver = 1;
    assert_eq!(check_bin_hdr(&bh), Err(Error::WrongFormatForRevision(3)));
    bh.format_code = 8;
    assert_eq!(check_bin_hdr(&bh), Ok(()));
    bh.format_code = 6;
    assert_eq!(check_bin_hdr(&bh), Err(Error::WrongFormatForRevision(6)));
    bh.segy_maj_ver = 2;
    assert_eq!(check_bin_hdr(&bh), Ok(()));
    bh.format_code = 13;
    assert_eq!(check_bin_hdr(&bh), Err(Error::WrongFormatForRevision(13)));
    bh.format_code = 17;
    assert_eq!(check_bin_hdr(&bh), Err(Error::WrongFormatForRevision(17)));
    bh.format_code = 16;
    assert_eq!(check_bin_hdr(&bh), Ok(()));
}

#[test]
fn sample_formats_and_sizes() {
    assert_eq!(sample_format(1), Ok(SampleFormat::Ibm));
    assert_eq!(sample_format(5), Ok(SampleFormat::F32));
    assert_eq!(sample_format(15), Ok(SampleFormat::U24));
    assert_eq!(sample_format(4), Err(Error::UnsupportedFormatCode(4)));
    assert_eq!(sample_format(13), Err(Error::UnsupportedFormatCode(13)));
    assert_eq!(bytes_per_sample(SampleFormat::U8), 1);
    assert_eq!(bytes_per_sample(SampleFormat::I16), 2);
    assert_eq!(bytes_per_sample(SampleFormat::I24), 3);
    assert_eq!(bytes_per_sample(SampleFormat::Ibm), 4);
    assert_eq!(bytes_per_sample(SampleFormat::F64), 8);
}

#[test]
fn trace_layout_from_binary_header() {
    let mut bh = BinaryHeader::new();
    bh.samp_num = 501;
    assert_eq!(samples_per_trace(&bh), 501);
    bh.ext_samp_num = 70000;
    assert_eq!(samples_per_trace(&bh), 70000);
    assert!(has_fixed_length_traces(&bh));
    bh.segy_maj_ver = 1;
    assert!(!has_fixed_length_traces(&bh));
    bh.fix_length_trc_flag = 1;
    assert!(has_fixed_length_traces(&bh));
    assert_eq!(trace_samp_num(100, None), 100);
    assert_eq!(trace_samp_num(100, Some(50)), 100);
    assert_eq!(trace_samp_num(100, Some(70000)), 70000);
    assert_eq!(trace_headers_len(0), 240);
    assert_eq!(trace_headers_len(2), 720);
    assert_eq!(trace_headers_len(-1), 0);
}

#[test]
fn file_positions() {
    assert_eq!(end_of_data_pos(10000, 2), Ok(10000 - 6400));
    assert_eq!(end_of_data_pos(10000, 0), Ok(10000));
    assert_eq!(
        end_of_data_pos(10000, -1),
        Err(Error::UnsupportedNumberOfStanzas(-1))
    );
    assert_eq!(first_trace_pos(0), 3600);
    assert_eq!(first_trace_pos(2), 3600 + 6400);
}

#[test]
fn end_text_stanza() {
    let mut stanza = vec![b' '; TEXT_HEADER_SIZE];
    assert!(!is_end_text_stanza(&stanza));
    stanza[..16].copy_from_slice(b"((SEG: EndText))");
    assert!(is_end_text_stanza(&stanza));
    assert!(!is_end_text_stanza(b"((SEG: EndText)"));
}

#[test]
fn trace_header_table() {
    let map = std_trc_hdr_map();
    assert_eq!(map.len(), 114);
    assert_eq!(map.get(&OFFSET), Some(&(TrcHdrFmt::I32, 36)));
    assert_eq!(map.get(&YEAR), Some(&(TrcHdrFmt::I16, 156)));
    assert_eq!(map.get(&EXT_S_DEPTH), Some(&(TrcHdrFmt::F64, 296)));
    assert_eq!(map.get(&R_DEPTH), None);
    assert_eq!(map.get(&115), None);
    assert_eq!(trace_header_field(ADD_TRC_HDR_NUM), Some((TrcHdrFmt::I16, 396)));
    assert_eq!(trace_header_field(-1), None);
    assert_eq!(TO_STRING[OFFSET as usize], "OFFSET");
    assert_eq!(TO_STRING.len(), 115);
}

#[test]
fn header_names_beyond_trace_headers() {
    assert_eq!(check_header_names(&[TRC_SEQ_SEGY, OFFSET], 0), Ok(()));
    assert_eq!(
        check_header_names(&[TRC_SEQ_SEGY, EXT_CDP_X, EXT_SOU_X], 0),
        Err(Error::TraceHeaderMap(EXT_CDP_X))
    );
    assert_eq!(check_header_names(&[EXT_CDP_X], 1), Ok(()));
    assert_eq!(check_header_names(&[], -5), Ok(()));
}

#[test]
fn traces_to_write_checks() {
    let names = [TRC_SEQ_SEGY, OFFSET, EXT_CDP_X];
    assert_eq!(
        check_traces_to_write(&names, 2, 3, 3, 1),
        Err(Error::DiffDimToWrite())
    );
    assert_eq!(
        check_traces_to_write(&names, 2, 2, 2, 1),
        Err(Error::DiffDimToWrite())
    );
    assert_eq!(check_traces_to_write(&names, 2, 3, 2, 1), Ok(()));
    assert_eq!(
        check_traces_to_write(&names, 2, 3, 2, 0),
        Err(Error::TraceHeaderMap(2))
    );
}

#[test]
fn header_values_write_read() {
    let names = [TRC_SEQ_SEGY, OFFSET, SAMP_NUM, EXT_SOU_X, ADD_TRC_HDR_NUM];
    let vals = [
        HdrValue::I32(17),
        HdrValue::I32(-150),
        HdrValue::I16(501),
        HdrValue::F64(1234.5f64.to_bits()),
        HdrValue::I16(1),
    ];
    for swapped in [false, true] {
        let mut buf = vec![0u8; 480];
        write_header_values(&mut buf, &names, &vals, swapped);
        assert_eq!(read_header_values(&buf, &names, swapped), vals.to_vec());
    }
    let mut buf = vec![0u8; 480];
    write_header_values(&mut buf, &names, &vals, false);
    assert_eq!(&buf[4..8], &[17, 0, 0, 0]);
    assert_eq!(&buf[114..116], &[0xf5, 0x01]);
    write_header_values(&mut buf, &names, &vals, true);
    assert_eq!(&buf[4..8], &[0, 0, 0, 17]);
    assert_eq!(&buf[114..116], &[0x01, 0xf5]);
}

#[test]
fn header_values_later_value_wins() {
    let names = [OFFSET, OFFSET];
    let vals = [HdrValue::I32(1), HdrValue::I32(2)];
    let mut buf = vec![0u8; 240];
    write_header_values(&mut buf, &names, &vals, false);
    assert_eq!(
        read_header_values(&buf, &names, false),
        vec![HdrValue::I32(2), HdrValue::I32(2)]
    );
}

#[test]
fn header_value_beyond_buffer_reads_zero() {
    let buf = vec![0xffu8; 240];
    assert_eq!(
        read_header_values(&buf, &[EXT_CDP_X, OFFSET], false),
        vec![HdrValue::I32(0), HdrValue::I32(-1)]
    );
}

#[test]
fn header_value_decoding() {
    assert_eq!(
        decode_header_value(&[0x01, 0x02], TrcHdrFmt::I16, false),
        HdrValue::I16(0x0201)
    );
    assert_eq!(
        decode_header_value(&[0x01, 0x02], TrcHdrFmt::U16, true),
        HdrValue::U16(0x0102)
    );
    assert_eq!(decode_header_value(&[0xff], TrcHdrFmt::I8, true), HdrValue::I8(-1));
    assert_eq!(
        decode_header_value(&[0x00, 0x00, 0x80, 0x3f], TrcHdrFmt::F32, false),
        HdrValue::F32(1.0f32.to_bits())
    );
}

#[test]
fn samples_write_read_every_format() {
    let cases: Vec<(SampleFormat, Vec<SampleValue>)> = vec![
        (SampleFormat::Ibm, vec![SampleValue::Ibm(0x4110_0000), SampleValue::Ibm(0xc110_0000)]),
        (SampleFormat::I32, vec![SampleValue::I32(-5), SampleValue::I32(i32::MAX)]),
        (SampleFormat::I16, vec![SampleValue::I16(-300), SampleValue::I16(300)]),
        (SampleFormat::F32, vec![SampleValue::F32((-2.1558735e-14f32).to_bits())]),
        (SampleFormat::F64, vec![SampleValue::F64(0.5f64.to_bits())]),
        (SampleFormat::I24, vec![SampleValue::I24(0x123456), SampleValue::I24(0)]),
        (SampleFormat::I8, vec![SampleValue::I8(-128), SampleValue::I8(127)]),
        (SampleFormat::I64, vec![SampleValue::I64(i64::MIN)]),
        (SampleFormat::U32, vec![SampleValue::U32(u32::MAX)]),
        (SampleFormat::U16, vec![SampleValue::U16(0xabcd)]),
        (SampleFormat::U64, vec![SampleValue::U64(u64::MAX - 1)]),
        (SampleFormat::U24, vec![SampleValue::U24(0xfedcba)]),
        (SampleFormat::U8, vec![SampleValue::U8(200), SampleValue::U8(0)]),
    ];
    for (f, samples) in cases {
        for swapped in [false, true] {
            let bps = bytes_per_sample(f);
            let mut buf = vec![0u8; samples.len() * bps + 3];
            encode_samples(&mut buf, &samples, f, swapped);
            assert_eq!(decode_samples(&buf, samples.len(), f, swapped), samples);
            assert_eq!(&buf[samples.len() * bps..], &[0, 0, 0]);
        }
    }
}

#[test]
fn negative_i24_sample_reads_without_sign() {
    let mut buf = vec![0u8; 3];
    encode_samples(&mut buf, &[SampleValue::I24(-1)], SampleFormat::I24, false);
    assert_eq!(buf, vec![0xff, 0xff, 0xff]);
    assert_eq!(
        decode_sample(&buf, SampleFormat::I24, false),
        SampleValue::I24(0xffffff)
    );
}

#[test]
fn sample_decoding() {
    assert_eq!(
        decode_sample(&[0x3f, 0x80, 0x00, 0x00], SampleFormat::F32, true),
        SampleValue::F32(1.0f32.to_bits())
    );
    assert_eq!(
        decode_sample(&[0x01, 0x02, 0x03], SampleFormat::U24, true),
        SampleValue::U24(0x010203)
    );
    assert_eq!(
        decode_samples(&[1, 0, 2, 0, 9], 2, SampleFormat::I16, false),
        vec![SampleValue::I16(1), SampleValue::I16(2)]
    );
}

#[test]
fn integer_write_read() {
    for v in [i16::MIN, -1, 0, 1, 0x1234, i16::MAX] {
        let mut buf = [0u8; 2];
        write_i16(&mut buf, v);
        assert_eq!(read_i16(&mut &buf[..]), v);
        write_i16_sw(&mut buf, v);
        assert_eq!(read_i16_sw(&mut &buf[..]), v);
    }
    for v in [0u64, 1, 0x0102_0304_0506_0708, u64::MAX] {
        let mut buf = [0u8; 8];
        write_u64(&mut buf, v);
        assert_eq!(read_u64(&mut &buf[..]), v);
        write_u64_sw(&mut buf, v);
        assert_eq!(read_u64_sw(&mut &buf[..]), v);
    }
}

#[test]
fn i24_write_read_modulo() {
    let mut buf = [0u8; 3];
    write_i24(&mut buf, 0x123456);
    assert_eq!(read_i24(&mut &buf[..]), 0x123456);
    write_i24(&mut buf, -2);
    assert_eq!(read_i24(&mut &buf[..]), 0xfffffe);
    write_i24_sw(&mut buf, 0x7f000001);
    assert_eq!(buf, [0, 0, 1]);
    assert_eq!(read_i24_sw(&mut &buf[..]), 1);
}

#[test]
fn read_advances_and_write_leaves_rest() {
    let arr = [1u8, 2, 3, 4, 5];
    let mut ptr = &arr[..];
    read_i16(&mut ptr);
    assert_eq!(ptr, &[3, 4, 5]);
    let mut buf = [9u8; 5];
    let rest = write_i16(&mut buf, 0x0201);
    assert_eq!(rest.len(), 3);
    assert_eq!(buf, [1, 2, 9, 9, 9]);
}

#[test]
fn ebcdic_text() {
    let mut text = [0xC3u8, 0xF1, 0x40, 0xC1, 0x81, 0x4B];
    ebcdic_to_ascii(&mut text);
    assert_eq!(&text, b"C1 Aa.");
    let mut header = [0xC3u8, 0xF1];
    text_header_to_ascii(&mut header);
    assert_eq!(&header, b"C1");
    let mut ascii = *b"C 1";
    text_header_to_ascii(&mut ascii);
    assert_eq!(&ascii, b"C 1");
}

#[test]
fn default_text_header_size() {
    assert_eq!(DEFAULT_TEXT_HEADER.len(), TEXT_HEADER_SIZE);
    assert!(DEFAULT_TEXT_HEADER.starts_with("C 1 CLIENT"));
}

#[test]
fn header_values_read_write_leaves_bytes() {
    let names = [TRC_SEQ_SEGY, OFFSET, SAMP_NUM, EXT_SOU_X, ADD_TRC_HDR_NUM, YEAR];
    let original: Vec<u8> = (0..480).map(|i| (i * 7 + 3) as u8).collect();
    for swapped in [false, true] {
        let vals = read_header_values(&original, &names, swapped);
        let mut buf = original.clone();
        write_header_values(&mut buf, &names, &vals, swapped);
        assert_eq!(buf, original);
    }
}

#[test]
fn samples_read_write_leaves_bytes() {
    let original: Vec<u8> = (0..50).map(|i| (i * 37 + 11) as u8).collect();
    for code in [1i16, 2, 3, 5, 6, 7, 8, 9, 10, 11, 12, 15, 16] {
        let f = sample_format(code).unwrap();
        for swapped in [false, true] {
            let n = original.len() / bytes_per_sample(f);
            let samples = decode_samples(&original, n, f, swapped);
            let mut buf = original.clone();
            encode_samples(&mut buf, &samples, f, swapped);
            assert_eq!(buf, original);
        }
    }
}

#[test]
fn whole_headers_for_many_names() {
    assert!(!reads_headers_whole(2));
    assert!(!reads_headers_whole(5));
    assert!(reads_headers_whole(6));
    assert!(reads_headers_whole(90));
}
