use segy::common::{
    bytes_per_sample, sample_format, samples_per_trace, BinaryHeader, HdrValue, SampleValue,
    BIN_HEADER_SIZE, TEXT_HEADER_SIZE,
};
use segy::reader::{
    end_of_data_pos, first_trace_pos, header_byte_order, parse_binary_header,
    read_header_values,
};
use segy::traces::{encode_trace, encode_traces, read_fixed_traces, read_trace, trace_block_lens};
use segy::writer::{encode_binary_header, trace_headers_len, write_header_values};

/// Names 0 to 89 of the trace header table, as the writer's own test reads them.
fn first_names() -> Vec<i32> {
    (0..90).collect()
}

fn file_header(endianness: i32) -> BinaryHeader {
    let mut bh = BinaryHeader::new();
    bh.samp_int = 2000;
    bh.samp_num = 5;
    bh.format_code = 2;
    bh.fix_length_trc_flag = 1;
    bh.segy_maj_ver = 1;
    bh.max_add_trc_hdrs = 0;
    bh.endianness = endianness;
    bh
}

/// Writes a file as the writer does: textual header, binary header, then the
/// traces from zero trace header and sample buffers.
fn write_file(text: &[u8], bh: &BinaryHeader, names: &[i32], rows: &[(Vec<HdrValue>, Vec<SampleValue>)]) -> Vec<u8> {
    let mut file = text.to_vec();
    file.extend_from_slice(&encode_binary_header(bh).unwrap());
    let swapped = header_byte_order(&file[TEXT_HEADER_SIZE..TEXT_HEADER_SIZE + BIN_HEADER_SIZE]).unwrap();
    let format = sample_format(bh.format_code).unwrap();
    let mut hdr_buf = vec![0u8; trace_headers_len(bh.max_add_trc_hdrs)];
    let mut samp_buf = vec![0u8; samples_per_trace(bh) as usize * bytes_per_sample(format)];
    file.extend_from_slice(&encode_traces(&mut hdr_buf, &mut samp_buf, names, rows, format, swapped));
    file
}

/// Reads every trace of a file of fixed-length traces as the reader does.
fn read_file(file: &[u8], names: &[i32]) -> (BinaryHeader, Vec<(Vec<HdrValue>, Vec<SampleValue>)>) {
    let bin = &file[TEXT_HEADER_SIZE..TEXT_HEADER_SIZE + BIN_HEADER_SIZE];
    let swapped = header_byte_order(bin).unwrap();
    let bh = parse_binary_header(bin).unwrap();
    let format = sample_format(bh.format_code).unwrap();
    let n = samples_per_trace(&bh);
    let (hlen, _) = trace_block_lens(true, bh.max_add_trc_hdrs, 0, n, bytes_per_sample(format));
    let start = first_trace_pos(bh.ext_text_hdrs_num) as usize;
    let end = end_of_data_pos(file.len() as u64, bh.trailer_stanza_num).unwrap() as usize;
    let rows = read_fixed_traces(&file[start..end], names, hlen as usize, n as usize, format, swapped);
    (bh, rows)
}

fn sample_rows() -> Vec<(Vec<HdrValue>, Vec<SampleValue>)> {
    let names = first_names();
    let mut rows = Vec::new();
    for t in 0..3i32 {
        let mut hdr = vec![0u8; 240];
        write_header_values(&mut hdr, &names[..2], &[HdrValue::I32(t + 1), HdrValue::I32(100 + t)], false);
        let vals = read_header_values(&hdr, &names, false);
        let samples = (0..5).map(|i| SampleValue::I32(i * 1000 - t)).collect();
        rows.push((vals, samples));
    }
    rows
}

#[test]
fn test_trace_block_lens() {
    assert_eq!(trace_block_lens(true, 0, 7, 501, 4), (240, 2004));
    assert_eq!(trace_block_lens(true, 2, 7, 10, 8), (720, 80));
    assert_eq!(trace_block_lens(false, 2, 1, 10, 3), (480, 30));
    assert_eq!(trace_block_lens(false, 5, -1, 0, 1), (0, 0));
    assert_eq!(trace_block_lens(false, 0, -2, -3, 2), (-240, -6));
}

#[test]
fn test_file_write_read() {
    for endianness in [0x01020304, 0] {
        let text = vec![0x40u8; TEXT_HEADER_SIZE];
        let bh = file_header(endianness);
        let names = first_names();
        let rows = sample_rows();
        let file = write_file(&text, &bh, &names, &rows);
        assert_eq!(file.len(), 3600 + 3 * (240 + 20));
        assert_eq!(&file[..TEXT_HEADER_SIZE], &text[..]);
        let (read_bh, read_rows) = read_file(&file, &names);
        assert_eq!(read_bh, bh);
        assert_eq!(read_rows, rows);
    }
}

#[test]
fn test_file_read_write() {
    for endianness in [0x01020304, 0] {
        let text: Vec<u8> = (0..TEXT_HEADER_SIZE).map(|i| (i % 251) as u8).collect();
        let names = first_names();
        let file = write_file(&text, &file_header(endianness), &names, &sample_rows());
        let (bh, rows) = read_file(&file, &names);
        let again = write_file(&file[..TEXT_HEADER_SIZE], &bh, &names, &rows);
        assert_eq!(again, file);
    }
}

#[test]
fn test_read_trace() {
    let mut block = vec![0u8; 240 + 6];
    block[4..8].copy_from_slice(&[0, 0, 0, 9]);
    block[240..246].copy_from_slice(&[0, 1, 0xff, 0xfe, 0x12, 0x34]);
    let (vals, samples) = read_trace(&block, &[1, 0], 240, 3, sample_format(3).unwrap(), false);
    assert_eq!(vals, vec![HdrValue::I32(0x09000000), HdrValue::I32(0)]);
    assert_eq!(samples, vec![SampleValue::I16(0x100), SampleValue::I16(-257), SampleValue::I16(0x3412)]);
    let (vals, samples) = read_trace(&block, &[1], 240, 2, sample_format(3).unwrap(), true);
    assert_eq!(vals, vec![HdrValue::I32(9)]);
    assert_eq!(samples, vec![SampleValue::I16(1), SampleValue::I16(-2)]);
}

#[test]
fn test_read_fixed_traces_partial() {
    // two whole traces of 240 + 2 bytes and a partial third one
    let mut t = vec![0u8; 2 * 242 + 100];
    t[240] = 7;
    t[242 + 240] = 8;
    let rows = read_fixed_traces(&t, &[0], 240, 2, sample_format(16).unwrap(), false);
    assert_eq!(rows.len(), 2);
    assert_eq!(rows[0].1, vec![SampleValue::U8(7), SampleValue::U8(0)]);
    assert_eq!(rows[1].1, vec![SampleValue::U8(8), SampleValue::U8(0)]);
}

#[test]
fn test_encode_trace_carries_buffers() {
    let mut hdr = vec![0u8; 240];
    let mut samp = vec![0u8; 8];
    let f = sample_format(2).unwrap();
    encode_trace(&mut hdr, &mut samp, &[0, 1], &[HdrValue::I32(1), HdrValue::I32(2)], &[SampleValue::I32(5), SampleValue::I32(6)], f, false);
    assert_eq!(&hdr[0..8], &[1, 0, 0, 0, 2, 0, 0, 0]);
    assert_eq!(samp, vec![5, 0, 0, 0, 6, 0, 0, 0]);
    // a second trace with one sample keeps the second sample of the first
    encode_trace(&mut hdr, &mut samp, &[1], &[HdrValue::I32(3)], &[SampleValue::I32(-1)], f, false);
    assert_eq!(&hdr[0..8], &[1, 0, 0, 0, 3, 0, 0, 0]);
    assert_eq!(samp, vec![0xff, 0xff, 0xff, 0xff, 6, 0, 0, 0]);
    let out = encode_traces(&mut vec![0u8; 240], &mut vec![0u8; 4], &[0], &[(vec![HdrValue::I32(4)], vec![SampleValue::I32(1)]), (vec![HdrValue::I32(5)], vec![])], f, true);
    assert_eq!(out.len(), 2 * 244);
    assert_eq!(&out[0..4], &[0, 0, 0, 4]);
    assert_eq!(&out[240..244], &[0, 0, 0, 1]);
    assert_eq!(&out[244..248], &[0, 0, 0, 5]);
    assert_eq!(&out[484..488], &[0, 0, 0, 1]);
}
