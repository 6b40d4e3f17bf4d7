//! The traces of a file: how many bytes each takes, the rows of header values
//! and samples that reading them in turn gives, the bytes that writing rows in
//! turn appends, and what writing gives back of reading a whole file.
use crate::bytes::lemma_place;
use crate::common::{
    bytes_per_sample, field_end, field_fits, field_format, field_offset,
    has_fixed_length_traces_spec, sample_value_format, samples_per_trace_spec, trace_header_field,
    HdrValue,
    SampleFormat, SampleValue, TRACE_HEADER_SIZE,
};
use crate::reader::{
    binary_header_from_bytes, decode_samples, endianness_of, header_value_at, read_header_values,
};
use crate::roundtrip::{
    law_binary_header_read_write, lemma_hdr_value_bytes_back, lemma_sample_bytes_back, samples_of,
};
use crate::roundtrip::sample_value_storable;
use crate::writer::{
    binary_header_bytes, encode_samples, hdr_value_bytes, header_values_fit, headers_written,
    samples_written, write_header_values,
};
use vstd::prelude::*;

verus! {

/// The bytes of the trace headers of a trace with `n_add` additional trace
/// headers after the first.
pub open spec fn trace_headers_size(n_add: int) -> int {
    TRACE_HEADER_SIZE * (n_add + 1)
}

/// The bytes of the trace headers and of the samples of one trace: in a file
/// of fixed-length traces (`fixed`) it has the `max_add_trc_hdrs` additional
/// headers of the binary header, otherwise the `add_trc_hdr_num` of its own
/// first header; its samples take `samp_num` times `bytes_per_sample` bytes.
/// Numbers read from a damaged file may make either length negative; it is
/// then given as it is, for the caller to refuse.
pub fn trace_block_lens(
    fixed: bool,
    max_add_trc_hdrs: i32,
    add_trc_hdr_num: i32,
    samp_num: i32,
    bytes_per_sample: usize,
) -> (lens: (i64, i64))
    requires
        bytes_per_sample <= 8,
    ensures
        lens.0 == trace_headers_size(
            if fixed {
                max_add_trc_hdrs as int
            } else {
                add_trc_hdr_num as int
            },
        ),
        lens.1 == samp_num * bytes_per_sample,
{
    let n_add = if fixed {
        max_add_trc_hdrs
    } else {
        add_trc_hdr_num
    };
    let hdr_len = TRACE_HEADER_SIZE as i64 * (n_add as i64 + 1);
    assert(-0x8000_0000 * 8 <= samp_num * bytes_per_sample <= 0x7fff_ffff * 8) by (nonlinear_arith)
        requires
            -0x8000_0000 <= samp_num <= 0x7fff_ffff,
            bytes_per_sample <= 8,
    ;
    let samp_len = samp_num as i64 * bytes_per_sample as i64;
    (hdr_len, samp_len)
}

/// Whether byte `j` of trace headers lies within one of the values named
/// `names`.
pub open spec fn names_cover(names: Seq<i32>, j: int) -> bool {
    exists|i: int| 0 <= i < names.len() && field_offset(names[i]) <= j < #[trigger] field_end(names[i])
}

/// Storing in `buf` the values that the trace headers `h` hold under `names`
/// copies the bytes of `h` that those values occupy and leaves the others of
/// `buf` as they were.
#[verifier::spinoff_prover]
#[verifier::rlimit(40)]
pub proof fn lemma_headers_copied(
    buf: Seq<u8>,
    h: Seq<u8>,
    names: Seq<i32>,
    vals: Seq<HdrValue>,
    swapped: bool,
)
    requires
        buf.len() == h.len(),
        names.len() <= vals.len(),
        forall|i: int|
            0 <= i < names.len() ==> trace_header_field(#[trigger] names[i]) is Some && field_fits(
                names[i],
                h.len() as int,
            ) && vals[i] == header_value_at(h, names[i], swapped),
    ensures
        headers_written(buf, names, vals, swapped).len() == buf.len(),
        forall|j: int|
            0 <= j < buf.len() ==> #[trigger] headers_written(buf, names, vals, swapped)[j] == if names_cover(
                names,
                j,
            ) {
                h[j]
            } else {
                buf[j]
            },
    decreases names.len(),
{
    if names.len() > 0 {
        let k = names.len() - 1;
        let prefix = names.drop_last();
        assert forall|i: int| 0 <= i < prefix.len() implies trace_header_field(#[trigger] prefix[i])
            is Some && field_fits(prefix[i], h.len() as int) && vals[i] == header_value_at(
            h,
            prefix[i],
            swapped,
        ) by {
            assert(prefix[i] == names[i]);
        }
        lemma_headers_copied(buf, h, prefix, vals, swapped);
        let w = headers_written(buf, prefix, vals, swapped);
        let name = names[k];
        assert(trace_header_field(name) is Some && field_fits(name, h.len() as int));
        let off = field_offset(name);
        let e = field_end(name);
        lemma_hdr_value_bytes_back(h.subrange(off, e), field_format(name), swapped);
        let p = hdr_value_bytes(vals[k], swapped);
        assert(p == h.subrange(off, e));
        lemma_place(w, off, p, 0, 0);
        let r = headers_written(buf, names, vals, swapped);
        assert(r == crate::bytes::place(w, off, p));
        assert forall|j: int| 0 <= j < buf.len() implies #[trigger] r[j] == if names_cover(names, j) {
            h[j]
        } else {
            buf[j]
        } by {
            if off <= j < e {
                assert(names_cover(names, j)) by {
                    assert(field_offset(names[k]) <= j < field_end(names[k]));
                }
                assert(r[j] == p[j - off]);
            } else {
                assert(r[j] == w[j]);
                if names_cover(names, j) {
                    let i = choose|i: int|
                        0 <= i < names.len() && field_offset(names[i]) <= j < #[trigger] field_end(
                            names[i],
                        );
                    assert(i != k);
                    assert(prefix[i] == names[i]);
                    assert(names_cover(prefix, j));
                } else {
                    if names_cover(prefix, j) {
                        let i = choose|i: int|
                            0 <= i < prefix.len() && field_offset(prefix[i]) <= j
                                < #[trigger] field_end(prefix[i]);
                        assert(prefix[i] == names[i]);
                        assert(field_offset(names[i]) <= j < field_end(names[i]));
                    }
                }
            }
        }
    }
}

/// Storing in `buf` the first `n` samples of format `f` that the sample bytes
/// `s` hold copies the bytes of `s` that those samples occupy and leaves the
/// rest of `buf` as it was.
pub proof fn lemma_samples_copied(buf: Seq<u8>, s: Seq<u8>, n: nat, f: SampleFormat, swapped: bool)
    requires
        buf.len() == s.len(),
        n * bytes_per_sample(f) <= s.len(),
    ensures
        samples_written(buf, samples_of(s, n, f, swapped), f, swapped) == s.take(
            n * bytes_per_sample(f),
        ) + buf.skip(n * bytes_per_sample(f)),
    decreases n,
{
    let bps = bytes_per_sample(f) as int;
    if n == 0 {
        assert(s.take(0) + buf.skip(0) =~= buf);
    } else {
        let k = (n - 1) as nat;
        assert(k * bps + bps <= s.len()) by (nonlinear_arith)
            requires
                k + 1 == n,
                n * bps <= s.len(),
        ;
        assert(k * bps >= 0) by (nonlinear_arith)
            requires
                bps > 0,
        ;
        assert(n * bps == k * bps + bps) by (nonlinear_arith)
            requires
                k + 1 == n,
        ;
        lemma_samples_copied(buf, s, k, f, swapped);
        let all = samples_of(s, n, f, swapped);
        assert(all.drop_last() =~= samples_of(s, k, f, swapped));
        let a = k * bps;
        let piece = s.subrange(a, a + bps);
        lemma_sample_bytes_back(piece, f, swapped);
        assert(all[k as int] == crate::reader::sample_from_bytes(piece, f, swapped));
        let w = s.take(a) + buf.skip(a);
        assert(samples_written(buf, all, f, swapped) == crate::bytes::place(w, a, piece));
        assert(crate::bytes::place(w, a, piece) =~= s.take(a + bps) + buf.skip(a + bps));
    }
}

/// The bytes of one trace with `hlen` bytes of trace headers and `n` samples
/// of format `f`.
pub open spec fn fixed_trace_len(hlen: nat, n: nat, f: SampleFormat) -> int {
    hlen + n * bytes_per_sample(f)
}

/// The row that reading the trace at the start of `t` gives: the values named
/// `names` in its `hlen` bytes of trace headers, then its `n` samples of
/// format `f`.
pub open spec fn trace_row(
    t: Seq<u8>,
    names: Seq<i32>,
    hlen: nat,
    n: nat,
    f: SampleFormat,
    swapped: bool,
) -> (Seq<HdrValue>, Seq<SampleValue>) {
    let h = t.take(hlen as int);
    (
        names.map_values(|name: i32| header_value_at(h, name, swapped)),
        samples_of(t.subrange(hlen as int, fixed_trace_len(hlen, n, f)), n, f, swapped),
    )
}

/// The rows that reading the traces `t` of a file of fixed-length traces in
/// turn gives, from the start: each trace takes `hlen` bytes of trace headers
/// and then `n` samples of format `f`; its row holds the values named `names`
/// in its headers and its samples. Reading stops before a trace that `t`
/// does not hold whole.
pub open spec fn fixed_traces_read(
    t: Seq<u8>,
    names: Seq<i32>,
    hlen: nat,
    n: nat,
    f: SampleFormat,
    swapped: bool,
) -> Seq<(Seq<HdrValue>, Seq<SampleValue>)>
    decreases t.len(),
{
    let tl = fixed_trace_len(hlen, n, f);
    if tl <= 0 || t.len() < tl {
        Seq::empty()
    } else {
        seq![trace_row(t, names, hlen, n, f, swapped)] + fixed_traces_read(
            t.skip(tl),
            names,
            hlen,
            n,
            f,
            swapped,
        )
    }
}

/// The bytes that writing the traces `rows` in turn appends: for each row, the
/// trace header buffer once its values are stored under `names`, then the
/// sample buffer once its samples of format `f` are stored. Both buffers carry
/// over from one trace to the next, starting as `hdr` and `samp`.
pub open spec fn traces_written(
    hdr: Seq<u8>,
    samp: Seq<u8>,
    names: Seq<i32>,
    rows: Seq<(Seq<HdrValue>, Seq<SampleValue>)>,
    f: SampleFormat,
    swapped: bool,
) -> Seq<u8>
    decreases rows.len(),
{
    if rows.len() == 0 {
        Seq::empty()
    } else {
        let h = headers_written(hdr, names, rows[0].0, swapped);
        let s = samples_written(samp, rows[0].1, f, swapped);
        h + s + traces_written(h, s, names, rows.drop_first(), f, swapped)
    }
}

/// Writing back, into buffers that are zero where no named value lies, the
/// rows read from whole fixed-length traces whose headers are zero where no
/// named value lies gives back the traces.
#[verifier::spinoff_prover]
#[verifier::rlimit(40)]
proof fn lemma_traces_read_write(
    t: Seq<u8>,
    hdr: Seq<u8>,
    samp: Seq<u8>,
    names: Seq<i32>,
    hlen: nat,
    n: nat,
    f: SampleFormat,
    swapped: bool,
)
    requires
        hlen > 0,
        hdr.len() == hlen,
        samp.len() == n * bytes_per_sample(f),
        t.len() as int % fixed_trace_len(hlen, n, f) == 0,
        forall|i: int|
            0 <= i < names.len() ==> trace_header_field(#[trigger] names[i]) is Some && field_fits(
                names[i],
                hlen as int,
            ),
        forall|j: int| 0 <= j < hlen && !names_cover(names, j) ==> #[trigger] hdr[j] == 0,
        forall|p: int|
            0 <= p < t.len() && p % fixed_trace_len(hlen, n, f) < hlen && !names_cover(
                names,
                p % fixed_trace_len(hlen, n, f),
            ) ==> #[trigger] t[p] == 0,
    ensures
        traces_written(hdr, samp, names, fixed_traces_read(t, names, hlen, n, f, swapped), f, swapped)
            == t,
    decreases t.len(),
{
    let slen = n * bytes_per_sample(f);
    let tl = fixed_trace_len(hlen, n, f);
    assert(n * bytes_per_sample(f) >= 0) by (nonlinear_arith)
        requires
            bytes_per_sample(f) > 0,
    ;
    let rows = fixed_traces_read(t, names, hlen, n, f, swapped);
    if t.len() == 0 {
        assert(rows.len() == 0);
        assert(traces_written(hdr, samp, names, rows, f, swapped) =~= t);
    } else {
        if t.len() < tl {
            vstd::arithmetic::div_mod::lemma_small_mod(t.len(), tl as nat);
        }
        assert(t.len() >= tl);
        let h = t.take(hlen as int);
        let s = t.subrange(hlen as int, tl);
        let rest = t.skip(tl);
        let vals = names.map_values(|name: i32| header_value_at(h, name, swapped));
        let row = (vals, samples_of(s, n, f, swapped));
        let later = fixed_traces_read(rest, names, hlen, n, f, swapped);
        assert(rows == seq![row] + later);
        assert(rows[0] == row);
        assert(rows.drop_first() =~= later);
        // the headers come back
        assert forall|i: int|
            0 <= i < names.len() implies trace_header_field(#[trigger] names[i]) is Some
            && field_fits(names[i], h.len() as int) && vals[i] == header_value_at(
            h,
            names[i],
            swapped,
        ) by {}
        lemma_headers_copied(hdr, h, names, vals, swapped);
        let hw = headers_written(hdr, names, vals, swapped);
        assert forall|j: int| 0 <= j < hlen implies #[trigger] hw[j] == h[j] by {
            if !names_cover(names, j) {
                vstd::arithmetic::div_mod::lemma_small_mod(j as nat, tl as nat);
                assert(t[j] == 0);
            }
        }
        assert(hw =~= h);
        // the samples come back
        lemma_samples_copied(samp, s, n, f, swapped);
        let sw = samples_written(samp, row.1, f, swapped);
        assert(sw =~= s);
        // the later traces come back
        assert(rest.len() as int % tl == 0) by {
            vstd::arithmetic::div_mod::lemma_mod_sub_multiples_vanish(t.len() as int, tl);
            assert(-tl + t.len() == rest.len());
        }
        assert forall|j: int| 0 <= j < hlen && !names_cover(names, j) implies #[trigger] h[j] == 0 by {
            vstd::arithmetic::div_mod::lemma_small_mod(j as nat, tl as nat);
            assert(t[j] == 0);
        }
        assert forall|p: int|
            0 <= p < rest.len() && p % tl < hlen && !names_cover(names, p % tl) implies #[trigger] rest[p]
            == 0 by {
            vstd::arithmetic::div_mod::lemma_mod_add_multiples_vanish(p, tl);
            assert(rest[p] == t[tl + p]);
        }
        lemma_traces_read_write(rest, h, s, names, hlen, n, f, swapped);
        assert(traces_written(hdr, samp, names, rows, f, swapped) == hw + sw + traces_written(
            hw,
            sw,
            names,
            rows.drop_first(),
            f,
            swapped,
        ));
        assert(h + s + rest =~= t);
    }
}

/// The bytes that writing a file appends after its textual header: its
/// binary header `bh`, in the byte order of `swapped`, then the traces `rows`,
/// written from a zero trace header buffer of the headers that `bh` gives
/// each trace and a zero sample buffer of `samples_per_trace_spec(bh)`
/// samples of format `f`.
pub open spec fn file_written(
    text: Seq<u8>,
    bh: crate::common::BinaryHeader,
    names: Seq<i32>,
    rows: Seq<(Seq<HdrValue>, Seq<SampleValue>)>,
    f: SampleFormat,
    swapped: bool,
) -> Seq<u8> {
    let hlen = trace_headers_size(bh.max_add_trc_hdrs as int);
    let slen = samples_per_trace_spec(bh) * bytes_per_sample(f);
    text + binary_header_bytes(bh, swapped) + traces_written(
        Seq::new(hlen as nat, |j: int| 0u8),
        Seq::new(slen as nat, |j: int| 0u8),
        names,
        rows,
        f,
        swapped,
    )
}

/// Law: reading every trace of a file and writing the file again, with its
/// textual header, its binary header and the rows read, gives back the file
/// byte for byte. This holds of a file whose binary header has the endianness
/// constant `0` or `0x01020304` and zero unassigned bytes, whose traces all
/// have the length that it gives (fixed-length traces, at least the first
/// trace header, no extended textual headers and no trailer stanzas), whose
/// trace data is a whole number of traces, and whose trace headers are zero
/// wherever none of the named values lies (the writer starts each file from
/// zero trace headers). The rows are read from the byte after the binary
/// header, as `first_trace_pos` gives it, to the end of the file, as
/// `end_of_data_pos` gives it.
#[verifier::spinoff_prover]
pub proof fn law_file_read_write(file: Seq<u8>, names: Seq<i32>, f: SampleFormat)
    requires
        file.len() >= 3600,
        ({
            let b = file.subrange(3200, 3600);
            let swapped = endianness_of(b) == 0;
            let bh = binary_header_from_bytes(b, swapped);
            let hlen = trace_headers_size(bh.max_add_trc_hdrs as int);
            let tl = hlen + samples_per_trace_spec(bh) * bytes_per_sample(f);
            &&& endianness_of(b) == 0 || endianness_of(b) == 0x01020304
            &&& forall|i: int| 3300 <= i < 3500 || 3532 <= i < 3600 ==> file[i] == 0
            &&& crate::common::sample_format_spec(bh.format_code) == Some(f)
            &&& has_fixed_length_traces_spec(bh)
            &&& bh.ext_text_hdrs_num == 0
            &&& bh.trailer_stanza_num == 0
            &&& bh.max_add_trc_hdrs >= 0
            &&& samples_per_trace_spec(bh) >= 0
            &&& (file.len() - 3600) % tl == 0
            &&& forall|i: int|
                0 <= i < names.len() ==> trace_header_field(#[trigger] names[i]) is Some
                    && field_fits(names[i], hlen)
            &&& forall|p: int|
                3600 <= p < file.len() && (p - 3600) % tl < hlen && !names_cover(
                    names,
                    (p - 3600) % tl,
                ) ==> #[trigger] file[p] == 0
        }),
    ensures
        ({
            let b = file.subrange(3200, 3600);
            let swapped = endianness_of(b) == 0;
            let bh = binary_header_from_bytes(b, swapped);
            let rows = fixed_traces_read(
                file.skip(3600),
                names,
                trace_headers_size(bh.max_add_trc_hdrs as int) as nat,
                samples_per_trace_spec(bh) as nat,
                f,
                swapped,
            );
            file_written(file.take(3200), bh, names, rows, f, swapped) == file
        }),
{
    let b = file.subrange(3200, 3600);
    let swapped = endianness_of(b) == 0;
    let bh = binary_header_from_bytes(b, swapped);
    let hlen = trace_headers_size(bh.max_add_trc_hdrs as int);
    let n = samples_per_trace_spec(bh);
    assert(binary_header_bytes(bh, swapped) == b) by {
        assert(forall|i: int| 100 <= i < 300 || 332 <= i < 400 ==> b[i] == file[3200 + i]);
        law_binary_header_read_write(b);
    }
    let rows = fixed_traces_read(file.skip(3600), names, hlen as nat, n as nat, f, swapped);
    let zh = Seq::new(hlen as nat, |j: int| 0u8);
    let zs = Seq::new((n * bytes_per_sample(f)) as nat, |j: int| 0u8);
    assert(traces_written(zh, zs, names, rows, f, swapped) == file.skip(3600)) by {
        lemma_file_traces_read_write(file, names, hlen as nat, n as nat, f, swapped);
    }
    assert(file_written(file.take(3200), bh, names, rows, f, swapped) == file.take(3200) + b
        + file.skip(3600));
    assert(file.take(3200) + b + file.skip(3600) =~= file);
}

/// The trace data of a file, read and written again, comes back.
proof fn lemma_file_traces_read_write(
    file: Seq<u8>,
    names: Seq<i32>,
    hlen: nat,
    n: nat,
    f: SampleFormat,
    swapped: bool,
)
    requires
        file.len() >= 3600,
        hlen > 0,
        (file.len() - 3600) % fixed_trace_len(hlen, n, f) == 0,
        forall|i: int|
            0 <= i < names.len() ==> trace_header_field(#[trigger] names[i]) is Some && field_fits(
                names[i],
                hlen as int,
            ),
        forall|p: int|
            3600 <= p < file.len() && (p - 3600) % fixed_trace_len(hlen, n, f) < hlen
                && !names_cover(names, (p - 3600) % fixed_trace_len(hlen, n, f)) ==> #[trigger] file[p]
                == 0,
    ensures
        traces_written(
            Seq::new(hlen, |j: int| 0u8),
            Seq::new((n * bytes_per_sample(f)) as nat, |j: int| 0u8),
            names,
            fixed_traces_read(file.skip(3600), names, hlen, n, f, swapped),
            f,
            swapped,
        ) == file.skip(3600),
{
    let tl = fixed_trace_len(hlen, n, f);
    let t = file.skip(3600);
    assert forall|p: int|
        0 <= p < t.len() && p % tl < hlen && !names_cover(names, p % tl) implies #[trigger] t[p]
        == 0 by {
        assert(t[p] == file[3600 + p]);
        assert((3600 + p) - 3600 == p);
    }
    assert(n * bytes_per_sample(f) >= 0) by (nonlinear_arith)
        requires
            bytes_per_sample(f) > 0,
    ;
    lemma_traces_read_write(
        t,
        Seq::new(hlen, |j: int| 0u8),
        Seq::new((n * bytes_per_sample(f)) as nat, |j: int| 0u8),
        names,
        hlen,
        n,
        f,
        swapped,
    );
}

/// Whether the rows `rows` can be written as traces with `hlen` bytes of trace
/// headers and `n` samples of format `f` and read back: each holds a value
/// for each name, in its format and within the trace headers, and `n`
/// storable samples of format `f`.
pub open spec fn rows_writable(
    rows: Seq<(Seq<HdrValue>, Seq<SampleValue>)>,
    names: Seq<i32>,
    hlen: nat,
    n: nat,
    f: SampleFormat,
) -> bool {
    forall|r: int|
        0 <= r < rows.len() ==> {
            &&& (#[trigger] rows[r]).0.len() == names.len()
            &&& header_values_fit(names, rows[r].0, hlen as int)
            &&& rows[r].1.len() == n
            &&& forall|i: int|
                0 <= i < n ==> sample_value_format(#[trigger] rows[r].1[i]) == f
                    && sample_value_storable(rows[r].1[i])
        }
}

/// Law: the rows that writing appends as traces, reading them in turn gives
/// back, whatever the buffers held before, when the names are distinct and
/// the rows can be written and read back.
#[verifier::spinoff_prover]
#[verifier::rlimit(40)]
pub proof fn law_traces_write_read(
    hdr: Seq<u8>,
    samp: Seq<u8>,
    names: Seq<i32>,
    rows: Seq<(Seq<HdrValue>, Seq<SampleValue>)>,
    hlen: nat,
    n: nat,
    f: SampleFormat,
    swapped: bool,
)
    requires
        hlen > 0,
        hdr.len() == hlen,
        samp.len() == n * bytes_per_sample(f),
        forall|i: int, j: int| 0 <= i < j < names.len() ==> names[i] != names[j],
        rows_writable(rows, names, hlen, n, f),
    ensures
        traces_written(hdr, samp, names, rows, f, swapped).len() == rows.len() * fixed_trace_len(
            hlen,
            n,
            f,
        ),
        fixed_traces_read(traces_written(hdr, samp, names, rows, f, swapped), names, hlen, n, f, swapped)
            == rows,
    decreases rows.len(),
{
    let tl = fixed_trace_len(hlen, n, f);
    let w = traces_written(hdr, samp, names, rows, f, swapped);
    assert(n * bytes_per_sample(f) >= 0) by (nonlinear_arith)
        requires
            bytes_per_sample(f) > 0,
    ;
    if rows.len() == 0 {
        assert(fixed_traces_read(w, names, hlen, n, f, swapped) =~= rows);
    } else {
        let row = rows[0];
        let later = rows.drop_first();
        assert(rows_writable(later, names, hlen, n, f)) by {
            assert forall|r: int| 0 <= r < later.len() implies later[r] == rows[r + 1] by {}
        }
        assert(row.0.len() == names.len() && header_values_fit(names, row.0, hlen as int));
        let h = headers_written(hdr, names, row.0, swapped);
        let s = samples_written(samp, row.1, f, swapped);
        crate::roundtrip::lemma_headers_written_len(hdr, names, row.0, swapped);
        crate::roundtrip::law_header_values_write_read(hdr, names, row.0, swapped);
        assert forall|i: int|
            0 <= i < row.1.len() implies sample_value_format(#[trigger] row.1[i]) == f
            && sample_value_storable(row.1[i]) by {}
        crate::roundtrip::law_samples_write_read(samp, row.1, f, swapped);
        law_traces_write_read(h, s, names, later, hlen, n, f, swapped);
        let wl = traces_written(h, s, names, later, f, swapped);
        assert(w == h + s + wl);
        assert(later.len() * tl + tl == rows.len() * tl) by (nonlinear_arith)
            requires
                later.len() + 1 == rows.len(),
        ;
        assert(w.take(hlen as int) =~= h);
        assert(w.subrange(hlen as int, tl) =~= s);
        assert(w.skip(tl) =~= wl);
        let vals = names.map_values(|name: i32| header_value_at(h, name, swapped));
        assert(vals =~= row.0);
        assert(samples_of(s, n, f, swapped) =~= row.1);
        assert(fixed_traces_read(w, names, hlen, n, f, swapped) == seq![row] + later);
        assert(seq![row] + later =~= rows);
    }
}

/// Law: a file written from a textual header, a binary header whose
/// endianness constant is `0` or `0x01020304` and rows that can be written,
/// under distinct names, reads back: its first 3200 bytes are the textual
/// header, its binary header decodes, in the byte order that its endianness
/// constant gives, as the one written, its trace data is a whole number of
/// traces, and reading them gives back the rows.
#[verifier::spinoff_prover]
pub proof fn law_file_write_read(
    text: Seq<u8>,
    bh: crate::common::BinaryHeader,
    names: Seq<i32>,
    rows: Seq<(Seq<HdrValue>, Seq<SampleValue>)>,
    f: SampleFormat,
)
    requires
        text.len() == 3200,
        bh.endianness == 0 || bh.endianness == 0x01020304,
        bh.max_add_trc_hdrs >= 0,
        samples_per_trace_spec(bh) >= 0,
        forall|i: int, j: int| 0 <= i < j < names.len() ==> names[i] != names[j],
        rows_writable(
            rows,
            names,
            trace_headers_size(bh.max_add_trc_hdrs as int) as nat,
            samples_per_trace_spec(bh) as nat,
            f,
        ),
    ensures
        ({
            let swapped = bh.endianness == 0;
            let file = file_written(text, bh, names, rows, f, swapped);
            let hlen = trace_headers_size(bh.max_add_trc_hdrs as int) as nat;
            let n = samples_per_trace_spec(bh) as nat;
            let b = file.subrange(3200, 3600);
            &&& file.len() == 3600 + rows.len() * fixed_trace_len(hlen, n, f)
            &&& file.take(3200) == text
            &&& crate::reader::swapped_for_spec(endianness_of(b)) == Some(swapped)
            &&& binary_header_from_bytes(b, swapped) == bh
            &&& fixed_traces_read(file.skip(3600), names, hlen, n, f, swapped) == rows
        }),
{
    let swapped = bh.endianness == 0;
    let hlen = trace_headers_size(bh.max_add_trc_hdrs as int) as nat;
    let n = samples_per_trace_spec(bh) as nat;
    let zh = Seq::new(hlen, |j: int| 0u8);
    let zs = Seq::new((samples_per_trace_spec(bh) * bytes_per_sample(f)) as nat, |j: int| 0u8);
    assert(n * bytes_per_sample(f) >= 0) by (nonlinear_arith)
        requires
            bytes_per_sample(f) > 0,
    ;
    let hb = binary_header_bytes(bh, swapped);
    assert(hb.len() == 400 && crate::reader::swapped_for_spec(endianness_of(hb)) == Some(swapped)
        && binary_header_from_bytes(hb, swapped) == bh) by {
        crate::roundtrip::law_binary_header_write_read(bh);
    }
    let w = traces_written(zh, zs, names, rows, f, swapped);
    assert(w.len() == rows.len() * fixed_trace_len(hlen, n, f) && fixed_traces_read(
        w,
        names,
        hlen,
        n,
        f,
        swapped,
    ) == rows) by {
        law_traces_write_read(zh, zs, names, rows, hlen, n, f, swapped);
    }
    let file = file_written(text, bh, names, rows, f, swapped);
    assert(file == text + hb + w);
    assert(file.take(3200) =~= text);
    assert(file.subrange(3200, 3600) =~= hb);
    assert(file.skip(3600) =~= w);
}

/// The rows `rows` as sequences of header values and of samples.
pub open spec fn rows_view(rows: Seq<(Vec<HdrValue>, Vec<SampleValue>)>) -> Seq<
    (Seq<HdrValue>, Seq<SampleValue>),
> {
    rows.map_values(|r: (Vec<HdrValue>, Vec<SampleValue>)| (r.0@, r.1@))
}

/// Reads the trace at the start of `block`: the values named `names` in its
/// `hlen` bytes of trace headers, then its `n` samples of format `f`.
pub fn read_trace(
    block: &[u8],
    names: &[i32],
    hlen: usize,
    n: usize,
    f: SampleFormat,
    swapped: bool,
) -> (row: (Vec<HdrValue>, Vec<SampleValue>))
    requires
        forall|i: int| 0 <= i < names@.len() ==> trace_header_field(#[trigger] names@[i]) is Some,
        hlen + n * bytes_per_sample(f) <= block@.len(),
    ensures
        (row.0@, row.1@) == trace_row(block@, names@, hlen as nat, n as nat, f, swapped),
{
    let bps = bytes_per_sample(f);
    let len = block.len();
    assert(n * bps <= len);
    let slen = n * bps;
    let h = vstd::slice::slice_subrange(block, 0, hlen);
    let vals = read_header_values(h, names, swapped);
    let s = vstd::slice::slice_subrange(block, hlen, hlen + slen);
    assert(n * bps <= s@.len());
    let samples = decode_samples(s, n, f, swapped);
    proof {
        let want = trace_row(block@, names@, hlen as nat, n as nat, f, swapped);
        assert(h@ =~= block@.take(hlen as int));
        assert(s@ =~= block@.subrange(hlen as int, fixed_trace_len(hlen as nat, n as nat, f)));
        assert(vals@ =~= want.0);
        assert(samples@ =~= want.1);
    }
    (vals, samples)
}

/// Reads in turn, from the start, the traces `t` of a file of fixed-length
/// traces, each of `hlen` bytes of trace headers and `n` samples of format
/// `f`, up to the last trace that `t` holds whole: for each trace, the values
/// named `names` and its samples.
#[verifier::spinoff_prover]
#[verifier::rlimit(40)]
pub fn read_fixed_traces(
    t: &[u8],
    names: &[i32],
    hlen: usize,
    n: usize,
    f: SampleFormat,
    swapped: bool,
) -> (rows: Vec<(Vec<HdrValue>, Vec<SampleValue>)>)
    requires
        forall|i: int| 0 <= i < names@.len() ==> trace_header_field(#[trigger] names@[i]) is Some,
        hlen + n * bytes_per_sample(f) <= usize::MAX,
    ensures
        rows_view(rows@) == fixed_traces_read(t@, names@, hlen as nat, n as nat, f, swapped),
{
    let ghost whole = fixed_traces_read(t@, names@, hlen as nat, n as nat, f, swapped);
    let tl = hlen + n * bytes_per_sample(f);
    let mut rows: Vec<(Vec<HdrValue>, Vec<SampleValue>)> = Vec::new();
    if tl == 0 {
        assert(rows_view(rows@) =~= whole);
        return rows;
    }
    let mut pos: usize = 0;
    assert(t@.skip(0) =~= t@);
    assert(rows_view(rows@) + whole =~= whole);
    while tl <= t.len() - pos
        invariant
            pos <= t@.len(),
            tl == fixed_trace_len(hlen as nat, n as nat, f),
            tl > 0,
            whole == fixed_traces_read(t@, names@, hlen as nat, n as nat, f, swapped),
            forall|i: int| 0 <= i < names@.len() ==> trace_header_field(#[trigger] names@[i]) is Some,
            rows_view(rows@) + fixed_traces_read(
                t@.skip(pos as int),
                names@,
                hlen as nat,
                n as nat,
                f,
                swapped,
            ) == whole,
        decreases t@.len() - pos,
    {
        let block = vstd::slice::slice_subrange(t, pos, pos + tl);
        let row = read_trace(block, names, hlen, n, f, swapped);
        proof {
            let rest = t@.skip(pos as int);
            let r = trace_row(rest, names@, hlen as nat, n as nat, f, swapped);
            assert(block@.take(hlen as int) =~= rest.take(hlen as int));
            assert(block@.subrange(hlen as int, tl as int) =~= rest.subrange(hlen as int, tl as int));
            assert((row.0@, row.1@) == r);
            assert(rest.skip(tl as int) =~= t@.skip(pos + tl));
            assert(fixed_traces_read(rest, names@, hlen as nat, n as nat, f, swapped) == seq![r]
                + fixed_traces_read(t@.skip(pos + tl), names@, hlen as nat, n as nat, f, swapped));
        }
        let ghost before = rows@;
        rows.push(row);
        proof {
            assert(rows_view(rows@) =~= rows_view(before).push((row.0@, row.1@)));
            assert(rows_view(before) + (seq![(row.0@, row.1@)] + fixed_traces_read(
                t@.skip(pos + tl),
                names@,
                hlen as nat,
                n as nat,
                f,
                swapped,
            )) =~= rows_view(rows@) + fixed_traces_read(
                t@.skip(pos + tl),
                names@,
                hlen as nat,
                n as nat,
                f,
                swapped,
            ));
        }
        pos = pos + tl;
    }
    assert(fixed_traces_read(t@.skip(pos as int), names@, hlen as nat, n as nat, f, swapped)
        == Seq::<(Seq<HdrValue>, Seq<SampleValue>)>::empty());
    assert(rows_view(rows@) =~= whole);
    rows
}

/// Writes one trace: stores its header values `vals` under `names` in the
/// trace header buffer and its samples of format `f` from the start of the
/// sample buffer; the two buffers then hold the bytes of the trace.
pub fn encode_trace(
    hdr_buf: &mut [u8],
    samp_buf: &mut [u8],
    names: &[i32],
    vals: &[HdrValue],
    samples: &[SampleValue],
    f: SampleFormat,
    swapped: bool,
)
    requires
        header_values_fit(names@, vals@, old(hdr_buf)@.len() as int),
        samples@.len() * bytes_per_sample(f) <= old(samp_buf)@.len(),
        forall|i: int| 0 <= i < samples@.len() ==> sample_value_format(#[trigger] samples@[i]) == f,
    ensures
        final(hdr_buf)@ == headers_written(old(hdr_buf)@, names@, vals@, swapped),
        final(samp_buf)@ == samples_written(old(samp_buf)@, samples@, f, swapped),
{
    write_header_values(hdr_buf, names, vals, swapped);
    encode_samples(samp_buf, samples, f, swapped);
}

/// Whether each of the rows `rows` can be written with trace header and
/// sample buffers of `hlen` and `slen` bytes: its header values fit under
/// `names`, and its samples, of format `f`, fit in the sample buffer.
pub open spec fn rows_fit(
    rows: Seq<(Vec<HdrValue>, Vec<SampleValue>)>,
    names: Seq<i32>,
    hlen: int,
    slen: int,
    f: SampleFormat,
) -> bool {
    forall|r: int|
        0 <= r < rows.len() ==> {
            &&& header_values_fit(names, (#[trigger] rows[r]).0@, hlen)
            &&& rows[r].1@.len() * bytes_per_sample(f) <= slen
            &&& forall|i: int|
                0 <= i < rows[r].1@.len() ==> sample_value_format(#[trigger] rows[r].1@[i]) == f
        }
}

/// Storing samples of format `f` within the sample bytes keeps their length.
proof fn lemma_samples_written_len(
    buf: Seq<u8>,
    samples: Seq<SampleValue>,
    f: SampleFormat,
    swapped: bool,
)
    requires
        samples.len() * bytes_per_sample(f) <= buf.len(),
        forall|i: int| 0 <= i < samples.len() ==> sample_value_format(#[trigger] samples[i]) == f,
    ensures
        samples_written(buf, samples, f, swapped).len() == buf.len(),
    decreases samples.len(),
{
    if samples.len() > 0 {
        let k = samples.len() - 1;
        let bps = bytes_per_sample(f) as int;
        assert(k * bps + bps <= buf.len()) by (nonlinear_arith)
            requires
                k + 1 == samples.len(),
                samples.len() * bps <= buf.len(),
        ;
        assert(k * bps >= 0) by (nonlinear_arith)
            requires
                bps > 0,
                k >= 0,
        ;
        let prefix = samples.drop_last();
        assert forall|i: int| 0 <= i < prefix.len() implies sample_value_format(#[trigger] prefix[i])
            == f by {
            assert(prefix[i] == samples[i]);
        }
        lemma_samples_written_len(buf, prefix, f, swapped);
        assert(sample_value_format(samples[k]) == f);
        crate::writer::lemma_sample_bytes_len(samples[k], swapped);
        lemma_place(samples_written(buf, prefix, f, swapped), k * bps, crate::writer::sample_bytes(samples[k], swapped), 0, 0);
    }
}

/// Appends `b` to `out`.
fn append_bytes(out: &mut Vec<u8>, b: &[u8])
    ensures
        final(out)@ == old(out)@ + b@,
{
    let ghost start = out@;
    let mut i: usize = 0;
    while i < b.len()
        invariant
            i <= b@.len(),
            out@ == start + b@.take(i as int),
        decreases b@.len() - i,
    {
        out.push(b[i]);
        i = i + 1;
        assert(out@ =~= start + b@.take(i as int));
    }
    assert(b@.take(b@.len() as int) =~= b@);
}

/// Writes the traces `rows` in turn: the bytes of each trace are the trace
/// header buffer once its values are stored under `names`, then the sample
/// buffer once its samples of format `f` are stored. Both buffers carry over
/// from one trace to the next.
#[verifier::spinoff_prover]
#[verifier::rlimit(40)]
pub fn encode_traces(
    hdr_buf: &mut [u8],
    samp_buf: &mut [u8],
    names: &[i32],
    rows: &[(Vec<HdrValue>, Vec<SampleValue>)],
    f: SampleFormat,
    swapped: bool,
) -> (out: Vec<u8>)
    requires
        rows_fit(rows@, names@, old(hdr_buf)@.len() as int, old(samp_buf)@.len() as int, f),
    ensures
        out@ == traces_written(old(hdr_buf)@, old(samp_buf)@, names@, rows_view(rows@), f, swapped),
{
    let ghost whole = traces_written(hdr_buf@, samp_buf@, names@, rows_view(rows@), f, swapped);
    let ghost hlen = hdr_buf@.len();
    let ghost slen = samp_buf@.len();
    let mut out: Vec<u8> = Vec::new();
    let mut i: usize = 0;
    assert(rows_view(rows@).skip(0) =~= rows_view(rows@));
    assert(out@ + whole =~= whole);
    while i < rows.len()
        invariant
            i <= rows@.len(),
            hdr_buf@.len() == hlen,
            samp_buf@.len() == slen,
            rows_fit(rows@, names@, hlen as int, slen as int, f),
            whole == traces_written(
                old(hdr_buf)@,
                old(samp_buf)@,
                names@,
                rows_view(rows@),
                f,
                swapped,
            ),
            out@ + traces_written(
                hdr_buf@,
                samp_buf@,
                names@,
                rows_view(rows@).skip(i as int),
                f,
                swapped,
            ) == whole,
        decreases rows@.len() - i,
    {
        let ghost later = rows_view(rows@).skip(i as int);
        assert(later[0] == (rows@[i as int].0@, rows@[i as int].1@));
        assert(later.drop_first() =~= rows_view(rows@).skip(i + 1));
        let ghost h0 = hdr_buf@;
        let ghost s0 = samp_buf@;
        assert(header_values_fit(names@, rows@[i as int].0@, hlen as int));
        encode_trace(
            hdr_buf,
            samp_buf,
            names,
            rows[i].0.as_slice(),
            rows[i].1.as_slice(),
            f,
            swapped,
        );
        proof {
            crate::roundtrip::lemma_headers_written_len(h0, names@, rows@[i as int].0@, swapped);
            lemma_samples_written_len(s0, rows@[i as int].1@, f, swapped);
        }
        let ghost o0 = out@;
        append_bytes(&mut out, hdr_buf);
        append_bytes(&mut out, samp_buf);
        assert(out@ + traces_written(hdr_buf@, samp_buf@, names@, rows_view(rows@).skip(i + 1), f, swapped)
            =~= o0 + traces_written(h0, s0, names@, later, f, swapped));
        i = i + 1;
    }
    assert(traces_written(hdr_buf@, samp_buf@, names@, rows_view(rows@).skip(i as int), f, swapped)
        =~= Seq::<u8>::empty());
    assert(out@ =~= whole);
    out
}

} // verus!
