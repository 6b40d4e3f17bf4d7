# segy

Reading and writing SEG-Y seismic data files, verified with Verus.

`src/` is the verified library: it decodes and encodes the bytes of a file.

- `bytes` — the model of the byte encodings (values stored least or most
  significant byte first, two's complement) and its laws.
- `reader` — decoding: integers of 1 to 8 bytes in either byte order, the
  binary file header, trace header values and samples, and the positions of
  the trace data in a file.
- `writer` — encoding of the same, and the checks of a header to write.
- `roundtrip` — what reading gives back of writing, for the binary header,
  trace header values and samples.
- `traces` — the bytes each trace takes (`trace_block_lens`), reading one
  trace (`read_trace`) and every whole trace of a buffer of fixed-length
  traces (`read_fixed_traces`), writing one trace (`encode_trace`) and a run
  of traces (`encode_traces`). Their contracts equal the spec functions
  `trace_row`, `fixed_traces_read` and `traces_written`, over which the
  whole-file laws are stated: a file read and written again comes back byte
  for byte (`law_file_read_write`), and a written file reads back as what was
  written (`law_file_write_read`). The laws are over those spec functions;
  the file loops of `app/` call `read_trace` (fixed-length traces) and
  `encode_trace` for each trace, but the loops themselves (where they stop,
  the file cursor) are not checked against the laws.
- `common` — sizes, the binary header type, the trace header table, the sample
  formats; `trc_hdr_names` — the names of the trace header values; `utils` —
  EBCDIC text to ASCII; `error` — the errors.

`app/` holds the file access around the library (`Reader`, `Writer`), the
conversion of header values and samples to and from the caller's number types
(floating point included), and the error type that carries I/O failures.
