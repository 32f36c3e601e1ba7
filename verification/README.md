# h264_reader

A reader for H.264 bitstream syntax, written in Verus: every parsing function states in its
contract, over spec functions on bits and bytes, exactly what it returns for each input, and
Verus proves that it does.

## Layout

- `src/rbsp.rs`: emulation-prevention removal and insertion, the bit reader (`u(n)`, `ue(v)`,
  `se(v)`), the bit writer, and the laws that tie reading to writing.
- `src/annexb.rs`, `src/push/`: splitting an Annex B byte stream into NAL units, fed in
  arbitrary chunks.
- `src/avcc.rs`: the AVC decoder configuration record of MP4 files.
- `src/nal/`: NAL unit headers and the parameter sets (SPS, PPS, subset SPS, SPS extension),
  the access unit delimiter, SEI messages, slice headers and macroblock-layer parsing.
  `src/nal/sps_roundtrip.rs` proves that writing a parsed sequence parameter set gives back
  the RBSP it was parsed from.
- `tests/`: tests on concrete streams.
- `app/`: what cannot be verified (frame rates, which are floating point).
