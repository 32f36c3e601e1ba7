use h264_reader::annexb::AnnexBReader;
use h264_reader::nal::{Nal, RefNal};
use h264_reader::push::{AccumulatedNalHandler, NalAccumulator, NalFragmentHandler, NalInterest};

/// Collects every complete NAL, asking for each to be buffered.
struct BufferAll {
    nals: Vec<Vec<u8>>,
}

impl AccumulatedNalHandler for BufferAll {
    fn nal(&mut self, nal: RefNal<'_>) -> NalInterest {
        if nal.is_complete() {
            let mut buf = Vec::new();
            nal.reader().read_to_end(&mut buf).unwrap();
            self.nals.push(buf);
        }
        NalInterest::Buffer
    }
}

/// Records what is available on the first push of each NAL, buffering nothing.
struct FirstChunks {
    nals: Vec<Vec<u8>>,
}

impl AccumulatedNalHandler for FirstChunks {
    fn nal(&mut self, nal: RefNal<'_>) -> NalInterest {
        self.nals.push(nal.reader().fill_buf().unwrap().to_owned());
        NalInterest::Ignore
    }
}

#[test]
fn accumulate() {
    // Try buffering everything.
    let mut accumulator = NalAccumulator::new(BufferAll { nals: Vec::new() });
    accumulator.nal_fragment(&[], false);
    accumulator.nal_fragment(&[], true);
    accumulator.nal_fragment(&[&[0b0101_0001], &[1]], true);
    accumulator.nal_fragment(&[&[0b0101_0001]], false);
    accumulator.nal_fragment(&[], false);
    accumulator.nal_fragment(&[&[2]], true);
    accumulator.nal_fragment(&[&[0b0101_0001]], false);
    accumulator.nal_fragment(&[], false);
    accumulator.nal_fragment(&[&[3]], false);
    accumulator.nal_fragment(&[], true);
    assert_eq!(
        accumulator.handler().nals,
        &[&[0b0101_0001, 1][..], &[0b0101_0001, 2][..], &[0b0101_0001, 3][..],]
    );

    // Try buffering nothing and see what's given on the first push.
    let mut accumulator = NalAccumulator::new(FirstChunks { nals: Vec::new() });
    accumulator.nal_fragment(&[], false);
    accumulator.nal_fragment(&[], true);
    accumulator.nal_fragment(&[&[0b0101_0001, 1]], true);
    accumulator.nal_fragment(&[&[0b0101_0001]], false);
    accumulator.nal_fragment(&[], false);
    accumulator.nal_fragment(&[&[2]], true);
    accumulator.nal_fragment(&[&[0b0101_0001]], false);
    accumulator.nal_fragment(&[], false);
    accumulator.nal_fragment(&[&[3]], false);
    accumulator.nal_fragment(&[], true);
    assert_eq!(
        accumulator.into_handler().nals,
        &[&[0b0101_0001, 1][..], &[0b0101_0001][..], &[0b0101_0001][..],]
    );
}

#[test]
fn annexb_accumulate_splits_units() {
    let data = [0, 0, 0, 1, 0x67, 0x42, 0, 0, 1, 0x68, 0xce, 0, 0, 0, 1, 0x65, 0x88];
    let mut r = AnnexBReader::accumulate(BufferAll { nals: Vec::new() });
    r.push(&data[..7]);
    r.push(&data[7..]);
    r.reset();
    assert_eq!(r.nal_handler_ref().nals, vec![vec![0x67, 0x42], vec![0x68, 0xce], vec![0x65, 0x88]]);
    r.nal_handler_mut().nals.clear();
    assert!(r.into_nal_handler().nals.is_empty());
}

/// Counts the calls it receives and the completeness of each NAL.
struct CountCalls {
    calls: Vec<(Vec<u8>, bool)>,
}

impl AccumulatedNalHandler for CountCalls {
    fn nal(&mut self, nal: RefNal<'_>) -> NalInterest {
        let mut buf = Vec::new();
        let _ = nal.reader().read_to_end(&mut buf);
        self.calls.push((buf, nal.is_complete()));
        NalInterest::Buffer
    }
}

#[test]
fn accumulator_skips_empty_non_final_fragments() {
    let mut accumulator = NalAccumulator::new(CountCalls { calls: Vec::new() });
    accumulator.nal_fragment(&[&[0x65]], false);
    accumulator.nal_fragment(&[], false);
    accumulator.nal_fragment(&[&[7, 8]], false);
    accumulator.nal_fragment(&[], true);
    accumulator.nal_fragment(&[], true);
    let calls = accumulator.into_handler().calls;
    assert_eq!(calls.len(), 3);
    assert_eq!(calls[0].1, false);
    assert_eq!(calls[1].0, vec![0x65, 7, 8]);
    assert_eq!(calls[1].1, false);
    assert_eq!(calls[2], (vec![0x65, 7, 8], true));
}
