//! Writing a sequence parameter set that was read gives back the bits it was read from.
//!
//! Each lemma here states, for one syntax structure, that a successful read consumed exactly
//! the bits that the writer produces for the value read.

use vstd::prelude::*;
use crate::nal::sps::{
    aspect_ratio_info_bits, chroma_loc_info_bits, chroma_loc_info_writable, colour_description_bits,
    frame_cropping_bits, frame_cropping_writable, frame_mbs_flags_bits, lemma_aspect_ratio_idc_roundtrip,
    lemma_video_format_roundtrip, overscan_bits, spec_aspect_ratio_info, spec_chroma_loc_info,
    spec_colour_description, spec_frame_cropping, spec_frame_mbs_flags, spec_overscan, spec_timing_info,
    spec_video_format, spec_video_format_value, spec_video_signal_type, timing_info_bits, video_signal_type_bits,
    video_signal_type_fits, bitstream_restrictions_bits, bitstream_restrictions_writable, cpb_spec_writable,
    cpb_specs_bits, hrd_bits, hrd_fits, hrd_writable, spec_bitstream_restrictions, spec_cpb_specs,
    spec_hrd_parameters, spec_read_u8, spec_vui_parameters, vui_bits, vui_fits, vui_writable, CpbSpec, SpsError,
    VuiParametersView, spec_vui_head, spec_vui_body, spec_hrd_body, vui_head_bits, vui_tail_bits, AspectRatioInfo,
    OverscanAppropriate, VideoSignalType, ChromaLocInfo, TimingInfo, HrdParametersView, BitstreamRestrictions,
    scale_delta, scaling_deltas_bits, spec_fill_list, spec_scaling_list, spec_scaling_lists, scaling_lists_bits,
    scaling_list_bits, spec_scaling_lists_8x8, scaling_lists_8x8_bits, spec_seq_scaling_matrix, scaling_matrix_bits,
    spec_opt_scaling_matrix, SeqScalingMatrixView, ChromaFormat, spec_chroma_info, chroma_info_bits,
    chroma_info_writable, spec_bit_depth_minus8, lemma_chroma_format_roundtrip, spec_chroma_format,
    spec_chroma_format_idc, spec_has_chroma_info, spec_offsets_for_ref_frame, se_list_bits, spec_pic_order_cnt,
    pic_order_cnt_bits, pic_order_cnt_writable, PicOrderCntTypeView, spec_sps_ids, spec_sps_middle, spec_sps_frame,
    spec_log2_max_frame_num_minus4, spec_seq_parameter_set_data, sps_data_bits, sps_writable, sps_head_bits,
    sps_frame_bits, SeqParameterSetView, FrameMbsFlags, FrameCropping, ChromaInfoView, spec_seq_parameter_set,
    sps_rbsp_bits,
};
use crate::rbsp::{
    bit_at, bits_of, lemma_read_bit_reads, lemma_read_bits_reads, lemma_read_se_reads, lemma_read_ue_reads,
    lemma_reads_concat, lemma_reads_empty, reads, se_bits, spec_read_bit, spec_read_bits, spec_read_se,
    spec_read_ue, trailing_bits, ue_bits, value_bits, zero_bits, BitReaderError, BitStream, ErrorKind, one_from,
    zeros_run, spec_finish_rbsp, lemma_finish_rbsp_bits, lemma_bits_of_injective,
};

verus! {

/// A stream position within its data.
pub open spec fn in_stream(s: BitStream) -> bool {
    0 <= s.pos <= s.len_bits()
}

/// Reading keeps a stream within its data.
proof fn lemma_reads_in_stream(s: BitStream, b: Seq<bool>, s2: BitStream)
    requires
        in_stream(s),
        reads(s, b, s2),
    ensures
        in_stream(s2),
        s2.data == s.data,
        s2.end == s.end,
{
    reveal(crate::rbsp::bits_at);
}

/// The frame and field coding flags were read from the bits the writer produces for them.
pub proof fn lemma_frame_mbs_flags_reads(s: BitStream)
    requires
        in_stream(s),
        spec_frame_mbs_flags(s) is Ok,
    ensures
        spec_frame_mbs_flags(s) matches Ok((f, s2)) && reads(s, frame_mbs_flags_bits(f), s2),
{
    reveal(frame_mbs_flags_bits);
    lemma_read_bit_reads(s, "frame_mbs_only_flag");
    let (b, s1) = spec_read_bit(s, "frame_mbs_only_flag")->Ok_0;
    if !b {
        lemma_read_bit_reads(s1, "mb_adaptive_frame_field_flag");
        let (f, s2) = spec_read_bit(s1, "mb_adaptive_frame_field_flag")->Ok_0;
        lemma_reads_concat(s, seq![b], s1, seq![f], s2);
        assert(seq![b] + seq![f] =~= seq![false, f]);
    }
}

/// The frame cropping was read from the bits the writer produces for it, and can be written.
pub proof fn lemma_frame_cropping_reads(s: BitStream)
    requires
        in_stream(s),
        spec_frame_cropping(s) is Ok,
    ensures
        spec_frame_cropping(s) matches Ok((c, s2)) && frame_cropping_writable(c) && reads(s, frame_cropping_bits(c), s2),
{
    reveal(frame_cropping_bits);
    lemma_read_bit_reads(s, "frame_cropping_flag");
    let (present, s1) = spec_read_bit(s, "frame_cropping_flag")->Ok_0;
    if present {
        lemma_read_ue_reads(s1, "left_offset");
        let (l, s2) = spec_read_ue(s1, "left_offset")->Ok_0;
        lemma_read_ue_reads(s2, "right_offset");
        let (rt, s3) = spec_read_ue(s2, "right_offset")->Ok_0;
        lemma_read_ue_reads(s3, "top_offset");
        let (t, s4) = spec_read_ue(s3, "top_offset")->Ok_0;
        lemma_read_ue_reads(s4, "bottom_offset");
        let (b, s5) = spec_read_ue(s4, "bottom_offset")->Ok_0;
        lemma_reads_concat(s, seq![true], s1, ue_bits(l), s2);
        lemma_reads_concat(s, seq![true] + ue_bits(l), s2, ue_bits(rt), s3);
        lemma_reads_concat(s, seq![true] + ue_bits(l) + ue_bits(rt), s3, ue_bits(t), s4);
        lemma_reads_concat(s, seq![true] + ue_bits(l) + ue_bits(rt) + ue_bits(t), s4, ue_bits(b), s5);
    }
}

/// The overscan information was read from the bits the writer produces for it.
pub proof fn lemma_overscan_reads(s: BitStream)
    requires
        in_stream(s),
        spec_overscan(s) is Ok,
    ensures
        spec_overscan(s) matches Ok((o, s2)) && reads(s, overscan_bits(o), s2),
{
    reveal(overscan_bits);
    lemma_read_bit_reads(s, "overscan_info_present_flag");
    let (present, s1) = spec_read_bit(s, "overscan_info_present_flag")->Ok_0;
    if present {
        lemma_read_bit_reads(s1, "overscan_appropriate_flag");
        let (a, s2) = spec_read_bit(s1, "overscan_appropriate_flag")->Ok_0;
        lemma_reads_concat(s, seq![true], s1, seq![a], s2);
        assert(seq![true] + seq![a] =~= seq![true, a]);
    }
}

/// The aspect ratio information was read from the bits the writer produces for it.
pub proof fn lemma_aspect_ratio_info_reads(s: BitStream)
    requires
        in_stream(s),
        spec_aspect_ratio_info(s) is Ok,
    ensures
        spec_aspect_ratio_info(s) matches Ok((a, s2)) && reads(s, aspect_ratio_info_bits(a), s2),
{
    reveal(aspect_ratio_info_bits);
    vstd::arithmetic::power2::lemma2_to64();
    lemma_read_bit_reads(s, "aspect_ratio_info_present_flag");
    let (present, s1) = spec_read_bit(s, "aspect_ratio_info_present_flag")->Ok_0;
    if present {
        lemma_read_bits_reads(s1, 8);
        let (idc, s2) = spec_read_bits(s1, 8)->Some_0;
        lemma_reads_concat(s, seq![true], s1, value_bits(idc, 8), s2);
        if idc == 255 {
            lemma_read_bits_reads(s2, 16);
            let (w, s3) = spec_read_bits(s2, 16)->Some_0;
            lemma_read_bits_reads(s3, 16);
            let (h, s4) = spec_read_bits(s3, 16)->Some_0;
            lemma_reads_concat(s2, value_bits(w, 16), s3, value_bits(h, 16), s4);
            lemma_reads_concat(s, seq![true] + value_bits(idc, 8), s2, value_bits(w, 16) + value_bits(h, 16), s4);
            assert((w as u16) as nat == w);
            assert((h as u16) as nat == h);
        } else {
            lemma_aspect_ratio_idc_roundtrip(idc as u8);
            assert(seq![true] + value_bits(idc, 8) + Seq::<bool>::empty() =~= seq![true] + value_bits(idc, 8));
        }
    }
}

/// The colour description was read from the bits the writer produces for it.
pub proof fn lemma_colour_description_reads(s: BitStream)
    requires
        in_stream(s),
        spec_colour_description(s) is Ok,
    ensures
        spec_colour_description(s) matches Ok((c, s2)) && reads(s, colour_description_bits(c), s2),
{
    reveal(colour_description_bits);
    vstd::arithmetic::power2::lemma2_to64();
    lemma_read_bit_reads(s, "colour_description_present_flag");
    let (present, s1) = spec_read_bit(s, "colour_description_present_flag")->Ok_0;
    if present {
        lemma_read_bits_reads(s1, 8);
        let (cp, s2) = spec_read_bits(s1, 8)->Some_0;
        lemma_read_bits_reads(s2, 8);
        let (tc, s3) = spec_read_bits(s2, 8)->Some_0;
        lemma_read_bits_reads(s3, 8);
        let (mc, s4) = spec_read_bits(s3, 8)->Some_0;
        lemma_reads_concat(s, seq![true], s1, value_bits(cp, 8), s2);
        lemma_reads_concat(s, seq![true] + value_bits(cp, 8), s2, value_bits(tc, 8), s3);
        lemma_reads_concat(s, seq![true] + value_bits(cp, 8) + value_bits(tc, 8), s3, value_bits(mc, 8), s4);
    }
}

/// The video signal type was read from the bits the writer produces for it, and its fields
/// fit their widths.
pub proof fn lemma_video_signal_type_reads(s: BitStream)
    requires
        in_stream(s),
        spec_video_signal_type(s) is Ok,
    ensures
        spec_video_signal_type(s) matches Ok((v, s2)) && video_signal_type_fits(v) && reads(s, video_signal_type_bits(v), s2),
{
    reveal(video_signal_type_bits);
    vstd::arithmetic::power2::lemma2_to64();
    lemma_read_bit_reads(s, "video_signal_type_present_flag");
    let (present, s1) = spec_read_bit(s, "video_signal_type_present_flag")->Ok_0;
    if present {
        lemma_read_bits_reads(s1, 3);
        let (vf, s2) = spec_read_bits(s1, 3)->Some_0;
        lemma_read_bit_reads(s2, "video_full_range_flag");
        let (full, s3) = spec_read_bit(s2, "video_full_range_flag")->Ok_0;
        lemma_colour_description_reads(s3);
        let (cd, s4) = spec_colour_description(s3)->Ok_0;
        lemma_video_format_roundtrip(vf as u8);
        assert(spec_video_format_value(spec_video_format(vf as u8)) == vf);
        lemma_reads_concat(s, seq![true], s1, value_bits(vf, 3), s2);
        lemma_reads_concat(s, seq![true] + value_bits(vf, 3), s2, seq![full], s3);
        lemma_reads_concat(s, seq![true] + value_bits(vf, 3) + seq![full], s3, colour_description_bits(cd), s4);
    }
}

/// The chroma location was read from the bits the writer produces for it, and can be written.
pub proof fn lemma_chroma_loc_info_reads(s: BitStream)
    requires
        in_stream(s),
        spec_chroma_loc_info(s) is Ok,
    ensures
        spec_chroma_loc_info(s) matches Ok((c, s2)) && chroma_loc_info_writable(c) && reads(s, chroma_loc_info_bits(c), s2),
{
    reveal(chroma_loc_info_bits);
    lemma_read_bit_reads(s, "chroma_loc_info_present_flag");
    let (present, s1) = spec_read_bit(s, "chroma_loc_info_present_flag")->Ok_0;
    if present {
        lemma_read_ue_reads(s1, "chroma_sample_loc_type_top_field");
        let (t, s2) = spec_read_ue(s1, "chroma_sample_loc_type_top_field")->Ok_0;
        lemma_read_ue_reads(s2, "chroma_sample_loc_type_bottom_field");
        let (b, s3) = spec_read_ue(s2, "chroma_sample_loc_type_bottom_field")->Ok_0;
        lemma_reads_concat(s, seq![true], s1, ue_bits(t), s2);
        lemma_reads_concat(s, seq![true] + ue_bits(t), s2, ue_bits(b), s3);
    }
}

/// The timing information was read from the bits the writer produces for it.
pub proof fn lemma_timing_info_reads(s: BitStream)
    requires
        in_stream(s),
        spec_timing_info(s) is Ok,
    ensures
        spec_timing_info(s) matches Ok((t, s2)) && reads(s, timing_info_bits(t), s2),
{
    reveal(timing_info_bits);
    vstd::arithmetic::power2::lemma2_to64();
    lemma_read_bit_reads(s, "timing_info_present_flag");
    let (present, s1) = spec_read_bit(s, "timing_info_present_flag")->Ok_0;
    if present {
        lemma_read_bits_reads(s1, 32);
        let (n, s2) = spec_read_bits(s1, 32)->Some_0;
        lemma_read_bits_reads(s2, 32);
        let (t, s3) = spec_read_bits(s2, 32)->Some_0;
        lemma_read_bit_reads(s3, "fixed_frame_rate_flag");
        let (f, s4) = spec_read_bit(s3, "fixed_frame_rate_flag")->Ok_0;
        assert((n as u32) as nat == n);
        assert((t as u32) as nat == t);
        lemma_reads_concat(s, seq![true], s1, value_bits(n, 32), s2);
        lemma_reads_concat(s, seq![true] + value_bits(n, 32), s2, value_bits(t, 32), s3);
        lemma_reads_concat(s, seq![true] + value_bits(n, 32) + value_bits(t, 32), s3, seq![f], s4);
    }
}


/// `n` CPB specifications were read from the bits the writer produces for them.
pub proof fn lemma_cpb_specs_reads(s: BitStream, n: nat)
    requires
        in_stream(s),
        spec_cpb_specs(s, n) is Ok,
    ensures
        spec_cpb_specs(s, n) matches Ok((l, s2)) && l.len() == n
            && (forall|i: int| 0 <= i < l.len() ==> cpb_spec_writable(#[trigger] l[i]))
            && reads(s, cpb_specs_bits(l), s2),
    decreases n,
{
    if n == 0 {
        lemma_reads_empty(s);
    } else {
        let m = (n - 1) as nat;
        lemma_cpb_specs_reads(s, m);
        let (v, s1) = spec_cpb_specs(s, m)->Ok_0;
        lemma_reads_in_stream(s, cpb_specs_bits(v), s1);
        lemma_read_ue_reads(s1, "bit_rate_value_minus1");
        let (b, s2) = spec_read_ue(s1, "bit_rate_value_minus1")->Ok_0;
        lemma_read_ue_reads(s2, "cpb_size_value_minus1");
        let (c, s3) = spec_read_ue(s2, "cpb_size_value_minus1")->Ok_0;
        lemma_read_bit_reads(s3, "cbr_flag");
        let (f, s4) = spec_read_bit(s3, "cbr_flag")->Ok_0;
        let spec = CpbSpec { bit_rate_value_minus1: b, cpb_size_value_minus1: c, cbr_flag: f };
        let l = v.push(spec);
        assert(l.drop_last() =~= v);
        lemma_reads_concat(s, cpb_specs_bits(v), s1, ue_bits(b), s2);
        lemma_reads_concat(s, cpb_specs_bits(v) + ue_bits(b), s2, ue_bits(c), s3);
        lemma_reads_concat(s, cpb_specs_bits(v) + ue_bits(b) + ue_bits(c), s3, seq![f], s4);
        assert forall|i: int| 0 <= i < l.len() implies cpb_spec_writable(#[trigger] l[i]) by {
            if i < v.len() {
                assert(l[i] == v[i]);
            }
        }
    }
}

/// A `u(n)` field of at most 8 bits was read from the `n`-bit representation of its value.
pub proof fn lemma_read_u8_reads(s: BitStream, n: nat, name: &'static str)
    requires
        in_stream(s),
        n <= 8,
        spec_read_u8(s, n, name) is Ok,
    ensures
        spec_read_u8(s, n, name) matches Ok((v, s2)) && (v as nat) < vstd::arithmetic::power2::pow2(n)
            && reads(s, value_bits(v as nat, n), s2),
{
    lemma_read_bits_reads(s, n);
    vstd::arithmetic::power2::lemma2_to64();
    if n < 8 {
        vstd::arithmetic::power2::lemma_pow2_strictly_increases(n, 8);
    }
    let (v, s2) = spec_read_bits(s, n)->Some_0;
    assert((v as u8) as nat == v);
}

/// The HRD parameters were read from the bits the writer produces for them, and can be
/// written.
pub proof fn lemma_hrd_parameters_reads(s: BitStream)
    requires
        in_stream(s),
        spec_hrd_parameters(s) is Ok,
    ensures
        spec_hrd_parameters(s) matches Ok((h, s2, present)) && present == (h is Some) && hrd_fits(h)
            && hrd_writable(h) && reads(s, hrd_bits(h), s2),
{
    reveal(hrd_bits);
    reveal(spec_hrd_body);
    vstd::arithmetic::power2::lemma2_to64();
    lemma_read_bit_reads(s, "hrd_parameters_present_flag");
    let (present, s1) = spec_read_bit(s, "hrd_parameters_present_flag")->Ok_0;
    if present {
        lemma_read_ue_reads(s1, "cpb_cnt_minus1");
        let (cnt, s2) = spec_read_ue(s1, "cpb_cnt_minus1")->Ok_0;
        lemma_read_u8_reads(s2, 4, "bit_rate_scale");
        let (brs, s3) = spec_read_u8(s2, 4, "bit_rate_scale")->Ok_0;
        lemma_read_u8_reads(s3, 4, "cpb_size_scale");
        let (css, s4) = spec_read_u8(s3, 4, "cpb_size_scale")->Ok_0;
        lemma_reads_in_stream(s3, value_bits(css as nat, 4), s4);
        lemma_cpb_specs_reads(s4, (cnt + 1) as nat);
        let (specs, s5) = spec_cpb_specs(s4, (cnt + 1) as nat)->Ok_0;
        lemma_reads_in_stream(s4, cpb_specs_bits(specs), s5);
        lemma_read_u8_reads(s5, 5, "initial_cpb_removal_delay_length_minus1");
        let (a, s6) = spec_read_u8(s5, 5, "initial_cpb_removal_delay_length_minus1")->Ok_0;
        lemma_read_u8_reads(s6, 5, "cpb_removal_delay_length_minus1");
        let (b, s7) = spec_read_u8(s6, 5, "cpb_removal_delay_length_minus1")->Ok_0;
        lemma_read_u8_reads(s7, 5, "dpb_output_delay_length_minus1");
        let (c, s8) = spec_read_u8(s7, 5, "dpb_output_delay_length_minus1")->Ok_0;
        lemma_read_u8_reads(s8, 5, "time_offset_length");
        let (d, s9) = spec_read_u8(s8, 5, "time_offset_length")->Ok_0;
        assert(((specs.len() - 1) as u32) == cnt);
        let b0 = seq![true] + ue_bits(cnt);
        lemma_reads_concat(s, seq![true], s1, ue_bits(cnt), s2);
        let b1 = b0 + value_bits(brs as nat, 4);
        lemma_reads_concat(s, b0, s2, value_bits(brs as nat, 4), s3);
        let b2 = b1 + value_bits(css as nat, 4);
        lemma_reads_concat(s, b1, s3, value_bits(css as nat, 4), s4);
        let b3 = b2 + cpb_specs_bits(specs);
        lemma_reads_concat(s, b2, s4, cpb_specs_bits(specs), s5);
        let b4 = b3 + value_bits(a as nat, 5);
        lemma_reads_concat(s, b3, s5, value_bits(a as nat, 5), s6);
        let b5 = b4 + value_bits(b as nat, 5);
        lemma_reads_concat(s, b4, s6, value_bits(b as nat, 5), s7);
        let b6 = b5 + value_bits(c as nat, 5);
        lemma_reads_concat(s, b5, s7, value_bits(c as nat, 5), s8);
        lemma_reads_concat(s, b6, s8, value_bits(d as nat, 5), s9);
    }
}

/// The bitstream restrictions were read from the bits the writer produces for them, and can
/// be written.
pub proof fn lemma_bitstream_restrictions_reads(s: BitStream, max_num_ref_frames: u32)
    requires
        in_stream(s),
        spec_bitstream_restrictions(s, max_num_ref_frames) is Ok,
    ensures
        spec_bitstream_restrictions(s, max_num_ref_frames) matches Ok((b, s2)) && bitstream_restrictions_writable(b)
            && reads(s, bitstream_restrictions_bits(b), s2),
{
    reveal(bitstream_restrictions_bits);
    reveal(spec_bitstream_restrictions);
    lemma_read_bit_reads(s, "bitstream_restriction_flag");
    let (present, s1) = spec_read_bit(s, "bitstream_restriction_flag")->Ok_0;
    if present {
        lemma_read_bit_reads(s1, "motion_vectors_over_pic_boundaries_flag");
        let (mv, s2) = spec_read_bit(s1, "motion_vectors_over_pic_boundaries_flag")->Ok_0;
        lemma_read_ue_reads(s2, "max_bytes_per_pic_denom");
        let (v1, s3) = spec_read_ue(s2, "max_bytes_per_pic_denom")->Ok_0;
        lemma_read_ue_reads(s3, "max_bits_per_mb_denom");
        let (v2, s4) = spec_read_ue(s3, "max_bits_per_mb_denom")->Ok_0;
        lemma_read_ue_reads(s4, "log2_max_mv_length_horizontal");
        let (v3, s5) = spec_read_ue(s4, "log2_max_mv_length_horizontal")->Ok_0;
        lemma_read_ue_reads(s5, "log2_max_mv_length_vertical");
        let (v4, s6) = spec_read_ue(s5, "log2_max_mv_length_vertical")->Ok_0;
        lemma_read_ue_reads(s6, "max_num_reorder_frames");
        let (v5, s7) = spec_read_ue(s6, "max_num_reorder_frames")->Ok_0;
        lemma_read_ue_reads(s7, "max_dec_frame_buffering");
        let (v6, s8) = spec_read_ue(s7, "max_dec_frame_buffering")->Ok_0;
        lemma_reads_concat(s, seq![true], s1, seq![mv], s2);
        let b1 = seq![true] + seq![mv];
        assert(b1 =~= seq![true, mv]);
        lemma_reads_concat(s, b1, s2, ue_bits(v1), s3);
        lemma_reads_concat(s, b1 + ue_bits(v1), s3, ue_bits(v2), s4);
        lemma_reads_concat(s, b1 + ue_bits(v1) + ue_bits(v2), s4, ue_bits(v3), s5);
        lemma_reads_concat(s, b1 + ue_bits(v1) + ue_bits(v2) + ue_bits(v3), s5, ue_bits(v4), s6);
        lemma_reads_concat(s, b1 + ue_bits(v1) + ue_bits(v2) + ue_bits(v3) + ue_bits(v4), s6, ue_bits(v5), s7);
        lemma_reads_concat(s, b1 + ue_bits(v1) + ue_bits(v2) + ue_bits(v3) + ue_bits(v4) + ue_bits(v5), s7, ue_bits(v6), s8);
    }
}

/// The VUI fields up to the timing information were read from the bits the writer produces
/// for them.
pub proof fn lemma_vui_head_reads(s: BitStream)
    requires
        in_stream(s),
        spec_vui_head(s) is Ok,
    ensures
        spec_vui_head(s) matches Ok(((a, o, vst, cl, t), s2)) && video_signal_type_fits(vst)
            && chroma_loc_info_writable(cl) && reads(s, aspect_ratio_info_bits(a) + overscan_bits(o)
            + video_signal_type_bits(vst) + chroma_loc_info_bits(cl) + timing_info_bits(t), s2),
{
    reveal(spec_vui_head);
    lemma_aspect_ratio_info_reads(s);
    let (a, s1) = spec_aspect_ratio_info(s)->Ok_0;
    lemma_reads_in_stream(s, aspect_ratio_info_bits(a), s1);
    lemma_overscan_reads(s1);
    let (o, s2) = spec_overscan(s1)->Ok_0;
    lemma_reads_in_stream(s1, overscan_bits(o), s2);
    lemma_video_signal_type_reads(s2);
    let (vst, s3) = spec_video_signal_type(s2)->Ok_0;
    lemma_reads_in_stream(s2, video_signal_type_bits(vst), s3);
    lemma_chroma_loc_info_reads(s3);
    let (cl, s4) = spec_chroma_loc_info(s3)->Ok_0;
    lemma_reads_in_stream(s3, chroma_loc_info_bits(cl), s4);
    lemma_timing_info_reads(s4);
    let (t, s5) = spec_timing_info(s4)->Ok_0;
    let h0 = aspect_ratio_info_bits(a);
    lemma_reads_concat(s, h0, s1, overscan_bits(o), s2);
    let h1 = h0 + overscan_bits(o);
    lemma_reads_concat(s, h1, s2, video_signal_type_bits(vst), s3);
    let h2 = h1 + video_signal_type_bits(vst);
    lemma_reads_concat(s, h2, s3, chroma_loc_info_bits(cl), s4);
    let h3 = h2 + chroma_loc_info_bits(cl);
    lemma_reads_concat(s, h3, s4, timing_info_bits(t), s5);
}

/// Reading six pieces in turn reads their concatenation.
proof fn lemma_reads_chain5(
    s: BitStream,
    a: Seq<bool>,
    s1: BitStream,
    b: Seq<bool>,
    s2: BitStream,
    c: Seq<bool>,
    s3: BitStream,
    d: Seq<bool>,
    s4: BitStream,
    e: Seq<bool>,
    s5: BitStream,
    f: Seq<bool>,
    s6: BitStream,
)
    requires
        reads(s, a, s1),
        reads(s1, b, s2),
        reads(s2, c, s3),
        reads(s3, d, s4),
        reads(s4, e, s5),
        reads(s5, f, s6),
    ensures
        reads(s, a + b + c + d + e + f, s6),
{
    lemma_reads_concat(s, a, s1, b, s2);
    lemma_reads_concat(s, a + b, s2, c, s3);
    lemma_reads_concat(s, a + b + c, s3, d, s4);
    lemma_reads_concat(s, a + b + c + d, s4, e, s5);
    lemma_reads_concat(s, a + b + c + d + e, s5, f, s6);
}

/// The VUI body read from its parts.
proof fn lemma_vui_body_parts(
    s: BitStream,
    max_num_ref_frames: u32,
    head: (Option<AspectRatioInfo>, OverscanAppropriate, Option<VideoSignalType>, Option<ChromaLocInfo>, Option<TimingInfo>),
    s1: BitStream,
    nal: Option<HrdParametersView>,
    s2: BitStream,
    p1: bool,
    vcl: Option<HrdParametersView>,
    s3: BitStream,
    p2: bool,
    low: Option<bool>,
    s4: BitStream,
    ps: bool,
    s5: BitStream,
    br: Option<BitstreamRestrictions>,
    s6: BitStream,
)
    requires
        spec_vui_head(s) == Ok::<_, BitReaderError>((head, s1)),
        spec_hrd_parameters(s1) == Ok::<_, SpsError>((nal, s2, p1)),
        spec_hrd_parameters(s2) == Ok::<_, SpsError>((vcl, s3, p2)),
        p1 || p2 ==> (spec_read_bit(s3, "low_delay_hrd_flag") matches Ok((f, sf)) && low == Some(f) && s4 == sf),
        !(p1 || p2) ==> low is None && s4 == s3,
        spec_read_bit(s4, "pic_struct_present_flag") == Ok::<_, BitReaderError>((ps, s5)),
        spec_bitstream_restrictions(s5, max_num_ref_frames) == Ok::<_, SpsError>((br, s6)),
    ensures
        spec_vui_body(s, max_num_ref_frames) == Ok::<_, SpsError>((VuiParametersView {
            aspect_ratio_info: head.0,
            overscan_appropriate: head.1,
            video_signal_type: head.2,
            chroma_loc_info: head.3,
            timing_info: head.4,
            nal_hrd_parameters: nal,
            vcl_hrd_parameters: vcl,
            low_delay_hrd_flag: low,
            pic_struct_present_flag: ps,
            bitstream_restrictions: br,
        }, s6)),
{
    reveal(spec_vui_body);
}

/// The VUI parameters after their presence flag were read from the bits the writer produces
/// for them, and can be written.
#[verifier::rlimit(100)]
#[verifier::spinoff_prover]
pub proof fn lemma_vui_body_reads(s: BitStream, max_num_ref_frames: u32)
    requires
        in_stream(s),
        spec_vui_body(s, max_num_ref_frames) is Ok,
    ensures
        spec_vui_body(s, max_num_ref_frames) matches Ok((v, s2)) && vui_fits(Some(v)) && vui_writable(Some(v))
            && reads(s, vui_head_bits(v) + vui_tail_bits(v), s2),
{
    assert(spec_vui_head(s) is Ok) by {
        reveal(spec_vui_body);
    }
    lemma_vui_head_reads(s);
    let (hd, s1) = spec_vui_head(s)->Ok_0;
    let (a, o, vst, cl, t) = hd;
    let head = aspect_ratio_info_bits(a) + overscan_bits(o) + video_signal_type_bits(vst) + chroma_loc_info_bits(cl)
        + timing_info_bits(t);
    lemma_reads_in_stream(s, head, s1);
    assert(spec_hrd_parameters(s1) is Ok) by {
        reveal(spec_vui_body);
    }
    lemma_hrd_parameters_reads(s1);
    let (nal, s2, p1) = spec_hrd_parameters(s1)->Ok_0;
    lemma_reads_in_stream(s1, hrd_bits(nal), s2);
    assert(spec_hrd_parameters(s2) is Ok) by {
        reveal(spec_vui_body);
    }
    lemma_hrd_parameters_reads(s2);
    let (vcl, s3, p2) = spec_hrd_parameters(s2)->Ok_0;
    lemma_reads_in_stream(s2, hrd_bits(vcl), s3);
    let ghost low_bits: Seq<bool>;
    let ghost s4: BitStream;
    let ghost low: Option<bool>;
    if p1 || p2 {
        assert(spec_read_bit(s3, "low_delay_hrd_flag") is Ok) by {
            reveal(spec_vui_body);
        }
        lemma_read_bit_reads(s3, "low_delay_hrd_flag");
        let (f, sf) = spec_read_bit(s3, "low_delay_hrd_flag")->Ok_0;
        low_bits = seq![f];
        s4 = sf;
        low = Some(f);
    } else {
        low_bits = Seq::empty();
        s4 = s3;
        low = None;
        lemma_reads_empty(s3);
    }
    lemma_reads_in_stream(s3, low_bits, s4);
    assert(spec_read_bit(s4, "pic_struct_present_flag") is Ok) by {
        reveal(spec_vui_body);
    }
    lemma_read_bit_reads(s4, "pic_struct_present_flag");
    let (ps, s5) = spec_read_bit(s4, "pic_struct_present_flag")->Ok_0;
    lemma_reads_in_stream(s4, seq![ps], s5);
    assert(spec_bitstream_restrictions(s5, max_num_ref_frames) is Ok) by {
        reveal(spec_vui_body);
    }
    lemma_bitstream_restrictions_reads(s5, max_num_ref_frames);
    let (br, s6) = spec_bitstream_restrictions(s5, max_num_ref_frames)->Ok_0;
    lemma_vui_body_parts(s, max_num_ref_frames, hd, s1, nal, s2, p1, vcl, s3, p2, low, s4, ps, s5, br, s6);
    let v = VuiParametersView {
        aspect_ratio_info: a,
        overscan_appropriate: o,
        video_signal_type: vst,
        chroma_loc_info: cl,
        timing_info: t,
        nal_hrd_parameters: nal,
        vcl_hrd_parameters: vcl,
        low_delay_hrd_flag: low,
        pic_struct_present_flag: ps,
        bitstream_restrictions: br,
    };
    lemma_reads_chain5(s, head, s1, hrd_bits(nal), s2, hrd_bits(vcl), s3, low_bits, s4, seq![ps], s5,
        bitstream_restrictions_bits(br), s6);
    let t3 = head + hrd_bits(nal) + hrd_bits(vcl) + low_bits + seq![ps];
    assert(t3 + bitstream_restrictions_bits(br) =~= vui_head_bits(v) + vui_tail_bits(v));
}

/// The optional VUI parameters were read from the bits the writer produces for them, and
/// can be written.
#[verifier::rlimit(100)]
#[verifier::spinoff_prover]
pub proof fn lemma_vui_parameters_reads(s: BitStream, max_num_ref_frames: u32)
    requires
        in_stream(s),
        spec_vui_parameters(s, max_num_ref_frames) is Ok,
    ensures
        spec_vui_parameters(s, max_num_ref_frames) matches Ok((v, s2)) && vui_fits(v) && vui_writable(v)
            && reads(s, vui_bits(v), s2),
{
    lemma_read_bit_reads(s, "vui_parameters_present_flag");
    let (present, s1) = spec_read_bit(s, "vui_parameters_present_flag")->Ok_0;
    if present {
        lemma_vui_body_reads(s1, max_num_ref_frames);
        let (v, s2) = spec_vui_body(s1, max_num_ref_frames)->Ok_0;
        lemma_reads_concat(s, seq![true], s1, vui_head_bits(v) + vui_tail_bits(v), s2);
        assert(seq![true] + (vui_head_bits(v) + vui_tail_bits(v)) =~= vui_bits(Some(v)));
    }
}

/// The `delta_scale` that moves `last` to the next scale is coded back as itself.
proof fn lemma_scale_delta(last: u8, d: i32)
    requires
        -128 <= d <= 127,
    ensures
        scale_delta(last, ((last + d + 256) % 256) as u8) == d,
{
    let n = (last + d + 256) % 256;
    assert(0 <= n < 256);
    assert(((n as u8) - last + 256) % 256 == (d + 256) % 256) by {
        assert((n as u8) as int == n);
        assert(n == last + d + 256 - 256 * ((last + d + 256) / 256));
        assert(((last + d + 256) / 256) == 0 || ((last + d + 256) / 256) == 1 || ((last + d + 256) / 256) == 2);
    }
}

/// Appending a value to a list of scales appends its `delta_scale` code, unless the list
/// already ended at a zero.
proof fn lemma_deltas_push(l: Seq<u8>, last: u8, x: u8)
    ensures
        (forall|i: int| 0 <= i < l.len() ==> l[i] != 0) ==> scaling_deltas_bits(l.push(x), last)
            == scaling_deltas_bits(l, last) + se_bits(scale_delta(if l.len() == 0 { last } else { l.last() }, x)),
        (exists|i: int| 0 <= i < l.len() && l[i] == 0) ==> scaling_deltas_bits(l.push(x), last)
            == scaling_deltas_bits(l, last),
    decreases l.len(),
{
    let lx = l.push(x);
    if l.len() == 0 {
        assert(lx.skip(1) =~= Seq::<u8>::empty());
        assert(scaling_deltas_bits(lx.skip(1), x) == Seq::<bool>::empty());
        assert(scaling_deltas_bits(lx, last) =~= se_bits(scale_delta(last, x)));
    } else {
        assert(lx[0] == l[0]);
        assert(lx.skip(1) =~= l.skip(1).push(x));
        lemma_deltas_push(l.skip(1), l[0], x);
        if l[0] != 0 {
            let t = l.skip(1);
            if forall|i: int| 0 <= i < l.len() ==> l[i] != 0 {
                assert forall|i: int| 0 <= i < t.len() implies t[i] != 0 by {
                    assert(t[i] == l[i + 1]);
                }
                if l.len() > 1 {
                    assert(t.last() == l.last());
                }
            }
            if exists|i: int| 0 <= i < l.len() && l[i] == 0 {
                let i = choose|i: int| 0 <= i < l.len() && l[i] == 0;
                assert(i > 0);
                assert(t[i - 1] == 0);
            }
        }
    }
}

/// The scales of one list read so far, with the bits they were read from.
proof fn lemma_fill_list_reads(s: BitStream, k: nat)
    requires
        in_stream(s),
        spec_fill_list(s, k) is Ok,
    ensures
        spec_fill_list(s, k) matches Ok((v, s1, last, done)) && v.len() == k && in_stream(s1)
            && done == (exists|i: int| 0 <= i < v.len() && v[i] == 0)
            && (!done ==> last == (if k == 0 { 8u8 } else { v.last() }))
            && reads(s, scaling_deltas_bits(v, 8), s1),
    decreases k,
{
    if k == 0 {
        lemma_reads_empty(s);
    } else {
        lemma_fill_list_reads(s, (k - 1) as nat);
        let (v, s1, last, done) = spec_fill_list(s, (k - 1) as nat)->Ok_0;
        lemma_deltas_push(v, 8, 0);
        if done {
            let i = choose|i: int| 0 <= i < v.len() && v[i] == 0;
            assert(v.push(0u8)[i] == 0);
        } else {
            lemma_read_se_reads(s1, "delta_scale");
            let (d, s2) = spec_read_se(s1, "delta_scale")->Ok_0;
            let next = ((last + d + 256) % 256) as u8;
            lemma_scale_delta(last, d);
            lemma_deltas_push(v, 8, next);
            lemma_reads_concat(s, scaling_deltas_bits(v, 8), s1, se_bits(d), s2);
            lemma_reads_in_stream(s1, se_bits(d), s2);
            let vn = v.push(next);
            if next == 0 {
                assert(vn[v.len() as int] == 0);
            } else {
                assert forall|i: int| 0 <= i < vn.len() implies vn[i] != 0 by {
                    if i < v.len() {
                        assert(vn[i] == v[i]);
                    }
                }
            }
        }
    }
}

/// A scaling list was read from the `delta_scale` codes of its scales.
proof fn lemma_scaling_list_reads(s: BitStream, size: nat)
    requires
        in_stream(s),
        spec_scaling_list(s, size) is Ok,
    ensures
        spec_scaling_list(s, size) matches Ok((l, s2)) && l.len() == size && reads(s, scaling_deltas_bits(l, 8), s2),
{
    lemma_fill_list_reads(s, size);
}

/// Scaling lists were read from their presence flags and codes.
proof fn lemma_scaling_lists_reads(s: BitStream, size: nat, count: nat)
    requires
        in_stream(s),
        spec_scaling_lists(s, size, count) is Ok,
    ensures
        spec_scaling_lists(s, size, count) matches Ok((ls, s2)) && ls.len() == count
            && reads(s, scaling_lists_bits(ls), s2),
    decreases count,
{
    if count == 0 {
        lemma_reads_empty(s);
    } else {
        lemma_scaling_lists_reads(s, size, (count - 1) as nat);
        let (ls, s1) = spec_scaling_lists(s, size, (count - 1) as nat)->Ok_0;
        lemma_reads_in_stream(s, scaling_lists_bits(ls), s1);
        lemma_read_bit_reads(s1, "*_scaling_list_present_flag");
        let (present, s2) = spec_read_bit(s1, "*_scaling_list_present_flag")->Ok_0;
        lemma_reads_in_stream(s1, seq![present], s2);
        if present {
            lemma_scaling_list_reads(s2, size);
            let (l, s3) = spec_scaling_list(s2, size)->Ok_0;
            lemma_reads_concat(s1, seq![true], s2, scaling_deltas_bits(l, 8), s3);
            lemma_reads_concat(s, scaling_lists_bits(ls), s1, scaling_list_bits(Some(l)), s3);
            assert(ls.push(Some(l)).drop_last() =~= ls);
        } else {
            lemma_reads_concat(s, scaling_lists_bits(ls), s1, scaling_list_bits(None), s2);
            assert(ls.push(None).drop_last() =~= ls);
        }
    }
}

/// A scaling matrix was read from its lists, which match the chroma format.
proof fn lemma_seq_scaling_matrix_reads(s: BitStream, chroma_format: ChromaFormat)
    requires
        in_stream(s),
        spec_seq_scaling_matrix(s, chroma_format) is Ok,
    ensures
        spec_seq_scaling_matrix(s, chroma_format) matches Ok((m, s2))
            && scaling_matrix_bits(m, chroma_format) is Ok && reads(s, scaling_matrix_bits(m, chroma_format)->Ok_0, s2),
{
    lemma_scaling_lists_reads(s, 16, 6);
    let (l4, s1) = spec_scaling_lists(s, 16, 6)->Ok_0;
    lemma_reads_in_stream(s, scaling_lists_bits(l4), s1);
    let ycbcr = chroma_format == ChromaFormat::YUV444;
    lemma_scaling_lists_reads(s1, 64, if ycbcr { 6 } else { 2 });
    let (l8, s2) = spec_scaling_lists(s1, 64, if ycbcr { 6 } else { 2 })->Ok_0;
    lemma_reads_concat(s, scaling_lists_bits(l4), s1, scaling_lists_bits(l8), s2);
}

/// The bits of an optional scaling matrix after its presence flag.
pub open spec fn opt_scaling_matrix_bits(o: Option<SeqScalingMatrixView>, chroma_format: ChromaFormat) -> Seq<bool> {
    match o {
        None => seq![false],
        Some(m) => seq![true] + scaling_matrix_bits(m, chroma_format)->Ok_0,
    }
}

/// The optional scaling matrix was read from its presence flag and lists.
proof fn lemma_opt_scaling_matrix_reads(s: BitStream, chroma_format: ChromaFormat)
    requires
        in_stream(s),
        spec_opt_scaling_matrix(s, chroma_format) is Ok,
    ensures
        spec_opt_scaling_matrix(s, chroma_format) matches Ok((o, s2))
            && (o matches Some(m) ==> scaling_matrix_bits(m, chroma_format) is Ok)
            && reads(s, opt_scaling_matrix_bits(o, chroma_format), s2),
{
    lemma_read_bit_reads(s, "scaling_matrix_present_flag");
    let (present, s1) = spec_read_bit(s, "scaling_matrix_present_flag")->Ok_0;
    if present {
        lemma_reads_in_stream(s, seq![true], s1);
        lemma_seq_scaling_matrix_reads(s1, chroma_format);
        let (m, s2) = spec_seq_scaling_matrix(s1, chroma_format)->Ok_0;
        lemma_reads_concat(s, seq![true], s1, scaling_matrix_bits(m, chroma_format)->Ok_0, s2);
    }
}

/// A bit depth field was read from the code of its value.
proof fn lemma_bit_depth_reads(s: BitStream)
    requires
        in_stream(s),
        spec_bit_depth_minus8(s) is Ok,
    ensures
        spec_bit_depth_minus8(s) matches Ok((v, s2)) && reads(s, ue_bits(v as u32), s2),
{
    lemma_read_ue_reads(s, "read_bit_depth_minus8");
    let (v, s2) = spec_read_ue(s, "read_bit_depth_minus8")->Ok_0;
    assert((v as u8) as u32 == v);
}

/// The chroma information was read from the bits that the writer produces for it.
#[verifier::rlimit(40)]
pub proof fn lemma_chroma_info_reads(s: BitStream, profile_idc: u8)
    requires
        in_stream(s),
        spec_chroma_info(s, profile_idc) is Ok,
    ensures
        spec_chroma_info(s, profile_idc) matches Ok((c, s2)) && chroma_info_writable(c)
            && chroma_info_bits(c, profile_idc) is Ok && reads(s, chroma_info_bits(c, profile_idc)->Ok_0, s2),
{
    reveal(chroma_info_bits);
    if !spec_has_chroma_info(profile_idc) {
        lemma_reads_empty(s);
    } else {
        lemma_read_ue_reads(s, "chroma_format_idc");
        let (idc, s1) = spec_read_ue(s, "chroma_format_idc")->Ok_0;
        lemma_chroma_format_roundtrip(idc);
        lemma_reads_in_stream(s, ue_bits(idc), s1);
        let ghost sep_bits: Seq<bool>;
        let ghost s2: BitStream;
        if idc == 3 {
            lemma_read_bit_reads(s1, "separate_colour_plane_flag");
            let (f, sf) = spec_read_bit(s1, "separate_colour_plane_flag")->Ok_0;
            sep_bits = seq![f];
            s2 = sf;
        } else {
            lemma_reads_empty(s1);
            sep_bits = Seq::empty();
            s2 = s1;
        }
        lemma_reads_in_stream(s1, sep_bits, s2);
        lemma_bit_depth_reads(s2);
        let (bl, s3) = spec_bit_depth_minus8(s2)->Ok_0;
        lemma_reads_in_stream(s2, ue_bits(bl as u32), s3);
        lemma_bit_depth_reads(s3);
        let (bc, s4) = spec_bit_depth_minus8(s3)->Ok_0;
        lemma_reads_in_stream(s3, ue_bits(bc as u32), s4);
        lemma_read_bit_reads(s4, "qpprime_y_zero_transform_bypass_flag");
        let (q, s5) = spec_read_bit(s4, "qpprime_y_zero_transform_bypass_flag")->Ok_0;
        lemma_reads_in_stream(s4, seq![q], s5);
        let cf = spec_chroma_format(idc);
        lemma_opt_scaling_matrix_reads(s5, cf);
        let (o, s6) = spec_opt_scaling_matrix(s5, cf)->Ok_0;
        lemma_reads_concat(s, ue_bits(idc), s1, sep_bits, s2);
        lemma_reads_concat(s, ue_bits(idc) + sep_bits, s2, ue_bits(bl as u32), s3);
        lemma_reads_concat(s, ue_bits(idc) + sep_bits + ue_bits(bl as u32), s3, ue_bits(bc as u32), s4);
        let head = ue_bits(idc) + sep_bits + ue_bits(bl as u32) + ue_bits(bc as u32) + seq![q];
        lemma_reads_concat(s, ue_bits(idc) + sep_bits + ue_bits(bl as u32) + ue_bits(bc as u32), s4, seq![q], s5);
        lemma_reads_concat(s, head, s5, opt_scaling_matrix_bits(o, cf), s6);
        match o {
            None => {
                assert(head + opt_scaling_matrix_bits(o, cf) =~= head.push(false));
            },
            Some(m) => {
                assert(head + opt_scaling_matrix_bits(o, cf) =~= head.push(true) + scaling_matrix_bits(m, cf)->Ok_0);
            },
        }
    }
}

/// The offsets of the picture order count cycle were read from their codes.
proof fn lemma_offsets_reads(s: BitStream, n: nat)
    requires
        in_stream(s),
        spec_offsets_for_ref_frame(s, n) is Ok,
    ensures
        spec_offsets_for_ref_frame(s, n) matches Ok((v, s2)) && v.len() == n
            && (forall|i: int| 0 <= i < v.len() ==> #[trigger] v[i] > i32::MIN) && reads(s, se_list_bits(v), s2),
    decreases n,
{
    if n == 0 {
        lemma_reads_empty(s);
    } else {
        lemma_offsets_reads(s, (n - 1) as nat);
        let (v, s1) = spec_offsets_for_ref_frame(s, (n - 1) as nat)->Ok_0;
        lemma_reads_in_stream(s, se_list_bits(v), s1);
        lemma_read_se_reads(s1, "offset_for_ref_frame");
        let (o, s2) = spec_read_se(s1, "offset_for_ref_frame")->Ok_0;
        lemma_reads_concat(s, se_list_bits(v), s1, se_bits(o), s2);
        let vo = v.push(o);
        assert(vo.drop_last() =~= v);
        assert forall|i: int| 0 <= i < vo.len() implies #[trigger] vo[i] > i32::MIN by {
            if i < v.len() {
                assert(vo[i] == v[i]);
            }
        }
    }
}

/// The picture order count fields were read from the bits that the writer produces for them.
#[verifier::rlimit(40)]
pub proof fn lemma_pic_order_cnt_reads(s: BitStream)
    requires
        in_stream(s),
        spec_pic_order_cnt(s) is Ok,
    ensures
        spec_pic_order_cnt(s) matches Ok((p, s2)) && pic_order_cnt_writable(p) && reads(s, pic_order_cnt_bits(p), s2),
{
    reveal(pic_order_cnt_bits);
    lemma_read_ue_reads(s, "pic_order_cnt_type");
    let (t, s1) = spec_read_ue(s, "pic_order_cnt_type")->Ok_0;
    lemma_reads_in_stream(s, ue_bits(t), s1);
    if t == 0 {
        lemma_read_ue_reads(s1, "log2_max_pic_order_cnt_lsb_minus4");
        let (v, s2) = spec_read_ue(s1, "log2_max_pic_order_cnt_lsb_minus4")->Ok_0;
        assert((v as u8) as u32 == v);
        lemma_reads_concat(s, ue_bits(t), s1, ue_bits(v), s2);
    } else if t == 1 {
        lemma_read_bit_reads(s1, "delta_pic_order_always_zero_flag");
        let (f, s2) = spec_read_bit(s1, "delta_pic_order_always_zero_flag")->Ok_0;
        lemma_reads_in_stream(s1, seq![f], s2);
        lemma_read_se_reads(s2, "offset_for_non_ref_pic");
        let (o1, s3) = spec_read_se(s2, "offset_for_non_ref_pic")->Ok_0;
        lemma_reads_in_stream(s2, se_bits(o1), s3);
        lemma_read_se_reads(s3, "offset_for_top_to_bottom_field");
        let (o2, s4) = spec_read_se(s3, "offset_for_top_to_bottom_field")->Ok_0;
        lemma_reads_in_stream(s3, se_bits(o2), s4);
        lemma_read_ue_reads(s4, "num_ref_frames_in_pic_order_cnt_cycle");
        let (n, s5) = spec_read_ue(s4, "num_ref_frames_in_pic_order_cnt_cycle")->Ok_0;
        lemma_reads_in_stream(s4, ue_bits(n), s5);
        lemma_offsets_reads(s5, n as nat);
        let (offs, s6) = spec_offsets_for_ref_frame(s5, n as nat)->Ok_0;
        assert(offs.len() as u32 == n);
        lemma_reads_concat(s, ue_bits(t), s1, seq![f], s2);
        lemma_reads_concat(s, ue_bits(t) + seq![f], s2, se_bits(o1), s3);
        lemma_reads_concat(s, ue_bits(t) + seq![f] + se_bits(o1), s3, se_bits(o2), s4);
        lemma_reads_concat(s, ue_bits(t) + seq![f] + se_bits(o1) + se_bits(o2), s4, ue_bits(n), s5);
        lemma_reads_concat(s, ue_bits(t) + seq![f] + se_bits(o1) + se_bits(o2) + ue_bits(n), s5, se_list_bits(offs), s6);
    }
}

/// The profile, constraint flags, level and identifier were read from their codes.
proof fn lemma_sps_ids_reads(s: BitStream)
    requires
        in_stream(s),
        spec_sps_ids(s) is Ok,
    ensures
        spec_sps_ids(s) matches Ok(((p, c, l, id), s2)) && id <= 31
            && reads(s, value_bits(p as nat, 8) + value_bits(c as nat, 8) + value_bits(l as nat, 8) + ue_bits(id), s2),
{
    reveal(spec_sps_ids);
    lemma_read_u8_reads(s, 8, "profile_idc");
    let (p, s1) = spec_read_u8(s, 8, "profile_idc")->Ok_0;
    lemma_reads_in_stream(s, value_bits(p as nat, 8), s1);
    lemma_read_u8_reads(s1, 8, "constraint_flags");
    let (c, s2) = spec_read_u8(s1, 8, "constraint_flags")->Ok_0;
    lemma_reads_in_stream(s1, value_bits(c as nat, 8), s2);
    lemma_read_u8_reads(s2, 8, "level_idc");
    let (l, s3) = spec_read_u8(s2, 8, "level_idc")->Ok_0;
    lemma_reads_in_stream(s2, value_bits(l as nat, 8), s3);
    lemma_read_ue_reads(s3, "seq_parameter_set_id");
    let (id, s4) = spec_read_ue(s3, "seq_parameter_set_id")->Ok_0;
    lemma_reads_concat(s, value_bits(p as nat, 8), s1, value_bits(c as nat, 8), s2);
    lemma_reads_concat(s, value_bits(p as nat, 8) + value_bits(c as nat, 8), s2, value_bits(l as nat, 8), s3);
    lemma_reads_concat(s, value_bits(p as nat, 8) + value_bits(c as nat, 8) + value_bits(l as nat, 8), s3, ue_bits(id), s4);
}

/// The fields from the chroma information to `max_num_ref_frames` were read from the bits
/// the writer produces for them.
proof fn lemma_sps_middle_reads(s: BitStream, profile_idc: u8)
    requires
        in_stream(s),
        spec_sps_middle(s, profile_idc) is Ok,
    ensures
        spec_sps_middle(s, profile_idc) matches Ok(((ci, log2, poc, m), s2)) && chroma_info_writable(ci)
            && chroma_info_bits(ci, profile_idc) is Ok && pic_order_cnt_writable(poc) && m < u32::MAX
            && reads(s, chroma_info_bits(ci, profile_idc)->Ok_0 + ue_bits(log2 as u32) + pic_order_cnt_bits(poc) + ue_bits(m), s2),
{
    reveal(spec_sps_middle);
    lemma_chroma_info_reads(s, profile_idc);
    let (ci, s1) = spec_chroma_info(s, profile_idc)->Ok_0;
    let cb = chroma_info_bits(ci, profile_idc)->Ok_0;
    lemma_reads_in_stream(s, cb, s1);
    lemma_read_ue_reads(s1, "log2_max_frame_num_minus4");
    let (lv, s2) = spec_read_ue(s1, "log2_max_frame_num_minus4")->Ok_0;
    assert((lv as u8) as u32 == lv);
    lemma_reads_in_stream(s1, ue_bits(lv), s2);
    lemma_pic_order_cnt_reads(s2);
    let (poc, s3) = spec_pic_order_cnt(s2)->Ok_0;
    lemma_reads_in_stream(s2, pic_order_cnt_bits(poc), s3);
    lemma_read_ue_reads(s3, "max_num_ref_frames");
    let (m, s4) = spec_read_ue(s3, "max_num_ref_frames")->Ok_0;
    lemma_reads_concat(s, cb, s1, ue_bits(lv), s2);
    lemma_reads_concat(s, cb + ue_bits(lv), s2, pic_order_cnt_bits(poc), s3);
    lemma_reads_concat(s, cb + ue_bits(lv) + pic_order_cnt_bits(poc), s3, ue_bits(m), s4);
}

/// The fields from `gaps_in_frame_num_value_allowed_flag` to the frame cropping were read
/// from the bits the writer produces for them.
proof fn lemma_sps_frame_reads(s: BitStream)
    requires
        in_stream(s),
        spec_sps_frame(s) is Ok,
    ensures
        spec_sps_frame(s) matches Ok(((g, w, h, f, d, c), s2)) && w < u32::MAX && h < u32::MAX
            && frame_cropping_writable(c) && in_stream(s2)
            && reads(s, seq![g] + ue_bits(w) + ue_bits(h) + frame_mbs_flags_bits(f) + seq![d] + frame_cropping_bits(c), s2),
{
    reveal(spec_sps_frame);
    lemma_read_bit_reads(s, "gaps_in_frame_num_value_allowed_flag");
    let (g, s1) = spec_read_bit(s, "gaps_in_frame_num_value_allowed_flag")->Ok_0;
    lemma_reads_in_stream(s, seq![g], s1);
    lemma_read_ue_reads(s1, "pic_width_in_mbs_minus1");
    let (w, s2) = spec_read_ue(s1, "pic_width_in_mbs_minus1")->Ok_0;
    lemma_reads_in_stream(s1, ue_bits(w), s2);
    lemma_read_ue_reads(s2, "pic_height_in_map_units_minus1");
    let (h, s3) = spec_read_ue(s2, "pic_height_in_map_units_minus1")->Ok_0;
    lemma_reads_in_stream(s2, ue_bits(h), s3);
    lemma_frame_mbs_flags_reads(s3);
    let (f, s4) = spec_frame_mbs_flags(s3)->Ok_0;
    lemma_reads_in_stream(s3, frame_mbs_flags_bits(f), s4);
    lemma_read_bit_reads(s4, "direct_8x8_inference_flag");
    let (d, s5) = spec_read_bit(s4, "direct_8x8_inference_flag")->Ok_0;
    lemma_reads_in_stream(s4, seq![d], s5);
    lemma_frame_cropping_reads(s5);
    let (c, s6) = spec_frame_cropping(s5)->Ok_0;
    lemma_reads_in_stream(s5, frame_cropping_bits(c), s6);
    lemma_reads_concat(s, seq![g], s1, ue_bits(w), s2);
    lemma_reads_concat(s, seq![g] + ue_bits(w), s2, ue_bits(h), s3);
    lemma_reads_concat(s, seq![g] + ue_bits(w) + ue_bits(h), s3, frame_mbs_flags_bits(f), s4);
    lemma_reads_concat(s, seq![g] + ue_bits(w) + ue_bits(h) + frame_mbs_flags_bits(f), s4, seq![d], s5);
    lemma_reads_concat(s, seq![g] + ue_bits(w) + ue_bits(h) + frame_mbs_flags_bits(f) + seq![d], s5, frame_cropping_bits(c), s6);
}

/// `seq_parameter_set_data()` put together from the results of its parts.
proof fn lemma_sps_data_parts(
    s: BitStream,
    ids: (u8, u8, u8, u32),
    s1: BitStream,
    mid: (ChromaInfoView, u8, PicOrderCntTypeView, u32),
    s2: BitStream,
    fr: (bool, u32, u32, FrameMbsFlags, bool, Option<FrameCropping>),
    s3: BitStream,
    vui: Option<VuiParametersView>,
    s4: BitStream,
)
    requires
        spec_sps_ids(s) == Ok::<_, SpsError>((ids, s1)),
        spec_sps_middle(s1, ids.0) == Ok::<_, SpsError>((mid, s2)),
        spec_sps_frame(s2) == Ok::<_, BitReaderError>((fr, s3)),
        spec_vui_parameters(s3, mid.3) == Ok::<_, SpsError>((vui, s4)),
    ensures
        spec_seq_parameter_set_data(s) == Ok::<_, SpsError>((SeqParameterSetView {
            profile_idc: ids.0,
            constraint_flags: ids.1,
            level_idc: ids.2,
            seq_parameter_set_id: ids.3 as u8,
            chroma_info: mid.0,
            log2_max_frame_num_minus4: mid.1,
            pic_order_cnt: mid.2,
            max_num_ref_frames: mid.3,
            gaps_in_frame_num_value_allowed_flag: fr.0,
            pic_width_in_mbs_minus1: fr.1,
            pic_height_in_map_units_minus1: fr.2,
            frame_mbs_flags: fr.3,
            direct_8x8_inference_flag: fr.4,
            frame_cropping: fr.5,
            vui_parameters: vui,
        }, s4)),
{
    reveal(spec_seq_parameter_set_data);
}

/// The bits of the parts of a sequence parameter set make up its fields as the writer codes
/// them.
proof fn lemma_sps_assemble(v: SeqParameterSetView, idb: Seq<bool>, cb: Seq<bool>, mid: Seq<bool>, fr: Seq<bool>)
    requires
        v.seq_parameter_set_id <= 31,
        idb == value_bits(v.profile_idc as nat, 8) + value_bits(v.constraint_flags as nat, 8)
            + value_bits(v.level_idc as nat, 8) + ue_bits(v.seq_parameter_set_id as u32),
        chroma_info_bits(v.chroma_info, v.profile_idc) == Ok::<_, ErrorKind>(cb),
        mid == cb + ue_bits(v.log2_max_frame_num_minus4 as u32) + pic_order_cnt_bits(v.pic_order_cnt)
            + ue_bits(v.max_num_ref_frames),
        fr == seq![v.gaps_in_frame_num_value_allowed_flag] + ue_bits(v.pic_width_in_mbs_minus1)
            + ue_bits(v.pic_height_in_map_units_minus1) + frame_mbs_flags_bits(v.frame_mbs_flags)
            + seq![v.direct_8x8_inference_flag] + frame_cropping_bits(v.frame_cropping),
        vui_fits(v.vui_parameters),
    ensures
        sps_data_bits(v) == Ok::<_, ErrorKind>(idb + mid + fr + vui_bits(v.vui_parameters)),
{
    assert(sps_head_bits(v) == idb);
    assert(idb + mid + fr + vui_bits(v.vui_parameters) =~= sps_head_bits(v) + cb + sps_frame_bits(v)
        + vui_bits(v.vui_parameters));
}

/// A sequence parameter set read from a stream can be written, and the writer produces
/// exactly the bits it was read from.
#[verifier::rlimit(60)]
#[verifier::spinoff_prover]
pub proof fn lemma_seq_parameter_set_data_reads(s: BitStream)
    requires
        in_stream(s),
        spec_seq_parameter_set_data(s) is Ok,
    ensures
        spec_seq_parameter_set_data(s) matches Ok((v, s2)) && sps_writable(v) && sps_data_bits(v) is Ok
            && reads(s, sps_data_bits(v)->Ok_0, s2),
{
    assert(spec_sps_ids(s) is Ok) by {
        reveal(spec_seq_parameter_set_data);
    }
    lemma_sps_ids_reads(s);
    let (ids, s1) = spec_sps_ids(s)->Ok_0;
    let (p, c, l, id) = ids;
    let idb = value_bits(p as nat, 8) + value_bits(c as nat, 8) + value_bits(l as nat, 8) + ue_bits(id);
    lemma_reads_in_stream(s, idb, s1);
    assert(spec_sps_middle(s1, p) is Ok) by {
        reveal(spec_seq_parameter_set_data);
    }
    lemma_sps_middle_reads(s1, p);
    let (md, s2) = spec_sps_middle(s1, p)->Ok_0;
    let (ci, log2, poc, m) = md;
    let cb = chroma_info_bits(ci, p)->Ok_0;
    let mid = cb + ue_bits(log2 as u32) + pic_order_cnt_bits(poc) + ue_bits(m);
    lemma_reads_in_stream(s1, mid, s2);
    assert(spec_sps_frame(s2) is Ok) by {
        reveal(spec_seq_parameter_set_data);
    }
    lemma_sps_frame_reads(s2);
    let (frv, s3) = spec_sps_frame(s2)->Ok_0;
    let (g, w, h, f, d, crop) = frv;
    let fr = seq![g] + ue_bits(w) + ue_bits(h) + frame_mbs_flags_bits(f) + seq![d] + frame_cropping_bits(crop);
    assert(spec_vui_parameters(s3, m) is Ok) by {
        reveal(spec_seq_parameter_set_data);
    }
    lemma_vui_parameters_reads(s3, m);
    let (vui, s4) = spec_vui_parameters(s3, m)->Ok_0;
    lemma_sps_data_parts(s, ids, s1, md, s2, frv, s3, vui, s4);

    lemma_reads_concat(s, idb, s1, mid, s2);
    lemma_reads_concat(s, idb + mid, s2, fr, s3);
    lemma_reads_concat(s, idb + mid + fr, s3, vui_bits(vui), s4);
    let v = spec_seq_parameter_set_data(s)->Ok_0.0;
    lemma_sps_assemble(v, idb, cb, mid, fr);
}

/// Writing a sequence parameter set read from an RBSP gives back that RBSP: the bits the
/// writer produces, from the first field to the end of the trailing bits, are the bits of the
/// data, which can only continue with zero bytes; where the data's last byte is not zero, they
/// are exactly the data.
pub proof fn lemma_sps_write_reproduces_rbsp(data: Seq<u8>)
    requires
        spec_seq_parameter_set(BitStream { data, end: ErrorKind::UnexpectedEof, pos: 0 }) is Ok,
    ensures
        ({
            let v = spec_seq_parameter_set(BitStream { data, end: ErrorKind::UnexpectedEof, pos: 0 })->Ok_0;
            &&& sps_writable(v)
            &&& sps_rbsp_bits(v, 0) is Ok
            &&& sps_rbsp_bits(v, 0)->Ok_0.len() % 8 == 0
            &&& sps_rbsp_bits(v, 0)->Ok_0.len() <= 8 * data.len()
            &&& bits_of(data) == sps_rbsp_bits(v, 0)->Ok_0
                + zero_bits((8 * data.len() - sps_rbsp_bits(v, 0)->Ok_0.len()) as nat)
            &&& data.len() > 0 && data.last() != 0 ==> bits_of(data) == sps_rbsp_bits(v, 0)->Ok_0
            &&& data.len() > 0 && data.last() != 0 ==> forall|out: Seq<u8>|
                #[trigger] bits_of(out) == sps_rbsp_bits(v, 0)->Ok_0 ==> out == data
        }),
{
    let s0 = BitStream { data, end: ErrorKind::UnexpectedEof, pos: 0 };
    lemma_seq_parameter_set_data_reads(s0);
    let (v, s2) = spec_seq_parameter_set_data(s0)->Ok_0;
    let d = sps_data_bits(v)->Ok_0;
    lemma_finish_rbsp_bits(data, d);
    if data.len() > 0 && data.last() != 0 {
        assert forall|out: Seq<u8>| #[trigger] bits_of(out) == sps_rbsp_bits(v, 0)->Ok_0 implies out == data by {
            lemma_bits_of_injective(out, data);
        }
    }
}

} // verus!
