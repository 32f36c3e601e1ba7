use h264_reader::nal::pps::{PicParameterSet, SliceGroup};
use h264_reader::nal::sei::pic_timing::{Delays, PicTiming};
use h264_reader::nal::sei::{HeaderType, SeiMessage};
use h264_reader::nal::slice::{PredWeight, SliceHeader};
use h264_reader::nal::sps::SeqParameterSet;
use h264_reader::nal::NalHeader;
use h264_reader::rbsp::{BitReader, BitWriter};
use h264_reader::Context;

/// One element of an RBSP to write.
enum Field {
    Bit(bool),
    Ue(u32),
    Se(i32),
    U(u32, u32),
}

/// The RBSP made of `fields`, then the trailing bits.
fn rbsp(fields: &[Field]) -> Vec<u8> {
    let mut w = BitWriter::new(Vec::new());
    for f in fields {
        match *f {
            Field::Bit(b) => w.write_bit(b).unwrap(),
            Field::Ue(v) => w.write_ue(v).unwrap(),
            Field::Se(v) => w.write_se(v).unwrap(),
            Field::U(n, v) => w.write_var::<u32>(n, v).unwrap(),
        }
    }
    w.write_rbsp_trailing_bits().unwrap();
    w.into_writer()
}

/// Baseline profile, level 3.0, a picture of one macroblock, `pic_order_cnt_type` 2.
fn context_with_sps() -> Context {
    let mut ctx = Context::default();
    ctx.put_seq_param_set(SeqParameterSet::from_bits(BitReader::new(&[0x42, 0x00, 0x1E, 0xDA, 0x71][..])).unwrap());
    ctx
}

/// A picture parameter set with the given slice-group fields (after `num_slice_groups_minus1`)
/// and weighted prediction settings.
fn pps_fields(groups: Vec<Field>, weighted_pred_flag: bool, weighted_bipred_idc: u32) -> Vec<Field> {
    let mut f = vec![Field::Ue(0), Field::Ue(0), Field::Bit(false), Field::Bit(false)];
    f.extend(groups);
    f.extend(vec![
        Field::Ue(0),
        Field::Ue(0),
        Field::Bit(weighted_pred_flag),
        Field::U(2, weighted_bipred_idc),
        Field::Se(0),
        Field::Se(0),
        Field::Se(0),
        Field::Bit(false),
        Field::Bit(false),
        Field::Bit(false),
    ]);
    f
}

fn context_with(pps: Vec<Field>) -> Context {
    let mut ctx = context_with_sps();
    let pps = PicParameterSet::from_bits(&ctx, BitReader::new(&rbsp(&pps)[..])).unwrap();
    ctx.put_pic_param_set(pps);
    ctx
}

#[test]
fn sp_slice_without_weighted_prediction_has_no_weight_table() {
    let mut ctx = context_with_sps();
    let pps = PicParameterSet::from_bits(&ctx, BitReader::new(&[0xCE, 0x38, 0x80][..])).unwrap();
    ctx.put_pic_param_set(pps);
    let mut r = BitReader::new(&[0x92, 0x05, 0xC0][..]);
    let header = NalHeader::new(0x01).unwrap();
    let (h, _, _) = SliceHeader::from_bits(&ctx, &mut r, header).unwrap();
    assert!(h.pred_weight_table.is_none());
    assert_eq!(h.slice_qp_delta, 0);
    assert_eq!(h.sp_for_switch_flag, Some(false));
    assert_eq!(h.slice_qs, Some(26));
    assert_eq!(h.frame_num, 0);
}

#[test]
fn sp_slice_with_weighted_prediction_has_weight_table() {
    let ctx = context_with(pps_fields(vec![Field::Ue(0)], true, 0));
    let slice = rbsp(&[
        Field::Ue(0),     // first_mb_in_slice
        Field::Ue(3),     // slice_type: SP
        Field::Ue(0),     // pic_parameter_set_id
        Field::U(4, 0),   // frame_num
        Field::Bit(false), // num_ref_idx_active_override_flag
        Field::Bit(false), // ref_pic_list_modification_flag_l0
        Field::Ue(2),     // luma_log2_weight_denom
        Field::Ue(1),     // chroma_log2_weight_denom
        Field::Bit(false), // luma_weight_l0_flag
        Field::Bit(false), // chroma_weight_l0_flag
        Field::Se(0),     // slice_qp_delta
        Field::Bit(false), // sp_for_switch_flag
        Field::Se(0),     // slice_qs_delta
        Field::Bit(true),
    ]);
    let (h, _, _) = SliceHeader::from_bits(&ctx, &mut BitReader::new(&slice[..]), NalHeader::new(0x01).unwrap()).unwrap();
    let t = h.pred_weight_table.unwrap();
    assert_eq!(t.luma_log2_weight_denom, 2);
    assert_eq!(t.chroma_log2_weight_denom, Some(1));
    assert_eq!(t.luma_weights, vec![None]);
    assert!(t.luma_weights_l1.is_empty());
    assert_eq!(h.slice_qs, Some(26));
}

#[test]
fn b_slice_reads_list1_weights() {
    let ctx = context_with(pps_fields(vec![Field::Ue(0)], false, 1));
    let slice = rbsp(&[
        Field::Ue(0),     // first_mb_in_slice
        Field::Ue(1),     // slice_type: B
        Field::Ue(0),     // pic_parameter_set_id
        Field::U(4, 0),   // frame_num
        Field::Bit(true), // direct_spatial_mv_pred_flag
        Field::Bit(false), // num_ref_idx_active_override_flag
        Field::Bit(false), // ref_pic_list_modification_flag_l0
        Field::Bit(false), // ref_pic_list_modification_flag_l1
        Field::Ue(3),     // luma_log2_weight_denom
        Field::Ue(2),     // chroma_log2_weight_denom
        Field::Bit(true), // luma_weight_l0_flag
        Field::Se(5),
        Field::Se(-1),
        Field::Bit(false), // chroma_weight_l0_flag
        Field::Bit(false), // luma_weight_l1_flag
        Field::Bit(true), // chroma_weight_l1_flag
        Field::Se(2),
        Field::Se(3),
        Field::Se(-4),
        Field::Se(6),
        Field::Se(1),     // slice_qp_delta
        Field::Bit(true),
    ]);
    let (h, _, _) = SliceHeader::from_bits(&ctx, &mut BitReader::new(&slice[..]), NalHeader::new(0x01).unwrap()).unwrap();
    let t = h.pred_weight_table.unwrap();
    assert_eq!(t.luma_weights, vec![Some(PredWeight { weight: 5, offset: -1 })]);
    assert_eq!(t.chroma_weights, vec![Vec::<PredWeight>::new()]);
    assert_eq!(t.luma_weights_l1, vec![None]);
    assert_eq!(
        t.chroma_weights_l1,
        vec![vec![PredWeight { weight: 2, offset: 3 }, PredWeight { weight: -4, offset: 6 }]]
    );
    assert_eq!(h.slice_qp_delta, 1);
}

#[test]
fn changing_slice_groups_carry_slice_group_change_cycle() {
    // Two slice groups, map type 3 (box-out), change rate 1: one map unit gives a one-bit field.
    let ctx = context_with(pps_fields(vec![Field::Ue(1), Field::Ue(3), Field::Bit(false), Field::Ue(0)], false, 0));
    let slice = rbsp(&[
        Field::Ue(0),     // first_mb_in_slice
        Field::Ue(0),     // slice_type: P
        Field::Ue(0),     // pic_parameter_set_id
        Field::U(4, 0),   // frame_num
        Field::Bit(false), // num_ref_idx_active_override_flag
        Field::Bit(false), // ref_pic_list_modification_flag_l0
        Field::Se(0),     // slice_qp_delta
        Field::U(1, 1),   // slice_group_change_cycle
        Field::Bit(true),
    ]);
    let (h, _, _) = SliceHeader::from_bits(&ctx, &mut BitReader::new(&slice[..]), NalHeader::new(0x01).unwrap()).unwrap();
    assert_eq!(h.slice_group_change_cycle, Some(1));
}

#[test]
fn other_slice_groups_have_no_slice_group_change_cycle() {
    let ctx = context_with(pps_fields(vec![Field::Ue(0)], false, 0));
    let slice = rbsp(&[
        Field::Ue(0),
        Field::Ue(0),
        Field::Ue(0),
        Field::U(4, 0),
        Field::Bit(false),
        Field::Bit(false),
        Field::Se(0),
        Field::Bit(true),
    ]);
    let (h, _, _) = SliceHeader::from_bits(&ctx, &mut BitReader::new(&slice[..]), NalHeader::new(0x01).unwrap()).unwrap();
    assert_eq!(h.slice_group_change_cycle, None);
}

#[test]
fn foreground_slice_groups_read_one_rectangle_per_foreground_group() {
    // Two slice groups, map type 2: one rectangle, then the leftover group.
    let ctx = context_with_sps();
    let fields = pps_fields(vec![Field::Ue(1), Field::Ue(2), Field::Ue(0), Field::Ue(0)], false, 0);
    let pps = PicParameterSet::from_bits(&ctx, BitReader::new(&rbsp(&fields)[..])).unwrap();
    match pps.slice_groups {
        Some(SliceGroup::ForegroundAndLeftover { rectangles }) => assert_eq!(rectangles.len(), 1),
        other => panic!("unexpected slice groups {:?}", other),
    }
    assert_eq!(pps.num_ref_idx_l0_default_active_minus1, 0);
    assert!(!pps.weighted_pred_flag);
}

/// An SPS taken from CVSEFDFT3_Sony_E.zip, with NAL and VCL HRD parameters.
fn sony_sps() -> SeqParameterSet {
    let sps_rbsp: Vec<u8> = vec![
        0x4d, 0x60, 0x15, 0x8d, 0x8d, 0x28, 0x58, 0x9d, 0x08, 0x00, 0x00, 0x0f, 0xa0, 0x00, 0x07, 0x53,
        0x07, 0x00, 0x00, 0x00, 0x92, 0x7c, 0x00, 0x00, 0x12, 0x4f, 0x80, 0xfb, 0xdc, 0x18, 0x00, 0x00,
        0x0f, 0x42, 0x40, 0x00, 0x07, 0xa1, 0x20, 0x7d, 0xee, 0x07, 0xc6, 0x0c, 0x62, 0x60,
    ];
    SeqParameterSet::from_bits(BitReader::new(&sps_rbsp[..])).unwrap()
}

#[test]
fn pic_timing_delays_fall_back_to_vcl_hrd_parameters() {
    let mut sps = sony_sps();
    let mut vui = sps.vui_parameters.take().unwrap();
    vui.nal_hrd_parameters = None;
    let mut vcl = vui.vcl_hrd_parameters.take().unwrap();
    vcl.cpb_removal_delay_length_minus1 = 7;
    vcl.dpb_output_delay_length_minus1 = 7;
    vui.vcl_hrd_parameters = Some(vcl);
    vui.pic_struct_present_flag = false;
    sps.vui_parameters = Some(vui);
    let payload = vec![0x12, 0x34, 0x80];
    let msg = SeiMessage { payload_type: HeaderType::PicTiming, payload: &payload[..] };
    let pic_timing = PicTiming::read(&sps, &msg).unwrap();
    assert_eq!(pic_timing.delays, Some(Delays { cpb_removal_delay: 0x12, dpb_output_delay: 0x34 }));
}

#[test]
fn pic_timing_without_hrd_parameters_has_no_delays() {
    let mut sps = sony_sps();
    let mut vui = sps.vui_parameters.take().unwrap();
    vui.nal_hrd_parameters = None;
    vui.vcl_hrd_parameters = None;
    vui.pic_struct_present_flag = false;
    sps.vui_parameters = Some(vui);
    let payload = vec![0x80];
    let msg = SeiMessage { payload_type: HeaderType::PicTiming, payload: &payload[..] };
    assert_eq!(PicTiming::read(&sps, &msg).unwrap().delays, None);
}
