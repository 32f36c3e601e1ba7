use h264_reader::nal::prefix::{DecRefBasePicMarkingOp, PrefixNalUnit, PrefixNalUnitError};
use h264_reader::nal::{NalHeaderExtension, RefNal};

#[test]
fn parse_prefix_nal_mvc_no_ref() {
    // NAL header: nal_ref_idc=0, nal_unit_type=14
    // Header byte: 0b0_00_01110 = 0x0E
    // MVC extension: svc=0, non_idr=1, priority_id=0, view_id=1, temporal_id=0,
    //   anchor=0, inter_view=1, reserved=1
    // No RBSP body since nal_ref_idc=0
    let data: &[u8] = &[
        0x0E,           // NAL header: ref_idc=0, type=14
        0b0100_0000,   // svc=0, non_idr=1, priority_id=0
        0x00,           // view_id high 8 = 0
        0b0100_0011, // view_id low 2 = 01 (view_id=1), temporal=0, anchor=0, inter_view=1, reserved=1
    ];
    let nal = RefNal::new(data, &[], true);
    let prefix = PrefixNalUnit::from_nal(&nal).unwrap();
    match prefix.header_extension {
        NalHeaderExtension::Mvc(mvc) => {
            assert!(mvc.non_idr_flag());
            assert_eq!(mvc.view_id(), 1);
            assert!(mvc.inter_view_flag());
        }
        _ => panic!("expected MVC extension"),
    }
    assert!(prefix.ref_base_pic.is_none());
}

#[test]
fn parse_prefix_nal_mvc_with_ref() {
    // NAL header: nal_ref_idc=3, nal_unit_type=14
    // Header byte: 0b0_11_01110 = 0x6E
    // MVC extension: svc=0, all zeros, view_id=0, reserved=1
    // MVC prefix NALs have no RBSP body, so ref_base_pic should be None.
    let data: &[u8] = &[
        0x6E,           // NAL header: ref_idc=3, type=14
        0x00,           // svc=0, non_idr=0, priority_id=0
        0x00,           // view_id high 8 = 0
        0b0000_0001, // view_id=0, temporal=0, anchor=0, inter_view=0, reserved=1
    ];
    let nal = RefNal::new(data, &[], true);
    let prefix = PrefixNalUnit::from_nal(&nal).unwrap();
    assert!(prefix.ref_base_pic.is_none());
}

#[test]
fn parse_prefix_nal_svc_no_ref() {
    // NAL header: nal_ref_idc=0, nal_unit_type=14 → 0b0_00_01110 = 0x0E
    // SVC extension: svc=1, idr=0, priority_id=0
    //   no_inter_layer_pred=0, dependency_id=0, quality_id=0
    //   temporal_id=0, use_ref_base=0, discardable=0, output=0, reserved=0b11
    let data: &[u8] = &[
        0x0E, // NAL header: ref_idc=0
        0x80, // svc=1, idr=0, priority_id=0
        0x00, // no_inter_layer=0, dep_id=0, quality_id=0
        0x03, // temporal=0, use_ref=0, discard=0, output=0, reserved=0b11
    ];
    let nal = RefNal::new(data, &[], true);
    let prefix = PrefixNalUnit::from_nal(&nal).unwrap();
    match prefix.header_extension {
        NalHeaderExtension::Svc(svc) => {
            assert!(!svc.idr_flag());
            assert_eq!(svc.priority_id(), 0);
        }
        _ => panic!("expected SVC extension"),
    }
    // nal_ref_idc=0, so ref_base_pic is None
    assert!(prefix.ref_base_pic.is_none());
}

#[test]
fn parse_prefix_nal_svc_with_ref_no_marking() {
    // NAL header: nal_ref_idc=3, nal_unit_type=14
    // Header byte: 0b0_11_01110 = 0x6E
    // SVC extension: svc=1, idr=0, priority_id=0
    // RBSP: store_ref_base_pic_flag=0, additional_prefix_nal_unit_extension_flag=0
    //       then rbsp_trailing_bits (1 + padding)
    let data: &[u8] = &[
        0x6E, // NAL header: ref_idc=3, type=14
        0x80, // svc=1, idr=0, priority_id=0
        0x00, // no_inter_layer=0, dep_id=0, quality_id=0
        0x03, // temporal=0, use_ref=0, discard=0, output=0, reserved=0b11
        // RBSP body: store_ref_base_pic_flag=0, additional=0, rbsp_trailing=1, padding=00000
        0b0010_0000,
    ];
    let nal = RefNal::new(data, &[], true);
    let prefix = PrefixNalUnit::from_nal(&nal).unwrap();
    let ref_base = prefix.ref_base_pic.unwrap();
    assert!(!ref_base.store_ref_base_pic_flag);
    assert!(ref_base.dec_ref_base_pic_marking.is_none());
    assert!(!ref_base.additional_prefix_nal_unit_extension_flag);
}

#[test]
fn parse_prefix_nal_svc_with_marking() {
    // NAL header: nal_ref_idc=2, nal_unit_type=14 → 0b0_10_01110 = 0x4E
    // SVC extension: svc=1, idr=0, priority_id=0
    // RBSP body:
    //   store_ref_base_pic_flag=1
    //   dec_ref_base_pic_marking:
    //     op=1 (ue: 010), difference_of_base_pic_nums_minus1=0 (ue: 1)
    //     op=0 (ue: 1) -- end
    //   additional_prefix_nal_unit_extension_flag=0
    //   rbsp_trailing_bits: 1 + padding
    //
    // Bits: 1  010 1  1  0  1 00000
    //       ^  ^^^ ^  ^  ^  ^ ^^^^^
    //       |  |   |  |  |  | padding
    //       |  |   |  |  |  rbsp stop bit
    //       |  |   |  |  additional=0
    //       |  |   |  op=0 (end)
    //       |  |   diff_minus1=0
    //       |  op=1
    //       store=1
    let data: &[u8] = &[
        0x4E, // NAL header
        0x80, // svc=1, idr=0, priority_id=0
        0x00, // no_inter_layer=0, dep_id=0, quality_id=0
        0x03, // temporal=0, use_ref=0, discard=0, output=0, reserved=0b11
        // RBSP: 1_010_1_1_0_1_00000 = 0b1010_1101 0b0000_0xxx
        0b1010_1101,
        0b0000_0000, // trailing bits with padding
    ];
    let nal = RefNal::new(data, &[], true);
    let prefix = PrefixNalUnit::from_nal(&nal).unwrap();
    let ref_base = prefix.ref_base_pic.unwrap();
    assert!(ref_base.store_ref_base_pic_flag);
    assert!(!ref_base.additional_prefix_nal_unit_extension_flag);
    let marking = ref_base.dec_ref_base_pic_marking.unwrap();
    assert_eq!(marking.operations.len(), 1);
    match &marking.operations[0] {
        DecRefBasePicMarkingOp::ShortTermUnusedForRef {
            difference_of_base_pic_nums_minus1,
        } => {
            assert_eq!(*difference_of_base_pic_nums_minus1, 0);
        }
        _ => panic!("expected ShortTermUnusedForRef"),
    }
}

#[test]
fn parse_prefix_nal_bad_marking_operation() {
    // store_ref_base_pic_flag=1, then operation 3 (ue: 00100), which is not allowed.
    let data: &[u8] = &[0x4E, 0x80, 0x00, 0x03, 0b1001_0000, 0b1000_0000];
    let nal = RefNal::new(data, &[], true);
    assert_eq!(
        PrefixNalUnit::from_nal(&nal).unwrap_err(),
        PrefixNalUnitError::InvalidMemoryManagementBaseControlOperation(3)
    );
}

#[test]
fn parse_prefix_nal_too_short() {
    let data: &[u8] = &[0x4E, 0x80];
    let nal = RefNal::new(data, &[], true);
    assert!(matches!(PrefixNalUnit::from_nal(&nal), Err(PrefixNalUnitError::IoError(_))));
}
