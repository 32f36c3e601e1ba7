use h264_reader::nal::{
    extended_rbsp_bytes, parse_nal_header_extension, Nal, NalHeader, NalHeaderExtension, RefNal, UnitType,
};
use h264_reader::rbsp::ErrorKind;

#[test]
fn header() {
    let h = NalHeader::new(0b0101_0001).unwrap();
    assert_eq!(0b10, h.nal_ref_idc());
    assert_eq!(UnitType::Reserved(17), h.nal_unit_type());
}

fn common<'a>(head: &'a [u8], tail: &'a [&'a [u8]], complete: bool) -> RefNal<'a> {
    let nal = RefNal::new(head, tail, complete);
    assert_eq!(NalHeader::new(0b0101_0001).unwrap(), nal.header().unwrap());

    // Try the reading methods.
    let mut r = nal.reader();
    let mut buf = [0u8; 5];
    r.read_exact(&mut buf).unwrap();
    assert_eq!(&buf[..], &[0b0101_0001, 1, 2, 3, 4]);
    if complete {
        assert_eq!(r.read(&mut buf[..]).unwrap(), 0);

        // Also try read_to_end.
        let mut buf = Vec::new();
        nal.reader().read_to_end(&mut buf).unwrap();
        assert_eq!(buf, &[0b0101_0001, 1, 2, 3, 4]);
    } else {
        assert_eq!(r.read(&mut buf[..]).unwrap_err().kind(), ErrorKind::WouldBlock);
    }

    // Let the caller try the buffered reading methods.
    nal
}

#[test]
fn ref_nal() {
    // Incomplete NAL with a first chunk only.
    let nal = common(&[0b0101_0001, 1, 2, 3, 4], &[], false);
    let mut r = nal.reader();
    assert_eq!(r.fill_buf().unwrap(), &[0b0101_0001, 1, 2, 3, 4]);
    r.consume(1);
    assert_eq!(r.fill_buf().unwrap(), &[1, 2, 3, 4]);
    r.consume(4);
    assert_eq!(r.fill_buf().unwrap_err().kind(), ErrorKind::WouldBlock);

    // Incomplete NAL with multiple chunks.
    let nal = common(&[0b0101_0001], &[&[1, 2], &[3, 4]], false);
    let mut r = nal.reader();
    assert_eq!(r.fill_buf().unwrap(), &[0b0101_0001]);
    r.consume(1);
    assert_eq!(r.fill_buf().unwrap(), &[1, 2]);
    r.consume(2);
    assert_eq!(r.fill_buf().unwrap(), &[3, 4]);
    r.consume(1);
    assert_eq!(r.fill_buf().unwrap(), &[4]);
    r.consume(1);
    assert_eq!(r.fill_buf().unwrap_err().kind(), ErrorKind::WouldBlock);

    // Complete NAL with first chunk only.
    let nal = common(&[0b0101_0001, 1, 2, 3, 4], &[], true);
    let mut r = nal.reader();
    assert_eq!(r.fill_buf().unwrap(), &[0b0101_0001, 1, 2, 3, 4]);
    r.consume(1);
    assert_eq!(r.fill_buf().unwrap(), &[1, 2, 3, 4]);
    r.consume(4);
    assert!(r.fill_buf().unwrap().is_empty());
}

#[test]
fn mvc_header_extension() {
    // svc_extension_flag=0, non_idr_flag=1, priority_id=0b00_0011 = 3
    // view_id = 0b01_1000_0010 = 386
    // temporal_id = 0b101 = 5
    // anchor_pic_flag=1, inter_view_flag=0, reserved_one_bit=1
    let bytes: [u8; 3] = [0b0100_0011, 0b01100000, 0b1010_1101];
    let ext = NalHeaderExtension::from_bytes(bytes);
    match ext {
        NalHeaderExtension::Mvc(mvc) => {
            assert!(mvc.non_idr_flag());
            assert_eq!(mvc.priority_id(), 3);
            assert_eq!(mvc.view_id(), 386);
            assert_eq!(mvc.temporal_id(), 5);
            assert!(mvc.anchor_pic_flag());
            assert!(!mvc.inter_view_flag());
        }
        _ => panic!("expected MVC extension"),
    }
}

#[test]
fn mvc_header_extension_view_id_zero() {
    // Minimal: all zeros except svc_extension_flag=0, reserved_one_bit=1
    let bytes: [u8; 3] = [0x00, 0x00, 0x01];
    let ext = NalHeaderExtension::from_bytes(bytes);
    match ext {
        NalHeaderExtension::Mvc(mvc) => {
            assert!(!mvc.non_idr_flag());
            assert_eq!(mvc.priority_id(), 0);
            assert_eq!(mvc.view_id(), 0);
            assert_eq!(mvc.temporal_id(), 0);
            assert!(!mvc.anchor_pic_flag());
            assert!(!mvc.inter_view_flag());
        }
        _ => panic!("expected MVC extension"),
    }
}

#[test]
fn mvc_header_extension_max_view_id() {
    // view_id = 1023 (max 10-bit value)
    let bytes: [u8; 3] = [0x00, 0xFF, 0b1100_0001];
    let ext = NalHeaderExtension::from_bytes(bytes);
    match ext {
        NalHeaderExtension::Mvc(mvc) => {
            assert_eq!(mvc.view_id(), 1023);
        }
        _ => panic!("expected MVC extension"),
    }
}

#[test]
fn svc_header_extension() {
    let bytes: [u8; 3] = [0b1010_1010, 0b1110_0011, 0b0101_0111];
    let ext = NalHeaderExtension::from_bytes(bytes);
    match ext {
        NalHeaderExtension::Svc(svc) => {
            assert!(!svc.idr_flag());
            assert_eq!(svc.priority_id(), 42);
            assert!(svc.no_inter_layer_pred_flag());
            assert_eq!(svc.dependency_id(), 6);
            assert_eq!(svc.quality_id(), 3);
            assert_eq!(svc.temporal_id(), 2);
            assert!(svc.use_ref_base_pic_flag());
            assert!(!svc.discardable_flag());
            assert!(svc.output_flag());
        }
        _ => panic!("expected SVC extension"),
    }
}

#[test]
fn svc_header_extension_idr() {
    let bytes: [u8; 3] = [0b1100_0000, 0b0000_0000, 0b0000_0011];
    let ext = NalHeaderExtension::from_bytes(bytes);
    match ext {
        NalHeaderExtension::Svc(svc) => {
            assert!(svc.idr_flag());
            assert_eq!(svc.priority_id(), 0);
            assert!(!svc.no_inter_layer_pred_flag());
            assert_eq!(svc.dependency_id(), 0);
            assert_eq!(svc.quality_id(), 0);
            assert_eq!(svc.temporal_id(), 0);
            assert!(!svc.use_ref_base_pic_flag());
            assert!(!svc.discardable_flag());
            assert!(!svc.output_flag());
        }
        _ => panic!("expected SVC extension"),
    }
}

#[test]
fn parse_nal_header_extension_from_refnal() {
    // NAL type 14 (PrefixNALUnit), nal_ref_idc=3
    let nal_bytes: &[u8] = &[0x6E, 0x00, 0x00, 0b0100_0001, 0xAA, 0xBB];
    let nal = RefNal::new(nal_bytes, &[], true);
    let (ext, _rbsp) = parse_nal_header_extension(&nal).unwrap();
    match ext {
        NalHeaderExtension::Mvc(mvc) => {
            assert_eq!(mvc.view_id(), 1);
            assert!(!mvc.non_idr_flag());
        }
        _ => panic!("expected MVC extension"),
    }
}

#[test]
fn reader_debug() {
    let tail: &[&[u8]] = &[&b"\x01"[..], &b"\x02\x03"[..]];
    let nal = RefNal::new(&b"\x00"[..], tail, false);
    assert_eq!(nal.reader().debug_string(), "00 01 02 03 ...");
}

#[test]
fn reader_debug_complete_chunks() {
    let tail: &[&[u8]] = &[&b"\xab"[..]];
    let nal = RefNal::new(&b"\x65\x0f"[..], tail, true);
    assert_eq!(nal.reader().debug_string(), "65 0f ab");
}

#[test]
fn parse_nal_header_extension_too_short() {
    let nal_bytes: &[u8] = &[0x6E, 0x00];
    let nal = RefNal::new(nal_bytes, &[], true);
    assert_eq!(parse_nal_header_extension(&nal).err().unwrap().kind(), ErrorKind::UnexpectedEof);
    let nal = RefNal::new(nal_bytes, &[], false);
    assert_eq!(parse_nal_header_extension(&nal).err().unwrap().kind(), ErrorKind::WouldBlock);
}

#[test]
fn extended_rbsp_bytes_skips_header_extension() {
    // Type 20 with an extension; the body holds an emulation prevention byte.
    let nal_bytes: &[u8] = &[0x74, 0x00, 0x00, 0x01, 0x00, 0x00, 0x03, 0x01];
    let nal = RefNal::new(nal_bytes, &[], true);
    let mut rbsp = Vec::new();
    extended_rbsp_bytes(&nal).read_to_end(&mut rbsp).unwrap();
    assert_eq!(rbsp, vec![0x00, 0x00, 0x01]);

    // The four skipped bytes are not examined for emulation prevention.
    let nal_bytes: &[u8] = &[0x74, 0x00, 0x00, 0x03, 0x02];
    let nal = RefNal::new(nal_bytes, &[], true);
    let mut rbsp = Vec::new();
    extended_rbsp_bytes(&nal).read_to_end(&mut rbsp).unwrap();
    assert_eq!(rbsp, vec![0x02]);
}

#[test]
fn unit_type_for_id_roundtrip() {
    for id in 0..32u8 {
        let t = UnitType::for_id(id).unwrap();
        assert_eq!(t.id(), id);
    }
    assert!(UnitType::for_id(32).is_err());
}

#[test]
fn forbidden_zero_bit() {
    assert!(NalHeader::new(0x80).is_err());
}

#[test]
fn header_converts_to_its_byte() {
    assert_eq!(u8::from(NalHeader::new(0x67).unwrap()), 0x67);
}

#[test]
fn extended_rbsp_bytes_removes_emulation_prevention_and_leaves_the_nal() {
    let bytes = [0x6e, 0x00, 0x00, 0x41, 0x00, 0x00, 0x03, 0x01, 0x07];
    let nal = RefNal::new(&bytes[..], &[], true);
    let mut rbsp = Vec::new();
    extended_rbsp_bytes(&nal).read_to_end(&mut rbsp).unwrap();
    assert_eq!(rbsp, vec![0x00, 0x00, 0x01, 0x07]);
    let mut all = Vec::new();
    nal.reader().read_to_end(&mut all).unwrap();
    assert_eq!(all, bytes.to_vec());
}
