use h264_reader::nal::sei::recovery_point::RecoveryPoint;
use h264_reader::nal::sei::user_data_registered_itu_t_t35::{
    ItuTT35, ItuTT35Error, Register, UserDataRegisteredItuTT35Reader,
};
use h264_reader::nal::sei::user_data_unregistered::{UserDataUnregistered, UserDataUnregisteredError};
use h264_reader::nal::sei::{HeaderType, SeiMessage, SeiReader};
use h264_reader::nal::{Nal, RefNal};
use h264_reader::Context;

#[test]
fn mod_it_works() {
    let data = [
        0x06, // SEI
        // header 1
        0x01, // type
        0x01, // len
        0x01, // payload
        // header 2
        0x02, // type
        0x02, // len
        0x02, 0x02, // payload
        0x80, // rbsp_trailing_bits
    ];
    let nal = RefNal::new(&data[..], &[], true);
    let mut scratch = Vec::new();
    let mut r = SeiReader::from_rbsp_bytes(nal.rbsp_bytes(), &mut scratch);
    let m1 = r.next().unwrap().unwrap();
    assert_eq!(m1.payload_type, HeaderType::PicTiming);
    assert_eq!(m1.payload, &[0x01]);
    let m2 = r.next().unwrap().unwrap();
    assert_eq!(m2.payload_type, HeaderType::PanScanRect);
    assert_eq!(m2.payload, &[0x02, 0x02]);
    assert_eq!(r.next().unwrap(), None);
    assert_eq!(r.next().unwrap(), None);
}

#[test]
fn sei_multi_byte_type_and_size() {
    // payload type 255 + 5 = 260 (reserved), payload size 255 + 1 = 256.
    let mut data = vec![0x06, 0xff, 0x05, 0xff, 0x01];
    data.extend(std::iter::repeat(0x11u8).take(256));
    data.push(0x80);
    let nal = RefNal::new(&data[..], &[], true);
    let mut scratch = Vec::new();
    let mut r = SeiReader::from_rbsp_bytes(nal.rbsp_bytes(), &mut scratch);
    let m = r.next().unwrap().unwrap();
    assert_eq!(m.payload_type, HeaderType::ReservedSeiMessage(260));
    assert_eq!(m.payload.len(), 256);
    assert_eq!(r.next().unwrap(), None);
}

#[test]
fn sei_truncated_payload_is_an_error() {
    let data = [0x06, 0x05, 0x04, 0x01, 0x02];
    let nal = RefNal::new(&data[..], &[], true);
    let mut scratch = Vec::new();
    let mut r = SeiReader::from_rbsp_bytes(nal.rbsp_bytes(), &mut scratch);
    assert!(r.next().is_err());
}

#[test]
fn header_type_from_id() {
    assert_eq!(HeaderType::from_id(0), HeaderType::BufferingPeriod);
    assert_eq!(HeaderType::from_id(5), HeaderType::UserDataUnregistered);
    assert_eq!(HeaderType::from_id(6), HeaderType::RecoveryPoint);
    assert_eq!(HeaderType::from_id(4), HeaderType::UserDataRegisteredItuTT35);
    assert_eq!(HeaderType::from_id(1000), HeaderType::ReservedSeiMessage(1000));
}

#[test]
fn recovery_point_parse() {
    // recovery_frame_cnt=0 (ue: 1), exact_match_flag=1, broken_link_flag=0,
    // changing_slice_group_idc=0 (u(2): 00), trailing: 1_000
    let msg = SeiMessage { payload_type: HeaderType::RecoveryPoint, payload: &[0xC4] };
    let rp = RecoveryPoint::read(&msg).unwrap();
    assert_eq!(rp.recovery_frame_cnt, 0);
    assert!(rp.exact_match_flag);
    assert!(!rp.broken_link_flag);
    assert_eq!(rp.changing_slice_group_idc, 0);
}

#[test]
fn parse_nonzero_frame_cnt() {
    // recovery_frame_cnt=5 (ue: 00110), exact_match_flag=0, broken_link_flag=1,
    // changing_slice_group_idc=1 (u(2): 01), trailing: 1_0
    let msg = SeiMessage { payload_type: HeaderType::RecoveryPoint, payload: &[0x32, 0xC0] };
    let rp = RecoveryPoint::read(&msg).unwrap();
    assert_eq!(rp.recovery_frame_cnt, 5);
    assert!(!rp.exact_match_flag);
    assert!(rp.broken_link_flag);
    assert_eq!(rp.changing_slice_group_idc, 1);
}

#[test]
fn recovery_point_truncated() {
    let msg = SeiMessage { payload_type: HeaderType::RecoveryPoint, payload: &[] };
    assert!(RecoveryPoint::read(&msg).is_err());
}

const UUID_BYTES: [u8; 16] = [
    0xdc, 0x45, 0xe9, 0xbd, 0xe6, 0xd9, 0x48, 0xb7, 0x96, 0x2c, 0xd8, 0x20, 0xd9, 0x23, 0xee, 0xef,
];

#[test]
fn user_data_unregistered_parse() {
    let user_data = [0x01, 0x02, 0x03];
    let mut payload = Vec::new();
    payload.extend_from_slice(&UUID_BYTES);
    payload.extend_from_slice(&user_data);
    let msg = SeiMessage { payload_type: HeaderType::UserDataUnregistered, payload: &payload };
    let parsed = UserDataUnregistered::read(&msg).unwrap();
    assert_eq!(parsed.uuid(), UUID_BYTES);
    assert_eq!(parsed.payload(), &user_data[..]);
}

#[test]
fn parse_no_user_data() {
    let msg = SeiMessage { payload_type: HeaderType::UserDataUnregistered, payload: &UUID_BYTES };
    let parsed = UserDataUnregistered::read(&msg).unwrap();
    assert_eq!(parsed.uuid(), UUID_BYTES);
    assert_eq!(parsed.payload(), &[][..]);
}

#[test]
fn too_short() {
    let msg = SeiMessage { payload_type: HeaderType::UserDataUnregistered, payload: &[0x01, 0x02, 0x03] };
    let err = UserDataUnregistered::read(&msg).unwrap_err();
    match err {
        UserDataUnregisteredError::NotEnoughData { expected, actual } => {
            assert_eq!(expected, 16);
            assert_eq!(actual, 3);
        }
    }
}

#[derive(Default)]
struct NullRegister {
    handled: bool,
}

impl Register for NullRegister {
    fn handle(&mut self, _ctx: &mut Context, country_code: ItuTT35, _payload: &[u8]) {
        assert_eq!(country_code, ItuTT35::UnitedKingdom);
        self.handled = true;
    }
}

/// A register that dispatches by country code to one register per country.
#[allow(non_snake_case)]
#[derive(Default)]
struct TestTT35Switch {
    UnitedKingdom: NullRegister,
}

impl Register for TestTT35Switch {
    fn handle(&mut self, ctx: &mut Context, country_code: ItuTT35, payload: &[u8]) {
        match country_code {
            ItuTT35::UnitedKingdom => self.UnitedKingdom.handle(ctx, country_code, payload),
            _ => (),
        }
    }
}

#[test]
fn macro_usage() {
    let mut sw = TestTT35Switch::default();
    let mut ctx = Context::new();
    let data = [0x00u8];
    sw.handle(&mut ctx, ItuTT35::UnitedKingdom, &data[..]);
    assert!(sw.UnitedKingdom.handled);
}

#[derive(Default)]
struct Recorder {
    seen: Vec<(ItuTT35, Vec<u8>)>,
}

impl Register for Recorder {
    fn handle(&mut self, _ctx: &mut Context, country_code: ItuTT35, payload: &[u8]) {
        self.seen.push((country_code, payload.to_vec()));
    }
}

#[test]
fn itu_t_t35_reader_dispatches() {
    let mut reader = UserDataRegisteredItuTT35Reader::new(Recorder::default());
    let mut ctx = Context::new();
    let r = reader.header(&mut ctx, HeaderType::UserDataRegisteredItuTT35, &[0xb5, 0x00, 0x31]);
    assert_eq!(r.unwrap(), ItuTT35::UnitedStates);
    assert_eq!(reader.register.seen, vec![(ItuTT35::UnitedStates, vec![0x00, 0x31])]);

    let r = reader.header(&mut ctx, HeaderType::UserDataRegisteredItuTT35, &[0xff, 0x07, 0x01]);
    assert_eq!(r.unwrap(), ItuTT35::Extended(0x07));
    assert_eq!(reader.register.seen[1], (ItuTT35::Extended(0x07), vec![0x07, 0x01]));

    let r = reader.header(&mut ctx, HeaderType::UserDataRegisteredItuTT35, &[0xff]);
    assert_eq!(r.unwrap_err(), ItuTT35Error::NotEnoughData { expected: 2, actual: 1 });
    let r = reader.header(&mut ctx, HeaderType::UserDataRegisteredItuTT35, &[]);
    assert_eq!(r.unwrap_err(), ItuTT35Error::NotEnoughData { expected: 1, actual: 0 });
    assert_eq!(reader.register.seen.len(), 2);
}
