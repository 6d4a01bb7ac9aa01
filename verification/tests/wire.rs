use mdrv_ds::ipc;
use mdrv_ds::ipc::CreateMsg;
use mdrv_ds::ipc::RecvError;
use mdrv_ds::sink;
use mdrv_ds::uhid;
use mdrv_ds::uhid::CreateParams;
use mdrv_ds::uhid::UhidEvent;

fn msg() -> CreateMsg {
    CreateMsg {
        bus: 0x0005,
        vendor: 0x054c,
        product: 0x0ce6,
        version: 0x0100,
        name: "Pad \u{e9}".to_string(),
        uniq: "02:00".to_string(),
        rdesc: vec![5, 1, 9, 5],
    }
}

#[test]
fn frame_bytes() {
    let mut out = vec![];
    ipc::send(&mut out, ipc::TAG_INPUT, &[7, 8, 9]);
    assert_eq!(out, [4, 0, 0, 0, 0x49, 7, 8, 9]);
    ipc::send(&mut out, ipc::TAG_DESTROY, &[]);
    assert_eq!(&out[8..], [1, 0, 0, 0, 0x44]);
}

#[test]
fn recv_returns_what_was_sent() {
    let mut out = vec![];
    ipc::send(&mut out, ipc::TAG_OUTPUT, &[1, 2, 3]);
    assert_eq!(ipc::recv(&out), Ok((ipc::TAG_OUTPUT, vec![1, 2, 3])));
    out.extend_from_slice(&[9, 9]);
    assert_eq!(ipc::recv(&out), Ok((ipc::TAG_OUTPUT, vec![1, 2, 3])));
}

#[test]
fn recv_errors() {
    assert_eq!(ipc::recv(&[1, 0, 0]), Err(RecvError::Short));
    assert_eq!(ipc::recv(&[3, 0, 0, 0, 0x49, 1]), Err(RecvError::Short));
    assert_eq!(ipc::recv(&[0, 0, 0, 0, 0x49]), Err(RecvError::BadLength));
    assert_eq!(ipc::recv(&[1, 64, 0, 0, 0x49]), Err(RecvError::BadLength));
    assert_eq!(ipc::body_len(&[0, 64, 0, 0]), Ok(ipc::MAX_FRAME));
    assert_eq!(ipc::body_len(&[1, 64, 0, 0]), Err(RecvError::BadLength));
}

#[test]
fn create_payload_bytes() {
    let p = ipc::encode_create(&msg());
    let mut expected = vec![5u8, 0, 0x4c, 0x05, 0, 0, 0xe6, 0x0c, 0, 0, 0, 1, 0, 0];
    expected.push(6);
    expected.extend_from_slice("Pad \u{e9}".as_bytes());
    expected.push(5);
    expected.extend_from_slice(b"02:00");
    expected.extend_from_slice(&[4, 0, 5, 1, 9, 5]);
    assert_eq!(p, expected);
}

#[test]
fn decode_returns_what_was_encoded() {
    let p = ipc::encode_create(&msg());
    let m = ipc::decode_create(&p).unwrap();
    assert_eq!(m.bus, 5);
    assert_eq!(m.vendor, 0x054c);
    assert_eq!(m.product, 0x0ce6);
    assert_eq!(m.version, 0x0100);
    assert_eq!(m.name, "Pad \u{e9}");
    assert_eq!(m.uniq, "02:00");
    assert_eq!(m.rdesc, vec![5, 1, 9, 5]);
}

#[test]
fn decode_refuses_cut_and_broken_payloads() {
    let p = ipc::encode_create(&msg());
    for n in 0..p.len() {
        assert!(ipc::decode_create(&p[..n]).is_none());
    }
    let mut bad = p.clone();
    bad[15] = 0xFF;
    assert!(ipc::decode_create(&bad).is_none());
}

#[test]
fn small_payloads_round_trip() {
    assert_eq!(ipc::enc_req(0x0102_0304, 9), [4, 3, 2, 1, 9]);
    assert_eq!(ipc::dec_req(&[4, 3, 2, 1, 9]), Some((0x0102_0304, 9)));
    assert_eq!(ipc::dec_req(&[4, 3, 2, 1]), None);
    assert_eq!(ipc::dec_req(&[4, 3, 2, 1, 9, 9]), None);

    let p = ipc::enc_get_reply(7, 5, &[1, 2]);
    assert_eq!(p, [7, 0, 0, 0, 5, 0, 2, 0, 1, 2]);
    assert_eq!(ipc::dec_get_reply(&p), Some((7, 5, vec![1, 2])));
    assert_eq!(ipc::dec_get_reply(&p[..9]), None);
    assert_eq!(ipc::dec_get_reply(&p[..7]), None);

    let p = ipc::enc_set_req(7, 0x20, &[3]);
    assert_eq!(p, [7, 0, 0, 0, 0x20, 1, 0, 3]);
    assert_eq!(ipc::dec_set_req(&p), Some((7, 0x20, vec![3])));
    assert_eq!(ipc::dec_set_req(&p[..7]), None);
    assert_eq!(ipc::dec_set_req(&p[..6]), None);

    assert_eq!(ipc::enc_ack(0x0100, 22), [0, 1, 0, 0, 22, 0]);
    assert_eq!(ipc::dec_ack(&[0, 1, 0, 0, 22, 0]), Some((0x0100, 22)));
    assert_eq!(ipc::dec_ack(&[0, 1, 0, 0, 22]), None);
}

#[test]
fn holder_sockets() {
    let run = Some("/run/user/1".to_string());
    assert_eq!(
        ipc::sock_path_for(&run, ""),
        "/run/user/1/mdrv-ds.sock"
    );
    assert_eq!(
        ipc::sock_path_for(&None, "xi"),
        "/tmp/mdrv-ds-xi.sock"
    );
}

#[test]
fn create2_event_bytes() {
    let p = CreateParams {
        name: "DualSense",
        uniq: "02:11",
        rdesc: &[5, 1, 9],
        bus: uhid::BUS_USB,
        vendor: 0x054c,
        product: 0x0ce6,
        version: 0x0100,
    };
    let ev = uhid::create2(&p).unwrap();
    assert_eq!(ev.len(), uhid::EV_SIZE);
    assert_eq!(uhid::read_u32(&ev, 0), 11);
    assert_eq!(&ev[4..14], b"DualSense\0");
    assert_eq!(&ev[196..202], b"02:11\0");
    assert_eq!(uhid::read_u16(&ev, 260), 3);
    assert_eq!(uhid::read_u16(&ev, 262), 3);
    assert_eq!(uhid::read_u32(&ev, 264), 0x054c);
    assert_eq!(uhid::read_u32(&ev, 268), 0x0ce6);
    assert_eq!(uhid::read_u32(&ev, 272), 0x0100);
    assert_eq!(uhid::read_u32(&ev, 276), 0);
    assert_eq!(&ev[280..284], [5, 1, 9, 0]);
}

#[test]
fn create2_cuts_texts_and_refuses_long_descriptors() {
    let long = "n".repeat(200);
    let rdesc = vec![1u8; 4097];
    let mut p = CreateParams {
        name: &long,
        uniq: "",
        rdesc: &rdesc[..4096],
        bus: 5,
        vendor: 0,
        product: 0,
        version: 0,
    };
    let ev = uhid::create2(&p).unwrap();
    assert_eq!(ev[4 + 126], b'n');
    assert_eq!(ev[4 + 127], 0);
    assert_eq!(ev[uhid::EV_SIZE - 1], 1);
    p.rdesc = &rdesc;
    assert!(uhid::create2(&p).is_none());
}

#[test]
fn event_builders() {
    let ev = uhid::destroy();
    assert_eq!(ev.len(), uhid::EV_SIZE);
    assert_eq!(ev[0], 1);
    assert!(ev[1..].iter().all(|b| *b == 0));

    let ev = uhid::input2(&[0x31, 2, 3]);
    assert_eq!(&ev[..9], [12, 0, 0, 0, 3, 0, 0x31, 2, 3]);
    let ev = uhid::input2(&vec![1u8; 5000]);
    assert_eq!(uhid::read_u16(&ev, 4), 4096);

    let ev = uhid::reply_get_report(0x0102, 0, &[9, 8]);
    assert_eq!(&ev[..14], [10, 0, 0, 0, 2, 1, 0, 0, 0, 0, 2, 0, 9, 8]);
    let ev = uhid::reply_get_report(0x0102, 5, &[9, 8]);
    assert_eq!(&ev[..14], [10, 0, 0, 0, 2, 1, 0, 0, 5, 0, 0, 0, 0, 0]);

    let ev = uhid::reply_set_report(3, 22);
    assert_eq!(&ev[..12], [14, 0, 0, 0, 3, 0, 0, 0, 22, 0, 0, 0]);
}

#[test]
fn parse_events() {
    let mut ev = vec![0u8; uhid::EV_SIZE];
    ev[0] = 2;
    assert!(matches!(uhid::parse_event(&ev), UhidEvent::Start));
    ev[0] = 3;
    assert!(matches!(uhid::parse_event(&ev), UhidEvent::Stop));
    ev[0] = 6;
    ev[4] = 0x02;
    ev[5] = 0xFF;
    uhid::write_u16(&mut ev, 4100, 2);
    assert!(matches!(uhid::parse_event(&ev), UhidEvent::Output([0x02, 0xFF])));
    uhid::write_u16(&mut ev, 4100, 9000);
    match uhid::parse_event(&ev) {
        UhidEvent::Output(d) => assert_eq!(d.len(), 4096),
        _ => panic!("not an output"),
    }
    ev[0] = 9;
    uhid::write_u32(&mut ev, 4, 0x0A0B_0C0D);
    ev[8] = 0x20;
    assert!(matches!(
        uhid::parse_event(&ev),
        UhidEvent::GetReport(0x0A0B_0C0D, 0x20)
    ));
    ev[0] = 13;
    uhid::write_u16(&mut ev, 10, 2);
    ev[12] = 7;
    ev[13] = 8;
    assert!(matches!(
        uhid::parse_event(&ev),
        UhidEvent::SetReport(0x0A0B_0C0D, 0x20, [7, 8])
    ));
    ev[0] = 77;
    assert!(matches!(uhid::parse_event(&ev), UhidEvent::Other(77)));
    assert!(matches!(
        uhid::parse_event(&ev[1..]),
        UhidEvent::Other(u32::MAX)
    ));
}

#[test]
fn integers_read_back() {
    let mut b = [0u8; 6];
    uhid::write_u32(&mut b, 1, 0xDEAD_BEEF);
    assert_eq!(b, [0, 0xEF, 0xBE, 0xAD, 0xDE, 0]);
    assert_eq!(uhid::read_u32(&b, 1), 0xDEAD_BEEF);
    uhid::write_u16(&mut b, 4, 0x1234);
    assert_eq!(uhid::read_u16(&b, 4), 0x1234);
}

#[test]
fn mode_overrides_that_say_nothing() {
    let cfg = Some("mute".to_string());
    assert_eq!(sink::current_mode(&cfg, &Some("  ".to_string())), sink::MODE_MUTE);
    assert_eq!(sink::current_mode(&cfg, &Some("loud".to_string())), sink::MODE_MUTE);
}
