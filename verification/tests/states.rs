use mdrv_ds::audiobridge;
use mdrv_ds::audiobridge::BridgeState;
use mdrv_ds::audiobridge::Mode;
use mdrv_ds::hid::Transport;
use mdrv_ds::holder;
use mdrv_ds::holder::EventAction;
use mdrv_ds::holder::FrameAction;
use mdrv_ds::holder::Holder;
use mdrv_ds::ipc;
use mdrv_ds::ipc::CreateMsg;
use mdrv_ds::proxy;
use mdrv_ds::uhid;
use mdrv_ds::xinput;
use mdrv_ds::xinput::XiChange;
use mdrv_ds::xinput::XiRelay;

fn text(s: &str) -> Option<String> {
    Some(s.to_string())
}

fn usb_rest() -> Vec<u8> {
    let mut r = vec![0u8; 64];
    r[0] = 1;
    for i in 1..5 {
        r[i] = 0x80;
    }
    r[8] = 0x08;
    r
}

fn create(version: u32) -> Vec<u8> {
    ipc::encode_create(&CreateMsg {
        bus: 3,
        vendor: 0x054c,
        product: 0x0ce6,
        version,
        name: "DualSense".to_string(),
        uniq: "02:00:00:00:00:00".to_string(),
        rdesc: vec![5, 1],
    })
}

fn started() -> Holder {
    let mut h = Holder::new();
    let c = create(1);
    match h.frame(ipc::TAG_CREATE, &c) {
        FrameAction::Create(None, Some(ev)) => assert_eq!(ev[0], 11),
        _ => panic!("no create"),
    }
    assert_eq!(h.finish_create(&c, &None), [0]);
    let mut ev = vec![0u8; uhid::EV_SIZE];
    ev[0] = 2;
    assert!(matches!(h.uhid_event(&ev, true), EventAction::Nothing));
    h
}

#[test]
fn modes_are_read_from_lines() {
    assert_eq!(audiobridge::parse_mode(" mode watch\n"), Some(Mode::Watch));
    assert_eq!(audiobridge::parse_mode("mode hold"), Some(Mode::Hold));
    assert_eq!(audiobridge::parse_mode("mode"), None);
    assert_eq!(audiobridge::negotiate(&None), Mode::Hold);
    assert_eq!(audiobridge::negotiate(&text("hello")), Mode::Hold);
    assert_eq!(audiobridge::negotiate(&text("mode watch\n")), Mode::Watch);
}

#[test]
fn bridge_socket() {
    assert_eq!(
        audiobridge::bridge_path(&None).split('/').nth(1),
        Some("tmp")
    );
    assert!(audiobridge::bridge_path(&text("/run")).starts_with("/run/"));
}

#[test]
fn input_resumes_when_the_last_hold_leaves() {
    let mut st = BridgeState::new();
    assert!(!audiobridge::paused(&st));
    assert!(st.connect(7, Mode::Hold));
    assert!(!st.connect(8, Mode::Watch));
    assert!(!st.connect(9, Mode::Hold));
    assert!(audiobridge::paused(&st));
    st.disconnect(7);
    assert!(audiobridge::paused(&st));
    st.switch_mode(9, Mode::Watch);
    assert!(!audiobridge::paused(&st));
    st.switch_mode(8, Mode::Hold);
    assert!(audiobridge::paused(&st));
    st.disconnect(8);
    assert!(!audiobridge::paused(&st));
}

#[test]
fn edges_go_to_all_and_sticks_to_holders() {
    let l = proxy::layout_for(Transport::Usb);
    let mut st = BridgeState::new();
    st.connect(1, Mode::Hold);
    st.connect(2, Mode::Watch);
    let mut r = usb_rest();
    // The first report: the hat was north in a fresh session.
    let first = audiobridge::feed(&mut st, &r, &l);
    assert_eq!(
        first,
        vec![(1, "pad up 0\n".to_string()), (2, "pad up 0\n".to_string())]
    );
    r[8] = 0x28;
    r[10] = 0x01;
    r[1] = 200;
    let got = audiobridge::feed(&mut st, &r, &l);
    assert_eq!(
        got,
        vec![
            (1, "pad cross 1\npad ps 1\nstick 0.567 0.000\n".to_string()),
            (2, "pad cross 1\npad ps 1\n".to_string()),
        ]
    );
    assert_eq!(audiobridge::feed(&mut st, &r, &l), vec![]);
    r[1] = 0;
    r[2] = 127;
    let got = audiobridge::feed(&mut st, &r, &l);
    assert_eq!(got, vec![(1, "stick -1.000 -0.008\n".to_string())]);
    r[1] = 255;
    r[2] = 255;
    let got = audiobridge::feed(&mut st, &r, &l);
    assert_eq!(got, vec![(1, "stick 1.000 1.000\n".to_string())]);
    r[1] = 254;
    assert_eq!(audiobridge::feed(&mut st, &r, &l), vec![]);
    r[8] = 0x03;
    r[10] = 0x80;
    let got = audiobridge::feed(&mut st, &r, &l);
    assert_eq!(
        got[1].1,
        "pad cross 0\npad ps 0\npad r3 1\npad right 1\npad down 1\n"
    );
    assert_eq!(audiobridge::feed(&mut st, &r[..9], &l), vec![]);
}

#[test]
fn hats_point_both_ways() {
    assert_eq!(audiobridge::hat_dirs(0), [true, false, false, false]);
    assert_eq!(audiobridge::hat_dirs(3), [false, true, true, false]);
    assert_eq!(audiobridge::hat_dirs(7), [true, false, false, true]);
    assert_eq!(audiobridge::hat_dirs(8), [false; 4]);
}

#[test]
fn the_same_shape_is_reused() {
    let mut h = started();
    match h.frame(ipc::TAG_CREATE, &create(1)) {
        FrameAction::Ack(a) => assert_eq!(a, [1]),
        _ => panic!("not reused"),
    }
    assert!(h.started);
}

#[test]
fn another_shape_destroys_first() {
    let mut h = started();
    match h.frame(ipc::TAG_CREATE, &create(2)) {
        FrameAction::Create(Some(gone), Some(ev)) => {
            assert_eq!(gone, uhid::destroy());
            assert_eq!(ev[0], 11);
        }
        _ => panic!("not created anew"),
    }
    assert!(!h.started);
}

#[test]
fn a_broken_create_is_refused() {
    let mut h = started();
    match h.frame(ipc::TAG_CREATE, &[1, 2, 3]) {
        FrameAction::Refuse(Some(gone), ack) => {
            assert_eq!(gone, uhid::destroy());
            assert_eq!(ack, [2, b'?']);
        }
        _ => panic!("not refused"),
    }
}

#[test]
fn a_failed_create_tells_why() {
    let mut h = Holder::new();
    let c = create(1);
    let _ = h.frame(ipc::TAG_CREATE, &c);
    let ack = h.finish_create(&c, &text("no"));
    assert_eq!(ack, [2, b'n', b'o']);
    assert!(!h.open);
}

#[test]
fn input_waits_for_the_start() {
    let mut h = Holder::new();
    let c = create(1);
    let _ = h.frame(ipc::TAG_CREATE, &c);
    let _ = h.finish_create(&c, &None);
    assert!(matches!(
        h.frame(ipc::TAG_INPUT, &[1, 2]),
        FrameAction::Nothing
    ));
    let mut h = started();
    match h.frame(ipc::TAG_INPUT, &[1, 2]) {
        FrameAction::Write(ev) => assert_eq!(ev, uhid::input2(&[1, 2])),
        _ => panic!("not written"),
    }
}

#[test]
fn replies_reach_the_kernel() {
    let mut h = started();
    match h.frame(ipc::TAG_GET_REPLY, &ipc::enc_get_reply(3, 0, &[9])) {
        FrameAction::Write(ev) => assert_eq!(ev, uhid::reply_get_report(3, 0, &[9])),
        _ => panic!("not written"),
    }
    match h.frame(ipc::TAG_SET_ACK, &ipc::enc_ack(3, 5)) {
        FrameAction::Write(ev) => assert_eq!(ev, uhid::reply_set_report(3, 5)),
        _ => panic!("not written"),
    }
    assert!(matches!(h.frame(ipc::TAG_SET_ACK, &[1]), FrameAction::Nothing));
    assert!(matches!(h.frame(0x7F, &[]), FrameAction::Nothing));
}

#[test]
fn the_neutral_report_parks_the_pad() {
    let mut h = started();
    assert_eq!(h.client_gone(), None);
    let _ = h.frame(ipc::TAG_NEUTRAL, &[1, 0x80]);
    assert_eq!(h.client_gone(), Some(uhid::input2(&[1, 0x80])));
    let _ = h.frame(ipc::TAG_NEUTRAL, &[]);
    assert_eq!(h.client_gone(), None);
    assert_eq!(h.exit_event(), Some(uhid::destroy()));
}

#[test]
fn destroy_and_stop_force_a_rebuild() {
    let mut h = started();
    match h.frame(ipc::TAG_DESTROY, &[]) {
        FrameAction::Close(Some(ev)) => assert_eq!(ev, uhid::destroy()),
        _ => panic!("not closed"),
    }
    assert!(matches!(
        h.frame(ipc::TAG_CREATE, &create(1)),
        FrameAction::Create(None, Some(_))
    ));
    let mut h = started();
    let mut ev = vec![0u8; uhid::EV_SIZE];
    ev[0] = 3;
    let _ = h.uhid_event(&ev, true);
    assert!(matches!(
        h.frame(ipc::TAG_CREATE, &create(1)),
        FrameAction::Create(Some(_), Some(_))
    ));
}

#[test]
fn kernel_requests_without_a_proxy_fail() {
    let mut h = started();
    let mut ev = vec![0u8; uhid::EV_SIZE];
    ev[0] = 9;
    uhid::write_u32(&mut ev, 4, 77);
    ev[8] = 0x05;
    match h.uhid_event(&ev, false) {
        EventAction::Write(w) => assert_eq!(w, uhid::reply_get_report(77, 22, &[])),
        _ => panic!("no answer"),
    }
    match h.uhid_event(&ev, true) {
        EventAction::Send(tag, p) => {
            assert_eq!(tag, ipc::TAG_GET_REQ);
            assert_eq!(p, ipc::enc_req(77, 5));
        }
        _ => panic!("not passed on"),
    }
    ev[0] = 13;
    uhid::write_u16(&mut ev, 10, 1);
    ev[12] = 0x42;
    match h.uhid_event(&ev, false) {
        EventAction::Write(w) => assert_eq!(w, uhid::reply_set_report(77, 5)),
        _ => panic!("no answer"),
    }
    match h.uhid_event(&ev, true) {
        EventAction::Send(tag, p) => {
            assert_eq!(tag, ipc::TAG_SET_REQ);
            assert_eq!(p, ipc::enc_set_req(77, 5, &[0x42]));
        }
        _ => panic!("not passed on"),
    }
    ev[0] = 6;
    uhid::write_u16(&mut ev, 4100, 3);
    assert!(matches!(h.uhid_event(&ev, false), EventAction::Nothing));
    match h.uhid_event(&ev, true) {
        EventAction::Send(tag, p) => {
            assert_eq!(tag, ipc::TAG_OUTPUT);
            assert_eq!(p.len(), 3);
        }
        _ => panic!("not passed on"),
    }
}

#[test]
fn xinput_overrides() {
    assert_eq!(xinput::override_path(&None), "/tmp/mdrv-ds-xinput");
    assert!(xinput::effective(false, &text("on\n")));
    assert!(!xinput::effective(true, &text("off")));
    assert!(xinput::effective(true, &None));
    assert!(xinput::effective(true, &text("maybe")));
    assert!(!xinput::effective(false, &text("maybe")));
}

#[test]
fn the_second_pad_has_its_own_address() {
    let m = xinput::create_msg(&[0xA2, 1, 2, 3, 4, 5]);
    assert_eq!(m.uniq, "a6:01:02:03:04:05");
    assert_eq!((m.bus, m.vendor, m.product, m.version), (3, 0x045e, 0x028e, 0x0114));
    assert_eq!(m.name, "Xbox 360 Controller");
    assert_eq!(m.rdesc.len(), 204);
}

#[test]
fn rest_translates_to_neutral() {
    let l = proxy::layout_for(Transport::Usb);
    assert_eq!(xinput::translate(&usb_rest(), &l), xinput::neutral());
    assert_eq!(xinput::neutral()[1], 0x14);
}

#[test]
fn presses_translate() {
    let l = proxy::layout_for(Transport::Usb);
    let mut r = usb_rest();
    r[1] = 255;
    r[2] = 0;
    r[3] = 0;
    r[4] = 255;
    r[5] = 7;
    r[6] = 9;
    r[8] = 0xF1;
    r[9] = 0xF3;
    r[10] = 0x03;
    let p = xinput::translate(&r, &l);
    assert_eq!(
        p,
        [0, 0x14, 0xF9, 0xF7, 7, 9, 0x7F, 0x7F, 0xFF, 0x7F, 0, 0x80, 0x81, 0x80]
    );
    assert_eq!(xinput::translate(&[], &l)[2], 0x01);
}

#[test]
fn rumble_in_both_forms() {
    assert_eq!(xinput::decode_rumble(&[0, 8, 0, 200, 100, 0, 0, 0]), Some((200, 100)));
    assert_eq!(xinput::decode_rumble(&[0, 8, 0, 200]), Some((200, 0)));
    assert_eq!(xinput::decode_rumble(&[0, 8, 50, 60, 0, 0, 0, 0]), Some((50, 60)));
    assert_eq!(xinput::decode_rumble(&[1, 3, 2, 0]), None);
    assert_eq!(xinput::decode_rumble(&[0, 8, 0]), None);
    let r = xinput::rumble_report(200, 100);
    assert_eq!(&r[..6], [0x02, 0x03, 0, 100, 200, 0]);
}

#[test]
fn the_second_pad_comes_and_goes() {
    let mut xi = XiRelay::none();
    assert_eq!(xi.sync(false), XiChange::Keep);
    assert_eq!(xi.sync(true), XiChange::Raise);
    let (m, n) = xi.raise(&[0, 1, 2, 3, 4, 5]).unwrap();
    assert_eq!(m.uniq, "04:01:02:03:04:05");
    assert_eq!(n, xinput::neutral());
    assert_eq!(xi.park_neutral(), None);
    xi.up = true;
    assert!(xi.raise(&[0, 1, 2, 3, 4, 5]).is_none());
    assert_eq!(xi.park_neutral(), Some(xinput::neutral()));
    assert_eq!(xi.sync(true), XiChange::Keep);
    assert_eq!(xi.sync(false), XiChange::Lower);
    assert!(xi.lower());
    assert!(!xi.lower());
}

#[test]
fn one_proxy_at_a_time() {
    assert_eq!(holder::turn_away(false), None);
    assert_eq!(
        holder::turn_away(true),
        Some("another proxy is already connected")
    );
    assert_eq!(holder::log_name(""), "holder.log");
    assert_eq!(holder::log_name("xi"), "holder-xi.log");
}
