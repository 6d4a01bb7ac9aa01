use std::collections::HashMap;

use mdrv_ds::chords::ChordState;
use mdrv_ds::config;
use mdrv_ds::config::NotifyConfig;
use mdrv_ds::crc;
use mdrv_ds::hid::Transport;
use mdrv_ds::ipc;
use mdrv_ds::proxy::StickCurve;
use mdrv_ds::relay;
use mdrv_ds::relay::FeatureStep;
use mdrv_ds::relay::ForwardStep;
use mdrv_ds::relay::JackDetect;
use mdrv_ds::relay::Job;
use mdrv_ds::relay::OutputStep;
use mdrv_ds::relay::Ready;
use mdrv_ds::relay::RelayParams;
use mdrv_ds::relay::RelayState;
use mdrv_ds::relay::SetStep;
use mdrv_ds::relay::XiStep;
use mdrv_ds::session;
use mdrv_ds::sink;
use mdrv_ds::sink::SinkRelays;
use mdrv_ds::xinput;

const MS: u64 = 1_000_000;

fn params(l2cap: bool, usb_view: bool, transport: Transport) -> RelayParams {
    RelayParams {
        l2cap,
        usb_view,
        swap_ox: false,
        deadzone: false,
        transport,
        product: 0x0ce6,
        virtual_mac: [0xA2, 1, 2, 3, 4, 5],
        pace_ns: 12 * MS,
        layout: relay::relay_layout(l2cap, 0x0ce6, usb_view, transport),
    }
}

fn plain() -> ChordState {
    ChordState::new(vec![], NotifyConfig::default(), None, None)
}

fn usb() -> RelayState {
    RelayState::new(params(false, false, Transport::Usb), plain(), false, false, 5_000 * MS)
}

fn direct(usb_view: bool) -> RelayState {
    RelayState::new(
        params(true, usb_view, Transport::Bluetooth),
        plain(),
        false,
        false,
        5_000 * MS,
    )
}

fn usb_rest() -> Vec<u8> {
    let mut r = vec![0u8; 64];
    r[0] = 1;
    for i in 1..5 {
        r[i] = 0x80;
    }
    r[8] = 0x08;
    r
}

fn bt_rest() -> Vec<u8> {
    let mut r = vec![0u8; 78];
    r[0] = 0x31;
    r[1] = 0x01;
    for i in 2..6 {
        r[i] = 0x80;
    }
    r[9] = 0x08;
    r
}

fn sent(s: ForwardStep) -> Vec<u8> {
    match s {
        ForwardStep::Send(r) => r,
        _ => panic!("not sent"),
    }
}

#[test]
fn layouts_of_sessions() {
    assert_eq!(relay::relay_layout(true, 0x05c4, false, Transport::Bluetooth).report_id, 0x11);
    assert_eq!(relay::relay_layout(true, 0x0ce6, false, Transport::Bluetooth).report_id, 0x31);
    assert_eq!(relay::relay_layout(true, 0x0ce6, true, Transport::Bluetooth).report_id, 0x01);
    assert_eq!(relay::relay_layout(false, 0x05c4, false, Transport::Usb).report_id, 0x01);
}

#[test]
fn the_jack_engages_at_sixteen_highs() {
    let mut j = JackDetect::new(0);
    for i in 0..15u64 {
        assert!(!j.step(true, i));
    }
    assert!(!j.latched);
    assert!(j.step(true, 15));
    assert!(j.latched);
}

#[test]
fn few_highs_never_engage_the_jack() {
    let mut j = JackDetect::new(0);
    for round in 0..100u64 {
        for _ in 0..4 {
            assert!(!j.step(true, round));
        }
        assert!(!j.step(false, round));
    }
    assert!(!j.latched);
}

#[test]
fn flutter_never_disengages_the_jack() {
    let mut j = JackDetect::new(0);
    for i in 0..16u64 {
        j.step(true, i);
    }
    let mut t = 16;
    for _ in 0..50 {
        for _ in 0..7 {
            t += 100 * MS;
            assert!(!j.step(false, t));
        }
        t += 99 * MS;
        assert!(!j.step(true, t));
    }
    assert!(j.latched);
    assert!(!j.step(false, t + 800 * MS - 1));
    assert!(j.step(false, t + 800 * MS));
    assert!(!j.latched);
    for i in 0..3u64 {
        assert!(!j.step(true, t + 801 * MS + i));
    }
    assert!(!j.latched);
}

#[test]
fn cabled_view_of_a_bluetooth_report() {
    let bt: Vec<u8> = (0..78u8).map(|i| if i == 0 { 0x31 } else { i }).collect();
    let r = relay::usb_report(&bt, 0x55, false);
    assert_eq!(r.len(), 64);
    assert_eq!(r[0], 1);
    assert_eq!(&r[1..7], [2, 3, 4, 5, 6, 7]);
    assert_eq!(r[7], 0x55);
    assert_eq!(r[8], 9);
    assert_eq!(&r[0x21..0x29], [0x22, 0x23, 0x24, 0x25, 0x26, 0x27, 0x28, 0x29]);
    assert_eq!(r[0x29], 0);
    assert_eq!(r[0x36], 0x37 | 0x08);
    assert_eq!(r[63], 64);
    let mut idle = bt.clone();
    idle[0x22] = 0x85;
    idle[0x26] = 0xFF;
    let r = relay::usb_report(&idle, 0, false);
    assert_eq!(&r[0x21..0x29], [0x80, 0, 0, 0, 0x80, 0, 0, 0]);
}

#[test]
fn cross_and_circle_swap() {
    let mut bt = bt_rest();
    bt[9] = 0x28;
    assert_eq!(relay::usb_report(&bt, 0, true)[8], 0x48);
    bt[9] = 0x48;
    assert_eq!(relay::usb_report(&bt, 0, true)[8], 0x28);
    bt[9] = 0xF3;
    assert_eq!(relay::usb_report(&bt, 0, true)[8], 0xF3);
}

#[test]
fn native_reports_pass_untouched() {
    let mut st = direct(false);
    let mut raw = vec![0xA1u8];
    raw.extend_from_slice(&bt_rest());
    let got = st.intake(&raw, 5_000 * MS);
    assert_eq!(got.report.as_deref(), Some(&bt_rest()[..]));
    assert!(got.writes.is_empty());
    let out = sent(st.forward(got.report.unwrap(), 5_000 * MS, false, false, &None));
    assert_eq!(out, bt_rest());
}

#[test]
fn audio_frames_of_a_direct_session_are_dropped() {
    let mut st = direct(false);
    let mut raw = bt_rest();
    raw[1] = 0x02;
    assert!(st.intake(&raw, 0).report.is_none());
    assert!(st.intake(&[0xA1, 0x01, 0x80], 0).report.is_none());
}

#[test]
fn the_cabled_view_counts_its_own_reports() {
    let mut st = direct(true);
    for seq in 1..4u8 {
        let got = st.intake(&bt_rest(), 0).report.unwrap();
        assert_eq!(got[0], 1);
        assert_eq!(got[7], seq);
    }
}

#[test]
fn a_plug_engages_a_cabled_pad() {
    let mut st = usb();
    let mut r = usb_rest();
    r[54] = 0x01;
    for i in 0..15u64 {
        let got = st.intake(&r, 5_000 * MS + i);
        assert_eq!(got.jack_change, None);
        assert!(got.writes.is_empty());
    }
    let got = st.intake(&r, 5_000 * MS + 15);
    assert_eq!(got.jack_change, Some(true));
    assert_eq!(got.writes, vec![sink::usb_engage_report(true).to_vec()]);
    assert!(st.plugged);
    let got = st.intake(&r, 7_000 * MS);
    assert_eq!(got.writes, vec![sink::usb_reassert_report(true).to_vec()]);
    assert!(st.intake(&r, 8_999 * MS).writes.is_empty());
}

#[test]
fn chords_act_before_the_pause() {
    let (byte, bit) = config::chord_button("cross").unwrap();
    let chords = ChordState::new(
        vec![
            ("cross".to_string(), byte, bit, "run".to_string()),
            ("l3".to_string(), 1, 0x40, config::PS_TOGGLE.to_string()),
        ],
        NotifyConfig::default(),
        None,
        None,
    );
    let mut st = RelayState::new(params(false, false, Transport::Usb), chords, false, false, 0);
    st.intake(&usb_rest(), 0);
    let mut r = usb_rest();
    r[8] = 0x28;
    r[10] = 0x01;
    let got = st.intake(&r, 1);
    assert_eq!(got.fire.runs, vec![("cross".to_string(), "run".to_string())]);
    assert_eq!(&got.report.unwrap()[8..11], [0x08, 0, 0]);
    r[9] = 0x40;
    let got = st.intake(&r, 2);
    assert_eq!(got.fire.toggle, Some("l3".to_string()));
    assert!(st.ps_swallow);
    assert!(got.event.is_none());
}

#[test]
fn the_closing_press_never_reaches_the_game() {
    let mut st = usb();
    assert!(matches!(st.forward(usb_rest(), 0, true, false, &None), ForwardStep::Drop(true)));
    assert!(matches!(st.forward(usb_rest(), 1, true, false, &None), ForwardStep::Drop(false)));
    let mut press = usb_rest();
    press[8] = 0x28;
    for t in 2..10 {
        let step = st.forward(press.clone(), t, false, false, &None);
        assert!(matches!(step, ForwardStep::Drop(false)));
    }
    assert_eq!(sent(st.forward(usb_rest(), 11, false, false, &None)), usb_rest());
    assert_eq!(sent(st.forward(press.clone(), 12, false, false, &None)), press);
}

#[test]
fn blocked_reports_carry_no_buttons() {
    let mut st = usb();
    let mut press = usb_rest();
    press[1] = 10;
    press[6] = 200;
    press[8] = 0x22;
    press[9] = 0xFF;
    let out = sent(st.forward(press.clone(), 0, false, true, &None));
    assert_eq!(&out[..11], [1, 0x80, 0x80, 0x80, 0x80, 0, 0, 0, 8, 0, 0]);
    // The block is lifted, the buttons are still down.
    let out = sent(st.forward(press.clone(), 1, false, false, &None));
    assert_eq!(&out[8..11], [8, 0, 0]);
    assert_eq!(sent(st.forward(usb_rest(), 2, false, false, &None)), usb_rest());
    assert_eq!(sent(st.forward(press.clone(), 3, false, false, &None)), press);
}

#[test]
fn a_hidden_ps_button_never_leaves() {
    let mut st = usb();
    st.ps_swallow = true;
    let mut press = usb_rest();
    press[10] = 0x03;
    assert_eq!(sent(st.forward(press, 0, false, false, &None))[10], 0x02);
}

#[test]
fn sticks_are_shaped_unless_blocked() {
    let curve = Some(StickCurve {
        map: (0..=255u8).rev().collect(),
    });
    let mut st = usb();
    let out = sent(st.forward(usb_rest(), 0, false, false, &curve));
    assert_eq!(&out[1..5], [0x7F; 4]);
    let out = sent(st.forward(usb_rest(), 0, false, true, &curve));
    assert_eq!(&out[1..5], [0x80; 4]);
}

#[test]
fn direct_sessions_are_paced() {
    let mut st = direct(false);
    let t = 5_000 * MS;
    assert!(matches!(st.forward(bt_rest(), t, false, false, &None), ForwardStep::Send(_)));
    let step = st.forward(bt_rest(), t + 12 * MS - 1, false, false, &None);
    assert!(matches!(step, ForwardStep::Hold(_)));
    assert!(matches!(
        st.forward(bt_rest(), t + 12 * MS, false, false, &None),
        ForwardStep::Send(_)
    ));
    assert_eq!(relay::pace_us(&None), 12_000);
    assert_eq!(relay::pace_us(&Some("4000".to_string())), 4_000);
    assert_eq!(relay::pace_us(&Some("fast".to_string())), 12_000);
}

#[test]
fn a_silent_node_is_given_up() {
    let mut st = usb();
    for _ in 0..50 {
        assert!(!st.on_eof());
    }
    assert!(st.on_eof());
    st.intake(&usb_rest(), 0);
    assert!(!st.on_eof());
}

#[test]
fn reloading_keeps_the_session() {
    let mut st = usb();
    st.forward(usb_rest(), 0, true, false, &None);
    st.reload(plain(), true);
    assert!(st.ps_swallow);
    assert!(st.pause_break);
}

#[test]
fn cabled_outputs_keep_the_path() {
    let mut relays = SinkRelays::none();
    let mut st = usb();
    let mut data = vec![0u8; 48];
    data[0] = 0x02;
    data[7] = 0x3F;
    st.plugged = true;
    match st.on_output(&mut relays, &data) {
        OutputStep::Write(w) => assert_eq!(w[7], 0x0F),
        _ => panic!("not written"),
    }
    st.plugged = false;
    data[7] = 0x01;
    match st.on_output(&mut relays, &data) {
        OutputStep::Write(w) => assert_eq!(w[7], 0x31),
        _ => panic!("not written"),
    }
}

#[test]
fn direct_outputs_go_to_the_writer() {
    let mut relays = SinkRelays::started(false, 0, 0);
    let st = direct(false);
    let mut data = vec![0u8; 63];
    data[0] = 0x02;
    assert!(matches!(st.on_output(&mut relays, &data), OutputStep::Queued));
    assert_eq!(relays.next_output(), Some(data[..48].to_vec()));
    data[0] = 0x07;
    assert!(matches!(st.on_output(&mut relays, &data), OutputStep::Dropped));
    let mut none = SinkRelays::none();
    data[0] = 0x02;
    assert!(matches!(st.on_output(&mut none, &data), OutputStep::Dropped));
}

#[test]
fn dualshock_outputs_go_straight() {
    let mut relays = SinkRelays::started(false, 0, 0);
    let mut st = direct(false);
    st.p.product = 0x05c4;
    let mut data = vec![0u8; 78];
    data[0] = 0x11;
    match st.on_output(&mut relays, &data) {
        OutputStep::Write(w) => {
            assert_eq!(w.len(), 79);
            assert_eq!(&w[..2], [0xA2, 0x11]);
        }
        _ => panic!("not written"),
    }
}

#[test]
fn cached_features_are_served_with_the_virtual_address() {
    let st = direct(false);
    let mut features = HashMap::new();
    let mut reply = vec![0xA3u8, 0x09];
    reply.extend_from_slice(&[9; 19]);
    assert_eq!(relay::on_ctrl_frame(&mut features, &reply), Some(0x09));
    assert_eq!(relay::on_ctrl_frame(&mut features, &[0x00]), None);
    let step = st.on_get(&features, &HashMap::new(), &ipc::enc_req(4, 0x09), true);
    let FeatureStep::Reply(p) = step else {
        panic!("not served")
    };
    let (id, err, data) = ipc::dec_get_reply(&p).unwrap();
    assert_eq!((id, err), (4, 0));
    assert_eq!(data.len(), 20);
    assert_eq!(&data[..8], [0x09, 5, 4, 3, 2, 1, 0xA2, 9]);
    assert_eq!(&data[16..], crc::crc32_seed(0xA3, &data[..16]).to_le_bytes());
}

#[test]
fn the_cabled_view_has_no_feature_crc() {
    let st = direct(true);
    let data = st.serve(&[0x20, 1, 2, 3, 4, 5, 6], 0x20);
    assert_eq!(data, [0x20, 1, 2, 0, 0, 0, 0]);
    assert_eq!(st.serve(&[0x20, 1, 2, 3], 0x20), [0x20, 1, 2, 3]);
}

#[test]
fn unknown_features_are_fetched_or_refused() {
    let st = direct(false);
    let mut features = HashMap::new();
    let req = ipc::enc_req(4, 0x22);
    assert!(matches!(
        st.on_get(&features, &HashMap::new(), &req, true),
        FeatureStep::Fetch(4, 0x22)
    ));
    match st.on_get(&features, &HashMap::new(), &req, false) {
        FeatureStep::Reply(p) => assert_eq!(p, ipc::enc_get_reply(4, 22, &[])),
        _ => panic!("not refused"),
    }
    assert!(matches!(
        st.on_get(&features, &HashMap::new(), &[1, 2], true),
        FeatureStep::Ignore
    ));
    let p = st.on_fetched(&mut features, 4, 0x22, Some(vec![0x22, 7]));
    assert_eq!(p, ipc::enc_get_reply(4, 0, &[0x22, 7]));
    assert_eq!(features[&0x22], vec![0x22, 7]);
    let p = st.on_fetched(&mut features, 4, 0x23, None);
    assert_eq!(p, ipc::enc_get_reply(4, 22, &[]));
}

#[test]
fn hidraw_features_go_by_the_descriptor() {
    let st = usb();
    let mut lengths = HashMap::new();
    lengths.insert(0x05u8, 41u64);
    assert!(matches!(
        st.on_get(&HashMap::new(), &lengths, &ipc::enc_req(1, 0x05), false),
        FeatureStep::Ioctl(1, 0x05, 41)
    ));
    match st.on_get(&HashMap::new(), &lengths, &ipc::enc_req(1, 0x06), false) {
        FeatureStep::Reply(p) => assert_eq!(p, ipc::enc_get_reply(1, 22, &[])),
        _ => panic!("not refused"),
    }
    assert_eq!(st.on_feature(1, 0x05, Err(5)), ipc::enc_get_reply(1, 5, &[]));
    let p = st.on_feature(1, 0x09, Ok(vec![9; 20]));
    let data = ipc::dec_get_reply(&p).unwrap().2;
    assert_eq!(&data[..8], [9, 5, 4, 3, 2, 1, 0xA2, 9]);
    assert_eq!(&data[8..], [9; 12]);
    let mut st = usb();
    st.p.transport = Transport::Bluetooth;
    let p = st.on_feature(1, 0x0b, Ok(vec![9; 20]));
    let data = ipc::dec_get_reply(&p).unwrap().2;
    assert_eq!(&data[..8], [9, 5, 4, 3, 2, 1, 0xA2, 9]);
    assert_eq!(&data[16..], crc::crc32_seed(0xA3, &data[..16]).to_le_bytes());
}

#[test]
fn feature_writes() {
    let mut relays = SinkRelays::started(false, 0, 0);
    let st = direct(false);
    let mut state = vec![0u8; 78];
    state[0] = 0x31;
    match st.on_set(&mut relays, &ipc::enc_set_req(8, 0x31, &state), false) {
        SetStep::Ack(p) => assert_eq!(p, ipc::enc_ack(8, 0)),
        _ => panic!("not acked"),
    }
    assert_eq!(relays.out_q.len(), 1);
    match st.on_set(&mut relays, &ipc::enc_set_req(8, 0x08, &[8, 1, 2, 3, 0, 0, 0, 0]), false) {
        SetStep::Ctrl(8, body) => {
            assert_eq!(&body[..4], [8, 1, 2, 3]);
            assert_eq!(&body[4..], crc::crc32_seed(0x53, &[8, 1, 2, 3]).to_le_bytes());
        }
        _ => panic!("not passed on"),
    }
    match st.on_set(&mut relays, &ipc::enc_set_req(8, 0x08, &[8, 1]), true) {
        SetStep::Ack(p) => assert_eq!(p, ipc::enc_ack(8, 0)),
        _ => panic!("not acked"),
    }
    let mut none = SinkRelays::none();
    match usb().on_set(&mut none, &ipc::enc_set_req(8, 0x08, &[8, 1]), false) {
        SetStep::Write(8, d) => assert_eq!(d, [8, 1]),
        _ => panic!("not written"),
    }
    assert!(matches!(usb().on_set(&mut none, &[1], false), SetStep::Ignore));
    assert_eq!(relay::set_ack(8, true), ipc::enc_ack(8, 0));
    assert_eq!(relay::set_ack(8, false), ipc::enc_ack(8, 5));
}

#[test]
fn rumble_of_the_second_pad() {
    let mut none = SinkRelays::none();
    let motors = [0u8, 8, 0, 200, 100, 0, 0, 0];
    match usb().on_xi_frame(&mut none, ipc::TAG_OUTPUT, &motors) {
        XiStep::Write(w) => assert_eq!(w, xinput::rumble_report(200, 100)),
        _ => panic!("not written"),
    }
    assert!(matches!(
        direct(false).on_xi_frame(&mut none, ipc::TAG_OUTPUT, &motors),
        XiStep::Unplayed
    ));
    assert!(matches!(
        usb().on_xi_frame(&mut none, ipc::TAG_OUTPUT, &[1, 3, 2, 0]),
        XiStep::Nothing
    ));
    let mut live = SinkRelays::started(false, 0, 0);
    assert!(matches!(
        direct(false).on_xi_frame(&mut live, ipc::TAG_OUTPUT, &motors),
        XiStep::Nothing
    ));
    let q = live.next_output().unwrap();
    assert_eq!(q.len(), 48);
    assert_eq!(&q[..6], [0x02, 0x03, 0, 100, 200, 0]);
    match usb().on_xi_frame(&mut none, ipc::TAG_GET_REQ, &ipc::enc_req(6, 1)) {
        XiStep::Reply(tag, p) => {
            assert_eq!(tag, ipc::TAG_GET_REPLY);
            assert_eq!(p, ipc::enc_get_reply(6, 22, &[]));
        }
        _ => panic!("no reply"),
    }
    match usb().on_xi_frame(&mut none, ipc::TAG_SET_REQ, &ipc::enc_set_req(6, 1, &[])) {
        XiStep::Reply(tag, p) => {
            assert_eq!(tag, ipc::TAG_SET_ACK);
            assert_eq!(p, ipc::enc_ack(6, 0));
        }
        _ => panic!("no reply"),
    }
}

#[test]
fn the_output_queue_keeps_the_newest() {
    let mut relays = SinkRelays::started(false, 0, 0);
    for i in 0..20u8 {
        assert!(sink::enqueue_output(&mut relays, &[i]));
    }
    assert_eq!(relays.out_q.len(), sink::OUT_Q_CAP);
    assert_eq!(relays.next_output(), Some(vec![4]));
    assert_eq!(relays.out_q.back(), Some(&vec![19u8]));
}

#[test]
fn sinks_are_switched_live() {
    let mut r = SinkRelays::none();
    assert!(!sink::set_speaker_mode(&mut r, 1));
    assert!(!sink::set_haptic_gain(&mut r, 7));
    assert!(!sink::attach_pad(&mut r, true));
    assert!(!sink::enqueue_output(&mut r, &[1]));
    assert!(!sink::rumble(&mut r, 1, 2));
    let mut s = sink::ensure_started(&mut r, 0, 3);
    assert!(s.owner);
    assert!(r.l2cap && !r.attached && r.gen == 0);
    let mut again = sink::ensure_started(&mut r, 2, 9);
    assert!(!again.owner);
    assert_eq!((r.mode, r.gain), (0, 3));
    assert!(sink::set_speaker_mode(&mut r, 1));
    assert!(sink::set_haptic_gain(&mut r, 7));
    assert_eq!((r.mode, r.gain), (1, 7));
    assert!(sink::attach_pad(&mut r, true));
    assert!(r.attached && r.gen == 1);
    assert!(sink::detach_pad(&mut r));
    assert!(!r.attached);
    assert!(!again.stop(&mut r));
    assert!(!r.stopping);
    assert!(s.stop(&mut r));
    assert!(r.stopping && !r.out_live && !r.mode_live);
    assert!(!sink::set_haptic_gain(&mut r, 8));
    assert!(!sink::set_speaker_mode(&mut r, 2));
    assert_eq!((r.mode, r.gain), (1, 7));
    let mut r = SinkRelays::none();
    let s = sink::start(&mut r, 0, 0);
    assert!(s.owner && !r.l2cap && r.attached && r.gen == 1);
    sink::stop_all(&mut r);
    assert!(r.stopping && !r.out_live && !r.mode_live && !r.stop_live);
    assert!(!sink::set_haptic_gain(&mut r, 8));
    assert_eq!(r.gain, 0);
}

#[test]
fn the_deadzone_centres_sticks_at_rest() {
    let mut st = usb();
    st.p.deadzone = true;
    let mut r = usb_rest();
    r[1] = 132;
    r[2] = 124;
    r[3] = 134;
    r[4] = 131;
    let out = sent(st.forward(r, 0, false, false, &None));
    assert_eq!(&out[1..5], [0x80, 0x80, 134, 131]);
}

#[test]
fn lost_links_end_the_session_last() {
    let idle = Ready {
        pad: false,
        pad_gone: false,
        holder: false,
        holder_gone: false,
        ctrl: false,
        ctrl_gone: false,
        second: false,
    };
    assert_eq!(relay::jobs(&idle), vec![]);
    let busy = Ready {
        pad: true,
        holder: true,
        ctrl: true,
        second: true,
        ..idle
    };
    assert_eq!(
        relay::jobs(&busy),
        vec![Job::Pad, Job::Holder, Job::Second, Job::Ctrl]
    );
    assert_eq!(
        relay::jobs(&Ready {
            pad_gone: true,
            ..busy
        }),
        vec![
            Job::Pad,
            Job::Holder,
            Job::Second,
            Job::Ctrl,
            Job::End(session::RELAY_PAD_LOST)
        ]
    );
    assert_eq!(
        relay::jobs(&Ready {
            ctrl_gone: true,
            ..busy
        }),
        vec![
            Job::Pad,
            Job::Holder,
            Job::Second,
            Job::End(session::RELAY_PAD_LOST)
        ]
    );
    assert_eq!(
        relay::jobs(&Ready {
            pad_gone: true,
            holder_gone: true,
            ..busy
        }),
        vec![
            Job::Pad,
            Job::Holder,
            Job::End(session::RELAY_HOLDER_LOST)
        ]
    );
}

#[test]
fn an_unplugged_jack_starts_over() {
    let mut j = JackDetect::new(0);
    for i in 0..16 {
        j.step(true, i * MS);
    }
    assert!(j.latched);
    for i in 0..4 {
        j.step(false, 1000 * MS + i * MS);
    }
    assert!(!j.latched);
    assert_eq!(j.level, 0);
    for i in 0..15 {
        assert!(!j.step(true, 1010 * MS + i * MS));
    }
    assert!(j.step(true, 1030 * MS));
}
