use std::collections::HashMap;

use mdrv_ds::config;
use mdrv_ds::config::AudioConfig;
use mdrv_ds::config::Config;
use mdrv_ds::config::FileRead;
use mdrv_ds::config::NotifyConfig;
use mdrv_ds::config::PsConfig;
use mdrv_ds::hid;
use mdrv_ds::hid::Transport;
use mdrv_ds::l2cap;
use mdrv_ds::l2cap::BindFailure;
use mdrv_ds::l2cap::FeatureGet;
use mdrv_ds::l2cap::GetStep;
use mdrv_ds::l2cap::Probe;
use mdrv_ds::l2cap::ProbeStep;
use mdrv_ds::proxy;
use mdrv_ds::proxy::StickCurve;
use mdrv_ds::rdesc;

fn text(s: &str) -> Option<String> {
    Some(s.to_string())
}

fn strings(v: &Vec<Vec<char>>) -> Vec<String> {
    v.iter().map(|c| c.iter().collect()).collect()
}

fn config() -> Config {
    Config {
        transport: None,
        force_bus: None,
        swap_cross_circle: None,
        chords: vec![],
        ps: PsConfig {
            mode: None,
            tap: None,
            hold: None,
        },
        notify: NotifyConfig::default(),
        audio: AudioConfig {
            output: true,
            test_tone: false,
            speaker: None,
            volume: None,
            bitrate: None,
            report: None,
            node_description: None,
            interval_us: None,
            sink: None,
            speaker_output: None,
            speaker_target: None,
        },
        xinput: None,
    }
}

const USB_EVENT: &str = "DRIVER=playstation\nHID_ID=0003:0000054C:00000CE6\nHID_NAME=DualSense\nHID_UNIQ=a0:ab:51:00:11:22 \n";
const BT_EVENT: &str = "HID_ID=0005:0000054C:00000CE6\nHID_NAME=DualSense Wireless\nHID_UNIQ=a0:ab:51:00:11:33\n";

#[test]
fn transports_have_names() {
    assert_eq!(Transport::Usb.name(), "usb");
    assert_eq!(Transport::Bluetooth.name(), "bluetooth");
}

#[test]
fn hid_ioctl_numbers() {
    assert_eq!(hid::hid_ioc(3, 0x07, 64), 0xC040_4807);
    assert_eq!(hid::hid_ioc(2, 0x01, 4), 0x8004_4801);
}

#[test]
fn pads_are_found_cabled_first() {
    let entries = vec![
        ("hidraw1".to_string(), BT_EVENT.to_string()),
        ("hidraw2".to_string(), USB_EVENT.to_string()),
        ("uevent".to_string(), USB_EVENT.to_string()),
        (
            "hidraw3".to_string(),
            "HID_ID=0003:0000045E:0000028E\n".to_string(),
        ),
        (
            "hidraw4".to_string(),
            "HID_ID=0005:0000054C:00000CE6\nHID_UNIQ=a2:ab:51:00:11:33\n".to_string(),
        ),
        (
            "hidraw5".to_string(),
            "HID_ID=0005:0000054C:00000CE6\nHID_NAME=mdrv-ds Virtual DualSense\nHID_UNIQ=a0:00:00:00:00:00\n"
                .to_string(),
        ),
    ];
    let pads = hid::find_pads(&entries);
    assert_eq!(pads.len(), 2);
    assert_eq!(pads[0].0, "/dev/hidraw2");
    assert_eq!(pads[0].1, "a0:ab:51:00:11:22");
    assert_eq!(pads[0].2, Transport::Usb);
    assert_eq!(pads[1].0, "/dev/hidraw1");
    assert_eq!(pads[1].2, Transport::Bluetooth);
}

#[test]
fn virtual_addresses_are_recognized() {
    assert!(hid::is_virtual_mac("02:00:00:00:00:00"));
    assert!(hid::is_virtual_mac("ae"));
    assert!(!hid::is_virtual_mac("a0:ab:51:00:11:22"));
    assert!(!hid::is_virtual_mac(""));
    assert!(!hid::is_virtual_mac("zz:00"));
}

#[test]
fn a_named_pad_is_identified() {
    let (uniq, t) = hid::identify(&text("11:22"), &text(BT_EVENT));
    assert_eq!(uniq, "11:22");
    assert_eq!(t, Transport::Bluetooth);
    let (uniq, t) = hid::identify(&text(""), &text(USB_EVENT));
    assert_eq!(uniq, "a0:ab:51:00:11:22");
    assert_eq!(t, Transport::Usb);
    let (uniq, t) = hid::identify(&None, &None);
    assert_eq!(uniq, "");
    assert_eq!(t, Transport::Usb);
}

#[test]
fn attributes_are_trimmed() {
    assert_eq!(hid::sysfs_attr(" a b\n"), "a b");
    assert_eq!(hid::uevent_uniq(USB_EVENT), text("a0:ab:51:00:11:22"));
    assert_eq!(hid::uevent_uniq("HID_ID=1\n"), None);
    assert_eq!(hid::read_hex_sysfs("0x00000100\n"), Some(0x100));
    assert_eq!(hid::read_hex_sysfs("ff"), Some(255));
    assert_eq!(hid::read_hex_sysfs("xyz"), None);
    assert_eq!(hid::read_hex_sysfs("1ffffffff"), None);
}

#[test]
fn products_from_uevents() {
    assert_eq!(hid::read_product_sysfs(USB_EVENT), 0x0ce6);
    assert_eq!(
        hid::read_product_sysfs("HID_ID=0005:0000054C:000005C4\n"),
        0x05c4
    );
}

#[test]
fn feature_lengths_of_the_bluetooth_descriptor() {
    let lens = hid::feature_lengths(&rdesc::ds5_bt_rdesc());
    assert_eq!(
        hid::feature_ids(&lens),
        [0x05, 0x08, 0x09, 0x20, 0x22, 0x80, 0x81, 0x82, 0x83, 0xF0, 0xF1, 0xF2]
    );
    assert_eq!(lens[&0x05], 41);
    assert_eq!(lens[&0x09], 20);
    assert_eq!(lens[&0x20], 64);
    assert_eq!(lens[&0x82], 10);
    assert_eq!(lens[&0xF2], 16);
}

#[test]
fn feature_lengths_stop_at_a_cut_item() {
    let d = [0x85, 0x07, 0x75, 0x08, 0x95, 0x03, 0xB1, 0x02, 0x85, 0x09, 0x96, 0x01];
    let lens = hid::feature_lengths(&d);
    assert_eq!(lens.len(), 1);
    assert_eq!(lens[&7], 4);
}

#[test]
fn feature_summaries() {
    let mut lens: HashMap<u8, u64> = HashMap::new();
    lens.insert(0x20, 64);
    lens.insert(0x05, 41);
    let ids = hid::feature_ids(&lens);
    assert_eq!(hid::feature_summary(&ids, &lens), "0x05=41 0x20=64");
    assert_eq!(hid::feature_summary(&vec![], &lens), "");
}

#[test]
fn hex_text() {
    assert_eq!(hid::hex(&[0x00, 0x9f, 0xA2]), "009fa2");
    assert_eq!(hid::hex(&[]), "");
}

#[test]
fn input_nodes_of_a_pad() {
    let names: Vec<String> = ["js1", "event7", "mouse0", "event12", "event7"]
        .iter()
        .map(|s| s.to_string())
        .collect();
    assert_eq!(
        strings(&hid::pad_evdev_nodes(&names)),
        ["/dev/input/event12", "/dev/input/event7", "/dev/input/js1"]
    );
}

#[test]
fn chord_buttons() {
    assert_eq!(config::chord_button("Cross"), Some((0, 0x20)));
    assert_eq!(config::chord_button("triangle"), Some((0, 0x80)));
    assert_eq!(config::chord_button("create"), Some((1, 0x10)));
    assert_eq!(config::chord_button("touchpad"), Some((2, 0x02)));
    assert_eq!(config::chord_button("R2"), Some((config::TRIG_R2, 0)));
    assert_eq!(config::chord_button("dpad_left"), Some((config::HAT_LEFT, 0)));
    assert_eq!(config::chord_button("ps"), None);
}

#[test]
fn chords_are_parsed() {
    let mut cfg = config();
    cfg.chords = vec![
        ("Cross".to_string(), "shell:echo hi".to_string()),
        ("l3".to_string(), "ps:toggle".to_string()),
        ("moon".to_string(), "shell:true".to_string()),
        ("r1".to_string(), "shell:   ".to_string()),
        ("r3".to_string(), "echo hi".to_string()),
    ];
    let list = config::parse_chords(&cfg).list;
    assert_eq!(
        list,
        vec![
            ("Cross".to_string(), 0usize, 0x20u8, "echo hi".to_string()),
            ("l3".to_string(), 1, 0x40, config::PS_TOGGLE.to_string()),
        ]
    );
}

#[test]
fn ps_settings() {
    let mut ps = config().ps;
    assert!(!ps.swallow());
    assert_eq!(ps.tap_cmd(), None);
    ps.mode = text("swallow");
    ps.tap = text("shell:tap it");
    ps.hold = text("hold it");
    assert!(ps.swallow());
    assert_eq!(ps.tap_cmd(), text("tap it"));
    assert_eq!(ps.hold_cmd(), text("hold it"));
    ps.hold = text("shell: \t");
    assert_eq!(ps.hold_cmd(), None);
}

#[test]
fn notifications_are_wanted() {
    let mut n = NotifyConfig::default();
    assert!(!n.wants(false));
    assert_eq!(n.when, "always");
    n.enabled = true;
    assert!(n.wants(true));
    n.when = "on-failure".to_string();
    assert!(!n.wants(true));
    assert!(n.wants(false));
}

#[test]
fn configured_switches() {
    let mut cfg = config();
    assert!(!cfg.l2cap());
    assert!(!cfg.xinput());
    assert!(!cfg.force_usb());
    cfg.transport = text("l2cap");
    cfg.xinput = Some(true);
    cfg.force_bus = text("usb");
    assert!(cfg.l2cap());
    assert!(cfg.xinput());
    assert!(cfg.force_usb());
}

#[test]
fn configuration_paths() {
    assert_eq!(
        config::path(&text("/c"), &text("/h")),
        "/c/mdrv-ds/config.toml"
    );
    assert_eq!(
        config::path(&None, &text("/h")),
        "/h/.config/mdrv-ds/config.toml"
    );
    assert_eq!(config::path(&None, &None), "/tmp/mdrv-ds/config.toml");
}

#[test]
fn mic_states() {
    let jack = l2cap::mic_state(true);
    assert_eq!(&jack[..10], [0xC0, 0x83, 0, 0, 0, 0, 0x08, 0x09, 0, 0x0F]);
    assert_eq!(jack[37], 1);
    assert_eq!(l2cap::mic_state(false)[7], 0x39);
}

#[test]
fn feature_dialogue_takes_the_matching_frame() {
    let g = FeatureGet::probe(0x09);
    assert_eq!(g.request(), [0x43, 0x09]);
    let frames = vec![vec![0xA3, 0x20, 1], vec![0xA1, 0x31, 9, 9], vec![0xA3, 0x09, 7, 8]];
    assert_eq!(g.run(&frames), Some(vec![0x09, 7, 8]));
}

#[test]
fn feature_dialogue_ends_on_a_handshake() {
    let frames = vec![vec![0x02], vec![0xA3, 0x09, 7]];
    assert_eq!(FeatureGet::probe(0x09).run(&frames), None);
    assert_eq!(FeatureGet::once(0x09).run(&frames), Some(vec![0x09, 7]));
}

#[test]
fn feature_dialogue_asks_again() {
    let mut g = FeatureGet::probe(0x20);
    let other = Some(vec![0xA1u8, 0x31]);
    for _ in 0..15 {
        assert!(matches!(g.on_frame(&other), GetStep::Read));
    }
    assert!(matches!(g.on_frame(&other), GetStep::Send));
    assert!(matches!(g.on_frame(&None), GetStep::Done(None)));
    let mut g = FeatureGet::once(0x20);
    for _ in 0..7 {
        assert!(matches!(g.on_frame(&other), GetStep::Read));
    }
    assert!(matches!(g.on_frame(&other), GetStep::Done(None)));
}

#[test]
fn probing_a_dualsense() {
    let mut p = Probe::new();
    assert_eq!(p.wants(), Some(0x09));
    p.on_reply(Some(vec![0x09, 1, 2, 3, 4, 5, 6, 0]));
    assert_eq!(p.wants(), Some(0x20));
    p.on_reply(None);
    assert_eq!(p.wants(), Some(0x05));
    p.on_reply(Some(vec![0x05, 9]));
    assert_eq!(p.wants(), None);
    assert_eq!(p.step, ProbeStep::DualSense);
    let info = l2cap::ds5_info(&p.features);
    assert_eq!(info.uniq, "06:05:04:03:02:01");
    assert_eq!(info.product, 0x0ce6);
    assert_eq!(info.fw_version, 0x0100);
    assert_eq!(info.transport, Transport::Bluetooth);
    assert_eq!(info.rdesc.len(), 279);
    assert_eq!(info.path, "/dev/l2cap-psm13");
}

#[test]
fn probing_a_dualshock() {
    let mut p = Probe::new();
    p.on_reply(None);
    assert_eq!(p.wants(), Some(0xA3));
    let mut fw = vec![0u8; 49];
    fw[0] = 0xA3;
    fw[35] = 0x04;
    fw[41] = 0x08;
    fw[42] = 0xB4;
    p.on_reply(Some(fw));
    assert_eq!(p.wants(), Some(0x05));
    p.on_reply(None);
    assert_eq!(p.step, ProbeStep::DualShock4);
    let info = l2cap::ds4_info(&Some([1, 2, 3, 4, 5, 6]), &p.features, &[5, 1]);
    assert_eq!(info.uniq, "06:05:04:03:02:01");
    assert_eq!(info.product, 0x05c4);
    assert_eq!(info.fw_version, 0xB408);
    assert_eq!(info.hw_version, 0x0004);
    assert_eq!(info.rdesc, [5, 1]);
    let bare = l2cap::ds4_info(&None, &HashMap::new(), &[]);
    assert_eq!(bare.uniq, "00:00:00:00:00:00");
    assert_eq!(bare.fw_version, 0x0100);
    assert_eq!(bare.hw_version, 0x0100);
}

#[test]
fn probing_something_else() {
    let mut p = Probe::new();
    p.on_reply(None);
    p.on_reply(None);
    p.on_reply(None);
    assert_eq!(p.step, ProbeStep::Unknown);
    assert_eq!(p.wants(), None);
}

#[test]
fn session_open_frame() {
    let f = l2cap::init_frame();
    assert_eq!(f.len(), 143);
    assert_eq!(&f[..9], [0xA2, 0x32, 0x10, 0x90, 63, 0xFD, 0xF7, 0, 0]);
}

#[test]
fn bind_failures_explain_themselves() {
    assert!(l2cap::bind_message(&BindFailure::NoAccess).contains("cap_net_bind_service"));
    assert!(l2cap::bind_message(&BindFailure::InUse).contains("EADDRINUSE"));
    assert_eq!(
        l2cap::bind_message(&BindFailure::Other("odd".to_string())),
        "l2cap: bind: odd"
    );
}

#[test]
fn layouts() {
    let usb = proxy::layout_for(Transport::Usb);
    assert_eq!((usb.stick0, usb.btn0, usb.trig0, usb.report_id), (1, 8, 5, 1));
    let bt = proxy::layout_for(Transport::Bluetooth);
    assert_eq!((bt.stick0, bt.btn0, bt.trig0, bt.report_id), (2, 9, 6, 0x31));
    let ds4 = proxy::ds4_layout();
    assert_eq!((ds4.stick0, ds4.btn0, ds4.trig0, ds4.report_id), (3, 7, 10, 0x11));
}

#[test]
fn neutral_reports_are_cabled_only() {
    let n = proxy::neutral_report(&proxy::layout_for(Transport::Usb)).unwrap();
    assert_eq!(n.len(), 64);
    assert_eq!(&n[..10], [1, 0x80, 0x80, 0x80, 0x80, 0, 0, 0, 8, 0]);
    assert_eq!(n[53], 0x0A);
    assert!(n[9..53].iter().all(|b| *b == 0) && n[54..].iter().all(|b| *b == 0));
    assert!(!proxy::buttons_live(&n, &proxy::layout_for(Transport::Usb)));
    assert!(proxy::neutral_report(&proxy::layout_for(Transport::Bluetooth)).is_none());
}

#[test]
fn live_buttons() {
    let l = proxy::layout_for(Transport::Usb);
    let mut r = vec![0u8; 64];
    r[8] = 0x03;
    assert!(!proxy::buttons_live(&r, &l));
    r[5] = 0x11;
    assert!(proxy::buttons_live(&r, &l));
    r[5] = 0x10;
    r[10] = 0x01;
    assert!(proxy::buttons_live(&r, &l));
    assert!(!proxy::buttons_live(&r[..10], &l));
}

#[test]
fn gating_twice_is_gating_once() {
    let l = proxy::layout_for(Transport::Usb);
    let mut r: Vec<u8> = (0..64u8).collect();
    proxy::gate_input(&mut r, &l);
    assert_eq!(&r[..12], [0, 0x80, 0x80, 0x80, 0x80, 0, 0, 7, 0x08, 0, 0, 11]);
    assert!(!proxy::buttons_live(&r, &l));
    let once = r.clone();
    proxy::gate_input(&mut r, &l);
    assert_eq!(r, once);
    let mut short = vec![9u8; 10];
    proxy::gate_input(&mut short, &l);
    assert_eq!(short, vec![9u8; 10]);
}

#[test]
fn sticks_are_shaped_by_the_curve() {
    let l = proxy::layout_for(Transport::Usb);
    let curve = StickCurve {
        map: (0..=255u8).rev().collect(),
    };
    let mut r = vec![1u8, 0, 10, 20, 30, 40, 50, 60];
    proxy::scale_sticks(&mut r, &l, &curve);
    assert_eq!(r, [1, 255, 245, 235, 225, 40, 50, 60]);
    let mut short = vec![1u8, 0, 10, 20];
    proxy::scale_sticks(&mut short, &l, &curve);
    assert_eq!(short, [1, 255, 245, 20]);
}

#[test]
fn feature_crcs_pass() {
    let mut buf = vec![0x09u8, 1, 2, 3, 0, 0, 0, 0];
    proxy::fix_bt_feature_crc(&mut buf);
    assert_eq!(&buf[4..], proxy::bt_feature_crc(&buf[..4]).to_le_bytes());
    assert_eq!(&buf[4..], mdrv_ds::crc::crc32_seed(0x53, &[9, 1, 2, 3]).to_le_bytes());
    proxy::fix_bt_feature_crc_kernel(&mut buf);
    assert_eq!(&buf[4..], proxy::bt_feature_crc_kernel(&buf[..4]).to_le_bytes());
    assert_eq!(&buf[4..], mdrv_ds::crc::crc32_seed(0xA3, &[9, 1, 2, 3]).to_le_bytes());
    let mut tiny = vec![1u8, 2, 3];
    proxy::fix_bt_feature_crc(&mut tiny);
    assert_eq!(tiny, [1, 2, 3]);
}

#[test]
fn virtual_addresses_flip_one_bit() {
    assert_eq!(proxy::derive_virtual_mac("a0:ab:51:00:11:22"), "a2:ab:51:00:11:22");
    assert_eq!(proxy::derive_virtual_mac("a2:ab:51:00:11:22"), "a0:ab:51:00:11:22");
    assert!(hid::is_virtual_mac(&proxy::derive_virtual_mac("a0:ab:51:00:11:22")));
}

#[test]
fn addresses_round_trip() {
    let mac = [0xA0, 0x0B, 0, 1, 0xFF, 9];
    assert_eq!(proxy::format_mac(&mac), "a0:0b:00:01:ff:09");
    assert_eq!(proxy::parse_mac("a0:0b:00:01:ff:09"), Some(mac));
    assert_eq!(proxy::parse_mac("a0:0b:00:01:ff"), None);
    assert_eq!(proxy::parse_mac("a0:0b:00:01:ff:09:01"), None);
    assert_eq!(proxy::parse_mac("a0:0b:00:01:ff:0g"), None);
}

#[test]
fn a_broken_file_keeps_the_previous_configuration() {
    assert_eq!(config::settle(FileRead::Read(1), Some(2), 3), 1);
    assert_eq!(config::settle(FileRead::Broken, Some(2), 3), 2);
    assert_eq!(config::settle(FileRead::Broken, None, 3), 3);
    assert_eq!(config::settle(FileRead::Absent, Some(2), 3), 3);
}

#[test]
fn dualshock_triggers_stand_behind_the_buttons() {
    let l = proxy::ds4_layout();
    let mut r: Vec<u8> = (100..178u8).collect();
    proxy::gate_input(&mut r, &l);
    let mut expected: Vec<u8> = (100..178u8).collect();
    expected[3..12].copy_from_slice(&[0x80, 0x80, 0x80, 0x80, 8, 0, 0, 0, 0]);
    assert_eq!(r, expected);
    assert!(!proxy::buttons_live(&r, &l));
    r[11] = 0x11;
    assert!(proxy::buttons_live(&r, &l));
    assert!(!proxy::buttons_live(&r[..11], &l));
    let mut short = vec![0xFFu8; 11];
    proxy::gate_input(&mut short, &l);
    assert_eq!(&short[7..], [8, 0, 0, 0]);
}
