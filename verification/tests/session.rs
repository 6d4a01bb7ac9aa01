use mdrv_ds::cli;
use mdrv_ds::cli::Command;
use mdrv_ds::cli::Firing;
use mdrv_ds::cli::Keymap;
use mdrv_ds::cli::Switch;
use mdrv_ds::config;
use mdrv_ds::config::AudioConfig;
use mdrv_ds::config::Chords;
use mdrv_ds::config::Config;
use mdrv_ds::config::NotifyConfig;
use mdrv_ds::config::PsConfig;
use mdrv_ds::hid;
use mdrv_ds::hid::PadInfo;
use mdrv_ds::hid::Transport;
use mdrv_ds::ipc;
use mdrv_ds::mouse;
use mdrv_ds::mouse::InputDevice;
use mdrv_ds::mouse::MouseStep;
use mdrv_ds::rdesc;
use mdrv_ds::session;
use mdrv_ds::session::AfterRelay;
use mdrv_ds::session::CreateReply;
use mdrv_ds::session::FollowSink;
use mdrv_ds::session::FollowStep;
use mdrv_ds::session::SinkChoice;
use mdrv_ds::text;
use mdrv_ds::uhid;

fn some(s: &str) -> Option<String> {
    Some(s.to_string())
}

fn strings(v: &Vec<Vec<char>>) -> Vec<String> {
    v.iter().map(|c| c.iter().collect()).collect()
}

fn chars(s: &str) -> Vec<char> {
    s.chars().collect()
}

fn args(v: &[&str]) -> Vec<String> {
    v.iter().map(|s| s.to_string()).collect()
}

fn config() -> Config {
    Config {
        transport: None,
        force_bus: None,
        swap_cross_circle: None,
        chords: vec![],
        ps: PsConfig {
            mode: None,
            tap: None,
            hold: None,
        },
        notify: NotifyConfig::default(),
        audio: AudioConfig {
            output: true,
            test_tone: false,
            speaker: None,
            volume: None,
            bitrate: None,
            report: None,
            node_description: None,
            interval_us: None,
            sink: None,
            speaker_output: None,
            speaker_target: None,
        },
        xinput: None,
    }
}

fn pad(transport: Transport, product: u32) -> PadInfo {
    PadInfo {
        path: "/dev/hidraw3".to_string(),
        uniq: "a0:01:02:03:04:05".to_string(),
        transport,
        product,
        fw_version: 0x0123,
        hw_version: 0,
        rdesc: vec![5, 1],
    }
}

fn found(path: &str, t: Transport) -> (String, String, Transport) {
    (path.to_string(), "a0".to_string(), t)
}

#[test]
fn cabled_pads_take_over() {
    let pads = vec![found("/dev/hidraw1", Transport::Usb)];
    assert!(session::usb_pad_present(false, &pads));
    assert!(!session::usb_pad_present(true, &pads));
    assert!(!session::usb_pad_present(false, &vec![found("/dev/hidraw1", Transport::Bluetooth)]));
    assert_eq!(session::pick_pad(&None, &pads), some("/dev/hidraw1"));
    assert_eq!(session::pick_pad(&some("/dev/x"), &pads), some("/dev/x"));
    assert_eq!(session::pick_pad(&None, &vec![]), None);
}

#[test]
fn plan_of_a_cabled_session() {
    let p = session::plan(&config(), &pad(Transport::Usb, 0x0ce6), false);
    assert!(!p.usb_view);
    assert_eq!(p.msg.bus, uhid::BUS_USB);
    assert_eq!(p.msg.vendor, 0x054c);
    assert_eq!(p.msg.version, 0x0123);
    assert_eq!(p.msg.name, "DualSense Wireless Controller");
    assert_eq!(p.msg.uniq, "a2:01:02:03:04:05");
    assert_eq!(p.msg.rdesc, [5, 1]);
    assert_eq!(p.virtual_mac, [0xA2, 1, 2, 3, 4, 5]);
    assert_eq!(p.neutral.len(), 64);
    assert_eq!(p.sink, SinkChoice::Absent);
    assert!(!p.tone && !p.swap_ox);
}

#[test]
fn plan_of_a_direct_session() {
    let mut cfg = config();
    let info = pad(Transport::Bluetooth, 0x0ce6);
    let p = session::plan(&cfg, &info, true);
    assert_eq!(p.msg.bus, uhid::BUS_BLUETOOTH);
    assert!(p.neutral.is_empty());
    assert_eq!(p.sink, SinkChoice::Persistent);
    cfg.force_bus = some("usb");
    cfg.swap_cross_circle = Some(true);
    cfg.audio.test_tone = true;
    cfg.audio.sink = Some(false);
    let p = session::plan(&cfg, &info, true);
    assert!(p.usb_view && p.swap_ox && p.tone);
    assert_eq!(p.msg.bus, uhid::BUS_USB);
    assert_eq!(p.msg.rdesc, rdesc::ds5_usb_rdesc());
    assert_eq!(p.neutral.len(), 64);
    assert_eq!(p.sink, SinkChoice::Absent);
    let p = session::plan(&cfg, &pad(Transport::Bluetooth, 0x05c4), true);
    assert!(!p.usb_view && !p.tone);
    assert_eq!(p.msg.name, "DualShock 4 Wireless Controller");
    let p = session::plan(&config(), &info, false);
    assert_eq!(p.sink, SinkChoice::Session);
}

#[test]
fn a_pad_without_an_address_gets_one() {
    let mut info = pad(Transport::Usb, 0x0ce6);
    info.uniq = "".to_string();
    let p = session::plan(&config(), &info, false);
    assert_eq!(p.virtual_mac, [0xAA, 0xBB, 0xCC, 0xDD, 0xEE, 0x01]);
}

#[test]
fn reconnecting_asks_for_the_same_pad() {
    let info = pad(Transport::Bluetooth, 0x0ce6);
    let a = session::plan(&config(), &info, true);
    let mut again = pad(Transport::Bluetooth, 0x0ce6);
    again.path = "/dev/hidraw9".to_string();
    let b = session::plan(&config(), &again, true);
    assert_eq!(ipc::encode_create(&a.msg), ipc::encode_create(&b.msg));
}

#[test]
fn pokes_and_names() {
    let p = session::poke();
    assert_eq!(p[0], 2);
    assert!(p[1..].iter().all(|b| *b == 0));
    assert_eq!(session::pad_name(0x05c4), "DualShock 4");
    assert_eq!(session::pad_name(0x0ce6), "DualSense");
}

#[test]
fn create_replies() {
    let ack = ipc::TAG_CREATE_ACK;
    assert!(matches!(session::create_reply(ack, &[0]), CreateReply::Created));
    assert!(matches!(session::create_reply(ack, &[1]), CreateReply::Reused));
    match session::create_reply(ack, &[2, b'n', b'o']) {
        CreateReply::Failed(why) => assert_eq!(why, b"no"),
        _ => panic!("not failed"),
    }
    assert!(matches!(session::create_reply(0x49, &[]), CreateReply::Unexpected));
}

#[test]
fn what_follows_a_relay() {
    assert_eq!(session::after_relay(2, false), (AfterRelay::Exit, true));
    assert_eq!(session::after_relay(3, false), (AfterRelay::Recreate, false));
    assert_eq!(session::after_relay(3, true), (AfterRelay::Exit, false));
    assert_eq!(session::after_relay(1, false), (AfterRelay::Wait, true));
}

#[test]
fn blocking_by_file() {
    assert!(!session::read_gate(&None));
    assert!(!session::read_gate(&some(" \n")));
    assert!(!session::read_gate(&some("none\n")));
    assert!(session::read_gate(&some("launcher")));
}

const MOUNTS: &str = "proc /proc proc rw 0 0\n\
devtmpfs /dev/hidraw3 devtmpfs rw 0 0\n\
devtmpfs /dev/input/my\\040pad devtmpfs rw 0 0\n\
tmpfs /dev/hidraw4 tmpfs rw 0 0\n\
devtmpfs /dev devtmpfs rw 0 0\n";

#[test]
fn mounts_left_behind() {
    assert_eq!(
        strings(&session::stale_mounts(MOUNTS)),
        ["/dev/hidraw3", "/dev/input/my pad"]
    );
    assert!(session::node_mounted(MOUNTS, "/dev/hidraw3"));
    assert!(!session::node_mounted(MOUNTS, "/dev/hidraw5"));
}

#[test]
fn hidden_nodes_are_checked() {
    let inputs = vec![chars("/dev/input/event1")];
    let nodes = session::hidden_nodes(false, true, "/dev/hidraw3", &inputs);
    assert_eq!(strings(&nodes), ["/dev/hidraw3", "/dev/input/event1"]);
    assert!(session::hidden_nodes(true, true, "/dev/hidraw3", &inputs).is_empty());
    assert!(session::hidden_nodes(false, false, "/dev/hidraw3", &inputs).is_empty());
    assert_eq!(strings(&session::missing_nodes(MOUNTS, &nodes)), ["/dev/input/event1"]);
}

#[test]
fn pad_sinks_are_found() {
    let list = format!(
        "1\talsa_output.pci\tPipeWire\n2\t{}\tPipeWire\n3\talsa_output.usb-Sony_DualShock_4\tx\n",
        session::PAD_SINK_NODE
    );
    assert_eq!(session::pad_sink(&list, false), some(session::PAD_SINK_NODE));
    assert_eq!(session::pad_sink(&list, true), some(session::PAD_SINK_NODE));
    assert_eq!(session::pad_sink("1\talsa_output.usb-Sony_TV\tx\n", true), None);
    assert_eq!(
        session::pad_sink("3\talsa_output.usb-Sony_DualShock_4\tx", true),
        some("alsa_output.usb-Sony_DualShock_4")
    );
    assert_eq!(
        session::pad_card("40\talsa_card.pci\tx\n41\talsa_card.usb-Sony_I\tx\n"),
        some("41")
    );
    assert_eq!(session::pad_card("40 alsa_card.pci x"), None);
}

#[test]
fn following_the_pad_sink() {
    let mut f = FollowSink::new(true);
    assert!(matches!(f.on_sinks(&None), FollowStep::Pause));
    assert!(matches!(f.on_sinks(&some("")), FollowStep::Cards));
    assert_eq!(f.on_cards(&None), None);
    assert!(!f.cycled);
    assert_eq!(f.on_cards(&some("7 alsa_card.usb-Sony")), some("7"));
    assert!(f.cycled);
    assert!(matches!(f.on_sinks(&some("")), FollowStep::Pause));
    for _ in 3..10 {
        assert!(!f.done());
        f.on_sinks(&None);
    }
    assert!(f.done());
    let mut f = FollowSink::new(false);
    match f.on_sinks(&Some(format!("2 {}", session::PAD_SINK_NODE))) {
        FollowStep::Switch(n) => assert_eq!(n, session::PAD_SINK_NODE),
        _ => panic!("not found"),
    }
    assert_eq!(session::cycle_profiles()[0], "pro-audio");
}

#[test]
fn forwarding_never_feeds_back() {
    let ours = session::PAD_SINK_NODE;
    let list = Some(format!("1 {ours} x\n2 hdmi x\n3 jack x\n"));
    assert_eq!(session::pick_forward_target(&some("usb"), &None, &None), some("usb"));
    assert_eq!(session::pick_forward_target(&some(ours), &list, &None), some("hdmi"));
    assert_eq!(session::pick_forward_target(&some(""), &list, &some("jack\n")), some("jack"));
    assert_eq!(session::pick_forward_target(&None, &list, &some(ours)), some("hdmi"));
    assert_eq!(session::pick_forward_target(&None, &list, &some("gone")), some("hdmi"));
    assert_eq!(
        session::pick_forward_target(&None, &Some(format!("1 {ours} x")), &None),
        None
    );
    assert_eq!(session::pick_forward_target(&None, &some(""), &some("jack")), None);
    assert_eq!(session::pick_forward_target(&None, &None, &some("jack")), None);
}

#[test]
fn messages() {
    assert_eq!(session::jack_message(true).0, "Headset connected");
    assert_eq!(session::jack_message(false).1, "Routing audio to the controller speaker");
    assert_eq!(
        session::toast_line("a", "b"),
        "notif {\"app\":\"mdrv-ds\",\"summary\":\"a\",\"body\":\"b\",\"icon\":\"\",\"timeout_ms\":2500}\n"
    );
    assert_eq!(session::log_dir(&some("/s"), &None), "/s/mdrv-ds");
    assert_eq!(session::log_dir(&None, &some("/h")), "/h/.local/state/mdrv-ds");
    assert_eq!(session::log_dir(&None, &None), "/tmp/mdrv-ds");
    assert!(session::log_is_full(0x10_0001));
    assert!(!session::log_is_full(0x10_0000));
    assert_eq!(session::dump_line(&[1, 0xAB], &[0x31]), "usb 01ab raw 31");
    assert_eq!(session::dump_line(&[], &[0; 100]).len(), 4 + 5 + 156);
}

#[test]
fn commands() {
    assert_eq!(cli::command(&None), Command::Help);
    for (w, c) in [
        ("status", Command::Status),
        ("feature", Command::Feature),
        ("mouse", Command::Mouse),
        ("holder", Command::Holder),
        ("keymap", Command::Keymap),
        ("speaker", Command::Speaker),
        ("gain", Command::Gain),
        ("xinput", Command::Xinput),
        ("proxy", Command::Proxy),
        ("-h", Command::Help),
        ("--help", Command::Help),
        ("help", Command::Help),
        ("proxies", Command::Unknown),
    ] {
        assert_eq!(cli::command(&some(w)), c);
    }
}

#[test]
fn proxy_flags() {
    let o = cli::proxy_flags(&args(&[])).ok().unwrap();
    assert!(o.pad.is_none() && o.gate_file.is_none() && !o.deadzone && o.hide && !o.verbose);
    let o = cli::proxy_flags(&args(&[
        "--pad", "--no-hide", "-v", "--gate-file", "/g", "--deadzone",
    ]))
    .ok()
    .unwrap();
    assert_eq!(o.pad, some("--no-hide"));
    assert_eq!(o.gate_file, some("/g"));
    assert!(o.deadzone && o.hide && o.verbose);
    let o = cli::proxy_flags(&args(&["--pad", "/a", "--pad"])).ok().unwrap();
    assert_eq!(o.pad, None);
    assert_eq!(cli::proxy_flags(&args(&["-v", "-x"])).err(), some("-x"));
}

#[test]
fn live_switches() {
    for (w, s) in [("pad", Switch::Override), ("reset", Switch::Reset), ("status", Switch::Report), ("on", Switch::Unknown)] {
        assert_eq!(cli::speaker_cmd(&some(w)), s);
    }
    for (w, s) in [("on", Switch::Override), ("off", Switch::Override), ("reset", Switch::Reset), ("status", Switch::Report), ("pad", Switch::Unknown)] {
        assert_eq!(cli::xinput_cmd(&some(w)), s);
    }
    for (w, s) in [("1.5", Switch::Override), ("reset", Switch::Reset), ("status", Switch::Report)] {
        assert_eq!(cli::gain_cmd(&some(w)), s);
    }
    assert_eq!(cli::speaker_cmd(&None), Switch::Report);
    assert_eq!(cli::xinput_cmd(&None), Switch::Report);
    assert_eq!(cli::gain_cmd(&None), Switch::Report);
    assert_eq!(cli::override_in(&some(" on\n")), some("on"));
    assert_eq!(cli::override_in(&some(" \n")), None);
    assert_eq!(cli::override_in(&None), None);
}

#[test]
fn keymap_commands() {
    assert_eq!(cli::keymap_cmd(&args(&[])), Keymap::List);
    assert_eq!(cli::keymap_cmd(&args(&["status"])), Keymap::List);
    assert_eq!(cli::keymap_cmd(&args(&["test", "l3"])), Keymap::Test);
    assert_eq!(cli::keymap_cmd(&args(&["test"])), Keymap::Nameless);
    assert_eq!(cli::keymap_cmd(&args(&["reload"])), Keymap::Reload);
    assert_eq!(cli::keymap_cmd(&args(&["l3"])), Keymap::Unknown);
    assert_eq!(cli::chord_line("l3", "shell:x"), "  PS + l3         = shell:x");
    assert_eq!(cli::chord_line("dpad_right1", "y"), "  PS + dpad_right1 = y");
}

#[test]
fn firing_by_name() {
    let chords = Chords {
        list: vec![
            ("l3".to_string(), 1, 0x40, config::PS_TOGGLE.to_string()),
            ("r3".to_string(), 1, 0x80, "first".to_string()),
            ("r3".to_string(), 1, 0x80, "second".to_string()),
        ],
    };
    assert!(matches!(cli::fire_test(&chords, "l3"), Firing::Internal));
    assert!(matches!(cli::fire_test(&chords, "r3"), Firing::Run(c) if c == "first"));
    assert!(matches!(cli::fire_test(&chords, "r1"), Firing::Missing));
}

#[test]
fn feature_arguments() {
    assert_eq!(cli::parse_rid("0x09"), Some(9));
    assert_eq!(cli::parse_rid("0x0xff"), Some(255));
    assert_eq!(cli::parse_rid("a3"), Some(0xA3));
    assert_eq!(cli::parse_rid("100"), None);
    assert_eq!(cli::parse_rid("0x"), None);
    assert_eq!(cli::parse_len(&None), 65);
    assert_eq!(cli::parse_len(&some("x")), 65);
    assert_eq!(cli::parse_len(&some("1")), 2);
    assert_eq!(cli::parse_len(&some("64")), 64);
    assert_eq!(cli::parse_len(&some("5000")), 4096);
    assert_eq!(cli::set_data(9, "01ffA"), Some(vec![9, 1, 255]));
    assert_eq!(cli::set_data(9, "01fg"), None);
    assert_eq!(cli::set_data(9, "01\u{e9}"), None);
    assert_eq!(cli::set_data(9, "01\u{e9}\u{e9}"), None);
    assert_eq!(cli::set_data(9, ""), Some(vec![9]));
}

#[test]
fn printed_bytes_write_back() {
    let data = [0u8, 1, 0x7F, 0x80, 0xFF];
    let mut expected = vec![0x20u8];
    expected.extend_from_slice(&data);
    assert_eq!(cli::set_data(0x20, &hid::hex(&data)), Some(expected));
}

#[test]
fn touchpads_are_found() {
    let dev = |dir: &str, name: &str, children: &[&str]| InputDevice {
        dir: dir.to_string(),
        name: some(name),
        children: args(children),
    };
    let devices = vec![
        dev("input9", "Sony DUALSENSE Controller Touchpad\n", &["event9", "mouse1"]),
        dev("input8", "DualSense Motion", &["event8"]),
        dev("event7", "DualSense Touchpad", &["event7"]),
        dev("input10", "mdrv-ds Virtual DualSense Touchpad", &["event10", "event9"]),
        InputDevice {
            dir: "input11".to_string(),
            name: None,
            children: args(&["event11"]),
        },
    ];
    assert_eq!(
        strings(&mouse::touchpad_nodes_of(&devices)),
        ["/dev/input/event9", "/dev/input/event10", "/dev/input/event9"]
    );
    assert_eq!(
        strings(&mouse::touchpad_nodes(&devices)),
        ["/dev/input/event10", "/dev/input/event9"]
    );
}

#[test]
fn mouse_commands() {
    for (arg, held, step) in [
        (Some("--hold-grab"), false, MouseStep::Hold),
        (Some("on"), true, MouseStep::Stop),
        (Some("on"), false, MouseStep::Report),
        (Some("off"), true, MouseStep::Report),
        (Some("off"), false, MouseStep::Start),
        (Some("toggle"), true, MouseStep::Stop),
        (Some("toggle"), false, MouseStep::Start),
        (None, true, MouseStep::Stop),
        (None, false, MouseStep::Start),
        (Some("status"), true, MouseStep::Report),
        (Some("cat"), true, MouseStep::Unknown),
    ] {
        assert_eq!(mouse::cmd(&arg.map(|s| s.to_string()), held), step);
    }
    assert_eq!(mouse::pid_path(&some("/run")), "/run/mdrv-ds-mouse.pid");
    let held = vec![chars("/dev/input/event1")];
    assert!(mouse::is_new(&held, &chars("/dev/input/event2")));
    assert!(!mouse::is_new(&held, &chars("/dev/input/event1")));
}

#[test]
fn texts() {
    assert_eq!(text::parse_pid(" 1234\n"), Some(1234));
    assert_eq!(text::parse_pid("-7"), Some(-7));
    assert_eq!(text::parse_pid("-2147483648"), Some(i32::MIN));
    assert_eq!(text::parse_pid("2147483648"), None);
    assert_eq!(text::parse_pid("+5"), Some(5));
    assert_eq!(text::parse_pid("-+5"), None);
    assert_eq!(text::parse_pid(""), None);
    assert_eq!(text::parse_pid("12a"), None);
    assert_eq!(text::string_of(&chars("h\u{e9}\u{1F600}")), "h\u{e9}\u{1F600}");
    assert_eq!(text::join("/a/", "b"), "/a/b");
    assert_eq!(text::join("/a", "b"), "/a/b");
    assert_eq!(text::join("/a", "/b"), "/b");
    assert_eq!(strings(&text::split(&chars("a::b"), ':')), ["a", "", "b"]);
    assert_eq!(text::glue(&vec![chars("a"), chars("b")], ':'), chars("a:b"));
    assert_eq!(strings(&text::words(&chars(" a\t b "))), ["a", "b"]);
    assert_eq!(strings(&text::lines(&chars("a\r\nb\n\nc"))), ["a", "b", "", "c"]);
    assert_eq!(text::trim(&chars("\u{a0}a b\u{2003}")), chars("a b"));
    assert!(text::comes_before(&chars("a"), &chars("ab")));
    assert!(!text::comes_before(&chars("b"), &chars("ab")));
}
