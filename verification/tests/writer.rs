use std::collections::HashMap;
use std::collections::VecDeque;

use mdrv_ds::audio;
use mdrv_ds::capture;
use mdrv_ds::capture::Capture;
use mdrv_ds::capture::ForwardEnd;
use mdrv_ds::capture::ForwardNext;
use mdrv_ds::capture::Quad;
use mdrv_ds::config::AudioConfig;
use mdrv_ds::flush;
use mdrv_ds::flush::FlushParams;
use mdrv_ds::flush::OutState;
use mdrv_ds::l2cap;
use mdrv_ds::sink;
use mdrv_ds::writer;
use mdrv_ds::writer::InputStep;
use mdrv_ds::writer::PrimeStep;
use mdrv_ds::writer::SilenceStep;
use mdrv_ds::writer::Writer;
use mdrv_ds::writer::WriterParams;

const MS: u64 = 1_000_000;

fn config() -> AudioConfig {
    AudioConfig {
        output: true,
        test_tone: false,
        speaker: None,
        volume: None,
        bitrate: None,
        report: None,
        node_description: None,
        interval_us: None,
        sink: None,
        speaker_output: None,
        speaker_target: None,
    }
}

fn direct() -> Writer {
    Writer::new(WriterParams::new(&config(), true))
}

fn params(streaming: bool, l2cap: bool) -> FlushParams {
    FlushParams {
        hp_volume: 0x64,
        output: true,
        jack_path: false,
        streaming,
        combined: l2cap,
        l2cap,
    }
}

fn out_state() -> OutState {
    OutState {
        seq: 0,
        state: [0; 47],
        state63: [0; 63],
        last47: [0; 47],
    }
}

fn usb_output(motor: u8) -> Vec<u8> {
    let mut r = vec![0u8; 48];
    r[0] = 0x02;
    r[1] = 0x03;
    r[3] = motor;
    r
}

fn merged_head(rpt: &[u8]) -> [u8; 47] {
    let mut s = [0u8; 63];
    s[..47].copy_from_slice(&rpt[1..48]);
    sink::sink_merge63(&mut s, 0x64, true, false);
    let mut h = [0u8; 47];
    h.copy_from_slice(&s[..47]);
    h
}

#[test]
fn parameters_of_a_direct_session() {
    let p = WriterParams::new(&config(), true);
    assert_eq!(p.bitrate, 160_000);
    assert_eq!(p.bytes_per_frame, 200);
    assert_eq!(p.interval_ns, 10_667_000);
    assert_eq!(p.hp_volume, 0x64);
    assert!(p.combined && p.l2cap && p.output && !p.force_speaker && !p.haptics_only);
}

#[test]
fn parameters_of_a_hidraw_session() {
    let mut cfg = config();
    cfg.bitrate = Some(1_000);
    cfg.report = Some("0x39".to_string());
    cfg.output = false;
    cfg.speaker = Some(true);
    cfg.interval_us = Some(10_000);
    let p = WriterParams::new(&cfg, false);
    assert_eq!(p.bitrate, 160_000);
    assert_eq!(p.report_id, 0x39);
    assert!(p.haptics_only && p.force_speaker && !p.combined);
    assert_eq!(p.interval_ns, 10_000_000);
    cfg.report = Some("0x36".to_string());
    let p = WriterParams::new(&cfg, false);
    assert_eq!(p.bitrate, 6_000);
    assert_eq!(p.bytes_per_frame, 7);
    assert!(p.combined && !p.haptics_only);
    cfg.bitrate = Some(900_000);
    assert_eq!(WriterParams::new(&cfg, false).bitrate, 510_000);
}

#[test]
fn haptics_average_their_group() {
    let mut pairs = vec![(0i32, 0i32); 512];
    for i in 0..16 {
        pairs[i] = (25_600, -25_600);
    }
    for i in 16..32 {
        pairs[i] = (if i < 24 { 512 } else { 0 }, 32_767);
    }
    let h = writer::haptics(&pairs);
    assert_eq!(&h[..6], [100, 156, 1, 127, 0, 0]);
    assert_eq!(writer::haptics(&vec![]), [0; 64]);
    let one = writer::haptics(&vec![(-32_767, 300)]);
    assert_eq!(one[0], 129);
    assert_eq!(one[1], 1);
}

#[test]
fn attaching_a_direct_link_handshakes() {
    let mut w = direct();
    let chunks = w.attach(1_000 * MS, true);
    assert_eq!(
        chunks,
        vec![
            vec![0xA2],
            audio::state_report(0, &l2cap::mic_state(true)),
            vec![0xA2],
            audio::mic_report_032(0, true),
        ]
    );
    assert_eq!(w.out.seq, 1);
    assert_eq!(w.mic_seq, 1);
    assert_eq!(w.next_at, 1_500 * MS);
}

#[test]
fn attaching_a_hidraw_link_unlocks() {
    let mut w = Writer::new(WriterParams::new(&config(), false));
    let chunks = w.attach(0, false);
    let mut st = w.out.state;
    sink::merge_audio_state(&mut st, 0x64, true, true);
    assert_eq!(chunks, vec![audio::state_report(0, &st)]);
    assert!(w.periodic_unlock().is_none());
    w.frames_sent = 256;
    assert_eq!(w.periodic_unlock(), Some(audio::state_report(0, &st)));
    w.frames_sent = 257;
    assert!(w.periodic_unlock().is_none());
}

#[test]
fn game_state_survives_a_relink() {
    let mut w = direct();
    w.attach(0, false);
    let p = params(false, true);
    let sent = flush::flush_kernel_outputs(&mut w.out, vec![usb_output(9)], &p);
    assert_eq!(sent.len(), 1);
    w.attach(5, false);
    assert_eq!(w.out.state63[2], 9);
    // The first output on the fresh link is relayed though nothing changed.
    let sent = flush::flush_kernel_outputs(&mut w.out, vec![usb_output(9)], &p);
    assert_eq!(sent.len(), 1);
    assert!(flush::flush_kernel_outputs(&mut w.out, vec![usb_output(9)], &p).is_empty());
}

#[test]
fn the_path_is_told_once() {
    let mut w = direct();
    w.attach(0, false);
    assert!(w.jack_path(true));
    let told = w.engage(true);
    assert_eq!(
        told,
        vec![vec![0xA2], audio::state_report(1, &l2cap::mic_state(true))]
    );
    assert!(w.engage(true).is_empty());
    assert_eq!(w.engage(false).len(), 2);
    w.p.force_speaker = true;
    assert!(!w.jack_path(true));
    let mut hidraw = Writer::new(WriterParams::new(&config(), false));
    assert!(hidraw.engage(true).is_empty());
}

#[test]
fn keepalives_are_two_seconds_apart() {
    let mut w = direct();
    w.attach(0, false);
    assert!(w.keepalive(1_999 * MS).is_empty());
    assert_eq!(
        w.keepalive(2_000 * MS),
        vec![vec![0xA2], audio::state_report(1, &[0; 47])]
    );
    assert!(w.keepalive(3_999 * MS).is_empty());
    w.primed = true;
    assert!(w.keepalive(9_000 * MS).is_empty());
}

#[test]
fn priming_takes_real_input() {
    let mut w = direct();
    w.attach(0, false);
    assert!(matches!(w.prime(0, true, 5, false), PrimeStep::Wait(false)));
    assert_eq!(w.next_at, 5 + 20 * MS);
    assert!(matches!(w.prime(1, true, 5, false), PrimeStep::Wait(true)));
    match w.prime(1, false, 5, false) {
        PrimeStep::Go(chunks) => {
            assert_eq!(chunks.len(), 4);
            assert_eq!(chunks[3], audio::mic_report_032(1, true));
        }
        _ => panic!("not primed"),
    }
    assert!(w.primed);
    assert!(matches!(w.prime(0, true, 5, false), PrimeStep::Go(c) if c.is_empty()));
}

#[test]
fn starving_goes_idle() {
    let mut w = direct();
    w.primed = true;
    for _ in 0..30 {
        assert!(matches!(w.input(false), InputStep::Pad));
    }
    assert!(w.primed);
    assert!(matches!(w.input(false), InputStep::Idle));
    assert!(!w.primed);
    w.starved = 12;
    w.primed = true;
    assert!(matches!(w.input(true), InputStep::Enough));
    assert_eq!(w.starved, 0);
}

#[test]
fn silence_goes_idle() {
    let mut w = direct();
    w.primed = true;
    w.next_at = 100 * MS;
    match w.silence(true, 100 * MS) {
        SilenceStep::Skip(t) => assert_eq!(t, 10_667_000),
        _ => panic!("sent"),
    }
    for _ in 0..28 {
        w.silence(true, 100 * MS);
    }
    assert!(w.primed);
    w.silence(true, 100 * MS);
    assert!(!w.primed);
    assert!(matches!(w.silence(false, 0), SilenceStep::Send));
    let mut hidraw = Writer::new(WriterParams::new(&config(), false));
    assert!(matches!(hidraw.silence(true, 0), SilenceStep::Send));
}

#[test]
fn direct_frames_embed_the_state() {
    let mut w = direct();
    w.attach(0, false);
    let hap = [3u8; 64];
    let frame = vec![7u8; 200];
    let r = w.pack_audio(&frame, &hap, true).unwrap();
    let mut f = [0u8; 200];
    f.copy_from_slice(&frame);
    let mut st = l2cap::BT_STATE_INIT;
    sink::sink_merge63(&mut st, 0x64, true, true);
    let expected = audio::audio_report_036_bt(1, 0, &st, &hap, &f, true);
    assert_eq!(r[0], 0xA2);
    assert_eq!(&r[1..], &expected[..]);
    assert_eq!(w.counter, 1);
    assert_eq!(w.frames_sent, 1);
    assert_eq!(&w.out.last47[..], &st[..47]);
    assert!(w.pack_audio(&frame[..199], &hap, true).is_none());
    assert!(w.pack_audio(&[], &hap, true).is_none());
}

#[test]
fn hidraw_frames_by_report() {
    let frame = vec![7u8; 200];
    let mut f = [0u8; 200];
    f.copy_from_slice(&frame);
    let mut cfg = config();
    let mut w = Writer::new(WriterParams::new(&cfg, false));
    assert_eq!(
        w.pack_audio(&frame, &[0; 64], false).unwrap(),
        audio::audio_report(0, 0, &f, false)
    );
    assert_eq!(w.counter, 2);
    cfg.report = Some("0x39".to_string());
    let mut w = Writer::new(WriterParams::new(&cfg, false));
    assert_eq!(
        w.pack_audio(&frame, &[0; 64], true).unwrap(),
        audio::audio_report_0x39(0, 0, &f, true)
    );
    cfg.report = Some("0x36".to_string());
    let mut w = Writer::new(WriterParams::new(&cfg, false));
    let mut st = w.out.state;
    sink::merge_audio_state(&mut st, 0x64, true, true);
    assert_eq!(
        w.pack_audio(&frame, &[1; 64], true).unwrap(),
        sink::audio_report_0x36(0, 0, &st, &[1; 64], &frame, true)
    );
    cfg.report = None;
    cfg.output = false;
    let mut w = Writer::new(WriterParams::new(&cfg, false));
    assert_eq!(
        w.pack_haptics(&[5; 64]),
        audio::haptics_report_0x32(0, 0, &[5; 64])
    );
    assert_eq!((w.out.seq, w.counter, w.frames_sent), (1, 2, 1));
}

#[test]
fn pacing_follows_the_ring() {
    let mut w = direct();
    w.next_at = 1_000 * MS;
    assert_eq!(w.pace(4, 1_000 * MS), 10_667_000);
    w.next_at = 1_000 * MS;
    assert_eq!(w.pace(5, 1_000 * MS), 10_664_000);
    w.next_at = 1_000 * MS;
    assert_eq!(w.pace(0, 1_000 * MS), 10_679_000);
    w.next_at = 0;
    assert_eq!(w.pace(4, 1_000 * MS), 0);
    assert_eq!(w.next_at, 1_000 * MS);
    w.p.interval_ns = 1_000;
    w.next_at = 1_000 * MS;
    assert_eq!(w.pace(4, 1_000 * MS), 9_000_000);
}

#[test]
fn unchanged_states_are_not_relayed_again() {
    let mut o = out_state();
    let p = params(false, true);
    let sent = flush::flush_kernel_outputs(&mut o, vec![usb_output(5), usb_output(5)], &p);
    let report = audio::state_report(0, &merged_head(&usb_output(5)));
    assert_eq!(sent, vec![flush::with_prefix(&report)]);
    assert_eq!(o.seq, 1);
    let sent = flush::flush_kernel_outputs(&mut o, vec![usb_output(6)], &p);
    let report = audio::state_report(1, &merged_head(&usb_output(6)));
    assert_eq!(sent, vec![flush::with_prefix(&report)]);
}

#[test]
fn states_ride_in_the_stream() {
    let mut o = out_state();
    let sent = flush::flush_kernel_outputs(&mut o, vec![usb_output(5)], &params(true, true));
    assert!(sent.is_empty());
    assert_eq!(o.state63[2], 5);
    assert_eq!(o.seq, 0);
    let other = vec![1u8, 2, 3];
    let sent = flush::flush_kernel_outputs(&mut o, vec![other.clone()], &params(true, true));
    assert_eq!(sent, vec![vec![0xA2, 1, 2, 3]]);
}

#[test]
fn rumble_is_coalesced() {
    let mut o = out_state();
    let p = params(true, false);
    let mut st = [0u8; 47];
    st[0] = 0x03;
    st[2] = 9;
    let a = audio::state_report(0, &st);
    st[2] = 10;
    let b = audio::state_report(0, &st);
    let sent = flush::flush_kernel_outputs(&mut o, vec![a, b], &p);
    assert_eq!(sent, vec![audio::state_report(0, &st)]);
    assert_eq!(o.seq, 1);
    assert_eq!(o.state[2], 10);
}

#[test]
fn idle_hidraw_outputs_are_restamped() {
    let mut o = out_state();
    o.seq = 15;
    let st = [7u8; 47];
    let sent = flush::flush_kernel_outputs(
        &mut o,
        vec![audio::state_report(3, &st), vec![9, 9]],
        &params(false, false),
    );
    assert_eq!(sent, vec![audio::state_report(15, &st), vec![9, 9]]);
    assert_eq!(o.seq, 1);
}

fn quad(i: u32) -> Quad {
    Quad {
        fl: 4 * i,
        fr: 4 * i + 1,
        rl: 4 * i + 2,
        rr: 4 * i + 3,
    }
}

#[test]
fn captured_instants() {
    let mut buf = vec![0u8; 16 * 40];
    for i in 0..160u32 {
        buf[4 * i as usize..4 * i as usize + 4].copy_from_slice(&i.to_le_bytes());
    }
    let q = capture::quads(&buf, 0, 40, 16 * 40);
    assert_eq!(q, vec![quad(0), quad(1)]);
    let q = capture::quads(&buf, 16, 10_000, 16 * 40);
    assert_eq!(q.len(), 39);
    assert_eq!(q[0], quad(1));
    assert_eq!(q[38], quad(39));
    assert_eq!(capture::quads(&buf, 0, 10_000, 47).len(), 2);
    // A start behind the last one that counts is moved back to it.
    assert_eq!(capture::quads(&buf, 600, 16, 10_000), vec![quad(2)]);
    assert_eq!(capture::quads(&[], 8, 16, 16), vec![]);
}

#[test]
fn frames_hold_the_samples_in_order() {
    let mut c = Capture::new();
    let mut ring = VecDeque::new();
    let first: Vec<Quad> = (0..700u32).map(quad).collect();
    assert_eq!(c.absorb(&first, &mut ring), 0);
    assert_eq!(ring.len(), 1);
    assert_eq!(c.acc.len(), 220 * 4);
    let second: Vec<Quad> = (700..1000u32).map(quad).collect();
    c.absorb(&second, &mut ring);
    assert_eq!(ring.len(), 2);
    let all: Vec<u32> = ring.iter().flatten().copied().chain(c.acc.iter().copied()).collect();
    assert_eq!(all, (0..4000u32).collect::<Vec<u32>>());
}

#[test]
fn the_ring_drops_the_oldest() {
    let mut c = Capture::new();
    let mut ring = VecDeque::new();
    let many: Vec<Quad> = (0..480 * 66u32).map(quad).collect();
    assert_eq!(c.absorb(&many, &mut ring), 2);
    assert_eq!(ring.len(), sink::RING_CAP);
    assert_eq!(ring[0][0], 2 * 1920);
    let mut q: VecDeque<u8> = (0..10).collect();
    sink::keep_newest(&mut q, 3);
    assert_eq!(q, [7, 8, 9]);
    sink::keep_newest(&mut q, 5);
    assert_eq!(q.len(), 3);
}

#[test]
fn music_is_forwarded_while_asked_for() {
    let mut ring = VecDeque::new();
    capture::forward(sink::MODE_PAD, &vec![quad(1)], &mut ring);
    assert!(ring.is_empty());
    let many: Vec<Quad> = (0..5000u32).map(quad).collect();
    capture::forward(sink::MODE_FORWARD, &many, &mut ring);
    assert_eq!(ring.len(), sink::FWD_CAP);
    assert_eq!(ring[0], (800, 801));
    assert_eq!(ring[4799], (19_996, 19_997));
}

#[test]
fn playback_falls_silent_when_dry() {
    let mut ring: VecDeque<(u32, u32)> = VecDeque::from(vec![(1, 2), (3, 4), (5, 6)]);
    let mut buf = vec![0xEEu8; 18];
    assert_eq!(capture::play(&mut ring, &mut buf), 16);
    assert_eq!(buf, [1, 0, 0, 0, 2, 0, 0, 0, 3, 0, 0, 0, 4, 0, 0, 0, 0xEE, 0xEE]);
    assert_eq!(ring, [(5, 6)]);
    let mut buf = vec![0xEEu8; 18];
    assert_eq!(capture::play(&mut ring, &mut buf), 8);
    assert_eq!(buf, [5, 0, 0, 0, 6, 0, 0, 0, 0, 0, 0, 0, 0, 0, 0, 0, 0, 0]);
    assert!(ring.is_empty());
}

#[test]
fn the_forwarding_thread() {
    assert_eq!(capture::forward_next(true, 1, true), ForwardNext::Leave);
    assert_eq!(capture::forward_next(false, 0, true), ForwardNext::Idle);
    assert_eq!(capture::forward_next(false, 1, false), ForwardNext::Idle);
    assert_eq!(capture::forward_next(false, 1, true), ForwardNext::Play);
    assert!(capture::forward_goes_on(false, false, 1));
    assert!(!capture::forward_goes_on(false, true, 1));
    assert!(!capture::forward_goes_on(false, false, 2));
    assert_eq!(capture::forward_end(1, false, true), ForwardEnd::Stopped);
    assert_eq!(capture::forward_end(0, false, true), ForwardEnd::Failed);
    assert_eq!(capture::forward_end(1, true, true), ForwardEnd::Failed);
    assert_eq!(capture::forward_end(1, false, false), ForwardEnd::Failed);
}

#[test]
fn polled_features() {
    let mut lens: HashMap<u8, u64> = HashMap::new();
    lens.insert(0x05, 41);
    lens.insert(0x09, 20);
    lens.insert(0x80, 64);
    assert_eq!(capture::polled(&lens, false), vec![(0x09, 21), (0x05, 42)]);
    assert_eq!(capture::polled(&lens, true), vec![]);
}
