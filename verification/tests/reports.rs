use mdrv_ds::audio;
use mdrv_ds::config::AudioConfig;
use mdrv_ds::crc;
use mdrv_ds::sink;

fn state() -> [u8; 47] {
    let mut s = [0u8; 47];
    for i in 0..47 {
        s[i] = i as u8;
    }
    s
}

fn state63() -> [u8; 63] {
    let mut s = [0u8; 63];
    for i in 0..63 {
        s[i] = 200 - i as u8;
    }
    s
}

fn hap() -> [u8; 64] {
    let mut h = [0u8; 64];
    for i in 0..64 {
        h[i] = (i * 3) as u8;
    }
    h
}

fn frame() -> [u8; 200] {
    let mut f = [0u8; 200];
    for i in 0..200 {
        f[i] = ((i * 7 + 1) % 256) as u8;
    }
    f
}

fn audio_config() -> AudioConfig {
    AudioConfig {
        output: true,
        test_tone: false,
        speaker: None,
        volume: None,
        bitrate: None,
        report: None,
        node_description: None,
        interval_us: None,
        sink: None,
        speaker_output: None,
        speaker_target: None,
    }
}

#[test]
fn crc32_of_the_check_string() {
    assert_eq!(crc::crc32_seed(0x31, b"23456789"), 0xCBF4_3926);
}

#[test]
fn sealed_report_passes_and_restamping_keeps_it() {
    let mut body = vec![0x31u8, 0x20, 0x10, 1, 2, 3];
    crc::seal(0xA2, &mut body);
    let expected = crc::crc32_seed(0xA2, &[0x31, 0x20, 0x10, 1, 2, 3]);
    assert_eq!(&body[6..], expected.to_le_bytes());
    let before = body.clone();
    crc::stamp(0xA2, &mut body);
    assert_eq!(body, before);
}

#[test]
fn crc_runs_compose() {
    let data = [9u8, 8, 7, 6, 5];
    let first = crc::run(0xFFFF_FFFF, &data, 2);
    assert_eq!(
        crc::run(first, &data[2..], 3),
        crc::run(0xFFFF_FFFF, &data, 5)
    );
}

#[test]
fn state_report_bytes() {
    let r = audio::state_report(5, &state());
    assert_eq!(r.len(), 78);
    assert_eq!(&r[..3], [0x31, 0x50, 0x10]);
    assert_eq!(&r[3..50], &state()[..]);
    assert_eq!(&r[50..74], [0u8; 24]);
    assert_eq!(&r[74..], [0x95, 0x9C, 0x3B, 0x68]);
}

#[test]
fn volume_report_bytes() {
    let r = audio::volume_report(3, 0x90, true);
    assert_eq!(&r[..11], [0x31, 0x30, 0x10, 0xF0, 0x80, 0, 0, 0x7F, 0x50, 0x20, 0]);
    assert_eq!(r[40], 5);
    assert_eq!(&r[74..], [0x66, 0x57, 0x0C, 0xCC]);
    let r = audio::volume_report(0, 0x64, false);
    assert_eq!(r[7], 0x64);
    assert_eq!(r[8], 0x40);
    assert_eq!(r[40], 0);
    assert_eq!(&r[74..], [0x27, 0xEE, 0xC7, 0xFF]);
}

#[test]
fn audio_report_bytes() {
    let r = audio::audio_report(9, 0xFF, &frame(), true);
    assert_eq!(r.len(), 334);
    assert_eq!(
        &r[..13],
        [0x35, 0x90, 0x91, 0x07, 0xFE, 0, 0, 0, 0, 0xFF, 0, 0x96, 0xC8]
    );
    assert_eq!(&r[13..213], &frame()[..]);
    assert_eq!(&r[330..], [0x8B, 0x3F, 0xCF, 0xA6]);
}

#[test]
fn audio_report_0x39_bytes() {
    let r = audio::audio_report_0x39(9, 2, &frame(), false);
    assert_eq!(r.len(), 547);
    assert_eq!(r[0], 0x39);
    assert_eq!(r[11], 0x93);
    assert_eq!(&r[543..], [0x60, 0xAB, 0x22, 0xBF]);
}

#[test]
fn haptics_report_0x32_bytes() {
    let r = audio::haptics_report_0x32(15, 4, &hap());
    assert_eq!(r.len(), 142);
    assert_eq!(
        &r[..13],
        [0x32, 0xF0, 0x91, 0x07, 0xFE, 0, 0, 0, 0, 4, 0, 0x92, 0x40]
    );
    assert_eq!(&r[13..77], &hap()[..]);
    assert_eq!(&r[138..], [0xE6, 0xB7, 0x9F, 0xAE]);
}

#[test]
fn init_report_032_bytes() {
    let r = audio::init_report_032(&state63());
    assert_eq!(r.len(), 142);
    assert_eq!(&r[..4], [0x32, 0x10, 0x90, 63]);
    assert_eq!(&r[4..67], &state63()[..]);
    assert_eq!(&r[138..], [0xC0, 0xBA, 0x38, 0x03]);
}

#[test]
fn mic_report_032_bytes() {
    let r = audio::mic_report_032(1, true);
    assert_eq!(
        &r[..13],
        [0x32, 0x10, 0x91, 7, 0xFF, 64, 64, 64, 64, 64, 1, 0x92, 0x40]
    );
    assert_eq!(&r[138..], [0xD8, 0x23, 0x35, 0xF0]);
    let r = audio::mic_report_032(2, false);
    assert_eq!(r[4], 0xFE);
    assert_eq!(&r[138..], [0x6B, 0x1E, 0x31, 0xFA]);
}

#[test]
fn audio_report_036_bt_bytes() {
    let r = audio::audio_report_036_bt(7, 200, &state63(), &hap(), &frame(), true);
    assert_eq!(r.len(), audio::REPORT_0X36_BT);
    assert_eq!(
        &r[..13],
        [0x36, 0x70, 0x91, 7, 0xFF, 64, 64, 64, 64, 64, 200, 0x90, 63]
    );
    assert_eq!(&r[13..76], &state63()[..]);
    assert_eq!(&r[76..78], [0x92, 64]);
    assert_eq!(&r[78..142], &hap()[..]);
    assert_eq!(&r[142..144], [0x96, 200]);
    assert_eq!(&r[144..344], &frame()[..]);
    assert_eq!(&r[344..394], [0u8; 50]);
    assert_eq!(&r[394..], [0xCB, 0x73, 0xC7, 0x12]);
}

#[test]
fn combined_report_0x36_bytes() {
    let r = sink::audio_report_0x36(2, 1, &state(), &hap(), &frame()[..120], false);
    assert_eq!(r.len(), 398);
    assert_eq!(r[4], 0xFE);
    assert_eq!(&r[11..13], [0x90, 47]);
    assert_eq!(&r[13..60], &state()[..]);
    assert_eq!(&r[60..76], [0u8; 16]);
    assert_eq!(&r[142..144], [0x93, 120]);
    assert_eq!(&r[144..264], &frame()[..120]);
    assert_eq!(&r[394..], [0x96, 0x71, 0xD2, 0xB0]);
}

#[test]
fn usb_engage_reports() {
    let jack = sink::usb_engage_report(true);
    assert_eq!(&jack[..9], [0x02, 0xDD, 0x77, 0, 0, 0x7F, 0, 0x08, 0x09]);
    assert_eq!(jack[38], 0);
    let speaker = sink::usb_engage_report(false);
    assert_eq!(&speaker[..9], [0x02, 0xED, 0xF7, 0, 0, 0x7F, 0x64, 0x08, 0x39]);
    assert_eq!(speaker[38], 1);
    assert_eq!(&speaker[39..], &sink::STATE_INIT[38..]);
}

#[test]
fn usb_reassert_touches_audio_only() {
    let mut expected = [0u8; 48];
    expected[0] = 0x02;
    expected[1] = 0x90;
    expected[5] = 0x7F;
    expected[8] = 0x09;
    assert_eq!(sink::usb_reassert_report(true), expected);
    let mut expected = [0u8; 48];
    expected[0] = 0x02;
    expected[1] = 0xA0;
    expected[6] = 0x64;
    expected[8] = 0x39;
    assert_eq!(sink::usb_reassert_report(false), expected);
}

#[test]
fn merging_audio_state() {
    let mut s = [0u8; 47];
    s[0] = 0x03;
    s[2] = 0x44;
    s[7] = 0x39;
    sink::merge_audio_state(&mut s, 0xFF, true, true);
    assert_eq!(&s[..8], [0xF3, 0x80, 0x44, 0, 0x7F, 0x64, 0, 0x09]);
    assert_eq!(s[37], 5);
    sink::merge_audio_state(&mut s, 0x20, false, false);
    assert_eq!(&s[4..8], [0, 0, 0, 0x39]);
}

#[test]
fn merging_63_twice_is_merging_once() {
    let mut s = state63();
    sink::sink_merge63(&mut s, 0x64, true, false);
    assert_eq!(s[0], 200 | 0x20);
    assert_eq!(s[1], 199 | 0x80);
    assert_eq!(s[4], 0x64);
    assert_eq!(s[5], 0x64);
    assert_eq!(s[7], (193 & 0xCF) | 0x30);
    assert_eq!(s[37], 1);
    assert_eq!(s[2], 198);
    let once = s;
    sink::sink_merge63(&mut s, 0x64, true, false);
    assert_eq!(s, once);
    sink::sink_merge63(&mut s, 0x64, true, true);
    assert_eq!(s[0] & 0x30, 0x10);
    assert_eq!(s[1] & 0x80, 0);
    assert_eq!(s[37], 0);
    assert_eq!(s[5], 0);
    assert_eq!(s[7] & 0x30, 0);
}

#[test]
fn restamping_touches_bluetooth_outputs_only() {
    let mut r = audio::state_report(0, &state());
    sink::restamp_kernel_output(&mut r, 5);
    assert_eq!(r, audio::state_report(5, &state()));
    let mut usb = vec![2u8; 48];
    sink::restamp_kernel_output(&mut usb, 5);
    assert_eq!(usb, vec![2u8; 48]);
}

#[test]
fn tone_repeats_its_volume() {
    let mut cfg = audio_config();
    let mut t = audio::ToneState::new(&cfg);
    assert!(t.jack);
    assert_eq!(t.unlock(), audio::volume_report(0, 0x64, false));
    assert_eq!(t.report(&frame()), audio::audio_report(0, 0xFF, &frame(), true));
    for _ in 0..255 {
        assert!(t.sent().is_none());
    }
    assert_eq!(t.sent(), Some(audio::volume_report(0, 0x64, false)));
    assert_eq!(t.seq, 0);
    assert_eq!(t.counter, 0xFF);
    cfg.speaker = Some(true);
    cfg.volume = Some(0x10);
    let t = audio::ToneState::new(&cfg);
    assert!(!t.jack);
    assert_eq!(t.unlock(), audio::volume_report(0, 0x10, true));
}

#[test]
fn tone_resyncs_when_late() {
    assert_eq!(audio::next_due(1_000, 0), 1_000 + audio::SEND_INTERVAL_NS);
    assert_eq!(audio::next_due(1_000, 50_000_000), 50_000_000);
}

#[test]
fn speaker_modes() {
    assert_eq!(sink::speaker_mode_code(&None), sink::MODE_PAD);
    for (text, mode) in [("pad", 0u8), ("forward", 1), ("mute", 2), ("loud", 0)] {
        assert_eq!(sink::speaker_mode_code(&Some(text.to_string())), mode);
    }
    for mode in 0..3u8 {
        let name = sink::mode_name(mode).to_string();
        assert_eq!(sink::speaker_mode_code(&Some(name)), mode);
    }
}

#[test]
fn override_file_beats_configured_mode() {
    let cfg = Some("mute".to_string());
    assert_eq!(sink::current_mode(&cfg, &None), sink::MODE_MUTE);
    assert_eq!(
        sink::current_mode(&cfg, &Some(" forward\n".to_string())),
        sink::MODE_FORWARD
    );
}

#[test]
fn override_paths() {
    let run = Some("/run/user/1000".to_string());
    assert_eq!(
        sink::speaker_override_path(&run),
        Some("/run/user/1000/mdrv-ds-speaker".to_string())
    );
    assert_eq!(sink::speaker_override_path(&None), None);
    assert_eq!(
        sink::gain_override_path(&run),
        Some("/run/user/1000/mdrv-ds-gain".to_string())
    );
    assert_eq!(sink::gain_override_path(&None), None);
}
