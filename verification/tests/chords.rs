use mdrv_ds::chords;
use mdrv_ds::chords::ChordState;
use mdrv_ds::config;
use mdrv_ds::config::NotifyConfig;
use mdrv_ds::hid::Transport;
use mdrv_ds::proxy;
use mdrv_ds::proxy::InputLayout;

fn layout() -> InputLayout {
    proxy::layout_for(Transport::Usb)
}

fn rest() -> Vec<u8> {
    let mut r = vec![0u8; 64];
    r[0] = 1;
    r[8] = 0x08;
    r
}

fn report(b0: u8, b1: u8, b2: u8) -> Vec<u8> {
    let mut r = rest();
    r[8] = b0;
    r[9] = b1;
    r[10] = b2;
    r
}

fn bind(list: &[(&str, &str)]) -> Vec<(String, usize, u8, String)> {
    list.iter()
        .map(|(n, c)| {
            let (byte, bit) = config::chord_button(n).unwrap();
            (n.to_string(), byte, bit, c.to_string())
        })
        .collect()
}

fn engine(list: &[(&str, &str)]) -> ChordState {
    ChordState::new(bind(list), NotifyConfig::default(), None, None)
}

fn commands(c: &mut ChordState, r: &[u8], now: u64) -> Vec<(String, String)> {
    c.feed(r, &layout(), now).runs
}

fn run(name: &str, cmd: &str) -> (String, String) {
    (name.to_string(), cmd.to_string())
}

#[test]
fn a_chord_fires_once_per_press() {
    let mut c = engine(&[("cross", "a")]);
    assert!(commands(&mut c, &rest(), 0).is_empty());
    assert_eq!(commands(&mut c, &report(0x28, 0, 1), 1), vec![run("cross", "a")]);
    for t in 2..20 {
        assert!(commands(&mut c, &report(0x28, 0, 1), t).is_empty());
    }
    assert!(commands(&mut c, &report(0x08, 0, 1), 30).is_empty());
    assert_eq!(commands(&mut c, &report(0x28, 0, 1), 31), vec![run("cross", "a")]);
}

#[test]
fn the_first_report_fires_nothing() {
    let mut c = engine(&[("cross", "a")]);
    assert!(commands(&mut c, &report(0x28, 0, 1), 0).is_empty());
    assert!(commands(&mut c, &report(0x28, 0, 1), 1).is_empty());
}

#[test]
fn no_chord_without_ps() {
    let mut c = engine(&[("cross", "a")]);
    commands(&mut c, &rest(), 0);
    assert!(commands(&mut c, &report(0x28, 0, 0), 1).is_empty());
    // Held before PS: no edge under PS either.
    assert!(commands(&mut c, &report(0x28, 0, 1), 2).is_empty());
}

#[test]
fn a_fired_button_is_swallowed_until_ps_is_up() {
    let l = layout();
    let mut c = engine(&[("cross", "a"), ("up", "b"), ("l2", "d")]);
    commands(&mut c, &rest(), 0);
    let mut r = report(0x20, 0, 1);
    r[5] = 0x41;
    assert_eq!(
        commands(&mut c, &r, 1),
        vec![run("cross", "a"), run("up", "b"), run("l2", "d")]
    );
    let mut seen = r.clone();
    c.strip(&mut seen, &l);
    assert_eq!(&seen[8..11], [0x08, 0, 0]);
    assert_eq!(seen[5], 0);
    let mut r = report(0x38, 0x01, 1);
    commands(&mut c, &r, 2);
    c.strip(&mut r, &l);
    assert_eq!(&r[8..11], [0x18, 0x01, 0]);
    let mut r = report(0x28, 0, 0);
    commands(&mut c, &r, 3);
    c.strip(&mut r, &l);
    assert_eq!(&r[8..11], [0x28, 0, 0]);
}

#[test]
fn triggers_have_hysteresis() {
    let mut c = engine(&[("r2", "a")]);
    commands(&mut c, &rest(), 0);
    let mut r = report(0x08, 0, 1);
    r[6] = 0x40;
    assert!(commands(&mut c, &r, 1).is_empty());
    r[6] = 0x41;
    assert_eq!(commands(&mut c, &r, 2), vec![run("r2", "a")]);
    r[6] = 0x31;
    assert!(commands(&mut c, &r, 3).is_empty());
    r[6] = 0x41;
    assert!(commands(&mut c, &r, 4).is_empty());
    r[6] = 0x30;
    assert!(commands(&mut c, &r, 5).is_empty());
    r[6] = 0x41;
    assert_eq!(commands(&mut c, &r, 6), vec![run("r2", "a")]);
}

#[test]
fn toggles_are_named_and_not_run() {
    let mut c = engine(&[("l3", config::PS_TOGGLE)]);
    commands(&mut c, &rest(), 0);
    let fire = c.feed(&report(0x08, 0x40, 1), &layout(), 1);
    assert_eq!(fire.toggle, Some("l3".to_string()));
    assert!(fire.runs.is_empty());
}

#[test]
fn tap_fires_on_release_only_when_alone() {
    let mut c = ChordState::new(vec![], NotifyConfig::default(), Some("t".to_string()), None);
    commands(&mut c, &rest(), 0);
    assert!(commands(&mut c, &report(8, 0, 1), 1).is_empty());
    assert_eq!(commands(&mut c, &rest(), 2), vec![run("ps-tap", "t")]);
    assert!(commands(&mut c, &rest(), 3).is_empty());
    commands(&mut c, &report(8, 0, 1), 4);
    commands(&mut c, &report(8, 1, 1), 5);
    commands(&mut c, &report(8, 0, 1), 6);
    assert!(commands(&mut c, &rest(), 7).is_empty());
}

#[test]
fn hold_fires_once_and_excludes_the_tap() {
    let s = 1_000_000_000u64;
    let mut c = ChordState::new(
        vec![],
        NotifyConfig::default(),
        Some("t".to_string()),
        Some("h".to_string()),
    );
    commands(&mut c, &rest(), 0);
    assert!(commands(&mut c, &report(8, 0, 1), s).is_empty());
    assert!(commands(&mut c, &report(8, 0, 1), 4 * s - 1).is_empty());
    assert_eq!(commands(&mut c, &report(8, 0, 1), 4 * s), vec![run("ps-hold", "h")]);
    assert!(commands(&mut c, &report(8, 0, 1), 9 * s).is_empty());
    assert!(commands(&mut c, &rest(), 10 * s).is_empty());
}

#[test]
fn short_reports_change_nothing() {
    let mut c = engine(&[("cross", "a")]);
    commands(&mut c, &rest(), 0);
    assert!(commands(&mut c, &[1, 2, 3], 1).is_empty());
    let mut short = vec![0xFFu8; 10];
    c.strip(&mut short, &layout());
    assert_eq!(short, vec![0xFFu8; 10]);
}

#[test]
fn events_say_what_ran() {
    let mut n = NotifyConfig::default();
    assert!(chords::notify_event(&n, "l3", "true", true, 0, "").is_none());
    n.enabled = true;
    n.command = "tell".to_string();
    let e = chords::notify_event(&n, "l3", "false", false, 3, "out").unwrap();
    assert_eq!(e.line, "tell");
    assert_eq!(e.chord, "l3");
    assert_eq!(e.command, "false");
    assert_eq!(e.status(), "failed");
    assert_eq!(e.code, 3);
    assert_eq!(e.output, "out");
    assert_eq!(
        chords::notify_event(&n, "l3", "true", true, 0, "").unwrap().status(),
        "success"
    );
    n.when = "on-failure".to_string();
    assert!(chords::notify_event(&n, "l3", "true", true, 0, "").is_none());
}

#[test]
fn toggle_events_tell_the_mode() {
    let mut n = NotifyConfig::default();
    n.enabled = true;
    let c = ChordState::new(vec![], n, None, None);
    let e = c.notify_ps_toggle("l3", true).unwrap();
    assert_eq!(e.command, "ps:toggle");
    assert_eq!(e.output, "PS mode: swallow");
    assert_eq!(c.notify_ps_toggle("l3", false).unwrap().output, "PS mode: pass");
}

#[test]
fn outputs_are_merged_and_capped() {
    assert_eq!(chords::merge_output(" out\n", " err "), "out\nerr");
    assert_eq!(chords::merge_output("", "err"), "err");
    assert_eq!(chords::merge_output("out", "  "), "out");
    let fits = "x".repeat(500);
    assert_eq!(chords::merge_output(&fits, ""), fits);
    let long = chords::merge_output(&"x".repeat(501), "");
    assert_eq!(long.len(), 500);
    assert!(long.ends_with("x\u{2026}"));
    let wide = chords::merge_output(&"\u{e9}".repeat(300), "");
    assert!(wide.len() <= 500);
    assert!(wide.ends_with("\u{e9}\u{2026}"));
}
