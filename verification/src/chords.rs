//! PS+button chord engine. It runs on raw input reports, fires actions on the
//! press edge while PS is held, and swallows the fired button and the PS bit
//! until PS is released.

use vstd::prelude::*;

use crate::audiobridge;
use crate::config;
use crate::config::NotifyConfig;
use crate::proxy::InputLayout;
use crate::text;

verus! {

/// Analog-trigger press threshold; a released trigger rests at 0.
pub const TRIG_THRESHOLD: u8 = 0x40;

/// A held trigger is released only under this value.
pub const TRIG_RELEASE: u8 = 0x30;

/// How long PS must be held alone before the hold action fires.
pub const PS_HOLD_NS: u64 = 3_000_000_000;

/// The engine's memory.
pub struct ChordState {
    /// Name, byte offset, bit and command of each chord.
    pub bindings: Vec<(String, usize, u8, String)>,
    pub prev_pressed: Vec<bool>,
    /// Bits to strip from each button byte while a chord is active.
    pub swallow: [u8; 3],
    /// Analog triggers to zero while their chord is active.
    pub swallow_trig: [bool; 2],
    /// Force the hat to neutral while a d-pad chord is active.
    pub swallow_hat: bool,
    /// Treat the first report as "everything already pressed".
    pub skip_edges: bool,
    pub notify: NotifyConfig,
    pub ps_tap: Option<String>,
    pub ps_hold: Option<String>,
    pub ps_held: bool,
    /// When PS went down, in nanoseconds.
    pub ps_held_since: Option<u64>,
    /// Another input was active during the press.
    pub ps_paired: bool,
    pub ps_hold_fired: bool,
}

/// What a report set off: the chord that toggles the PS mode, and the commands
/// to run, each with its name.
pub struct ChordFire {
    pub toggle: Option<String>,
    pub runs: Vec<(String, String)>,
}

/// Commands with their texts by their characters.
pub open spec fn runs_view(l: Seq<(String, String)>) -> Seq<(Seq<char>, Seq<char>)> {
    l.map_values(|r: (String, String)| (r.0@, r.1@))
}

// ---------------------------------------------------------------- what a report shows

/// Whether a report is long enough for its buttons.
pub open spec fn has_buttons(report: Seq<u8>, l: InputLayout) -> bool {
    report.len() >= l.btn0 + 3
}

pub open spec fn ps_down(report: Seq<u8>, l: InputLayout) -> bool {
    report[l.btn0 + 2] & 0x01 != 0
}

/// Whether the trigger at `at` counts as pressed. Once pressed it stays so
/// until it falls to the lower threshold.
pub open spec fn trigger_down(report: Seq<u8>, at: int, prev: bool) -> bool {
    at < report.len() && report[at] > (if prev {
        TRIG_RELEASE
    } else {
        TRIG_THRESHOLD
    })
}

/// Whether a chord's button is pressed.
pub open spec fn pressed(byte: usize, bit: u8, prev: bool, report: Seq<u8>, l: InputLayout) -> bool {
    let hat = audiobridge::hat_shape(report[l.btn0 as int] & 0x0f);
    if byte == config::TRIG_L2 {
        trigger_down(report, l.trig0 as int, prev)
    } else if byte == config::TRIG_R2 {
        trigger_down(report, l.trig0 + 1, prev)
    } else if byte == config::HAT_UP {
        hat[0]
    } else if byte == config::HAT_DOWN {
        hat[2]
    } else if byte == config::HAT_LEFT {
        hat[3]
    } else if byte == config::HAT_RIGHT {
        hat[1]
    } else {
        report[l.btn0 + byte] & bit != 0
    }
}

/// Whether any input but PS is active.
pub open spec fn paired_input(report: Seq<u8>, l: InputLayout) -> bool {
    ||| report[l.btn0 as int] & 0x0f != 0x08
    ||| report[l.btn0 as int] & 0xf0 != 0
    ||| report[l.btn0 + 1] != 0
    ||| report[l.btn0 + 2] & 0xfe != 0
    ||| trigger_down(report, l.trig0 as int, false)
    ||| trigger_down(report, l.trig0 + 1, false)
}

/// Time passed since `since`; none where the clock stands before it.
pub open spec fn elapsed(now: u64, since: u64) -> int {
    if now >= since {
        now - since
    } else {
        0
    }
}

// ---------------------------------------------------------------- what fires

/// What is swallowed and fired.
pub ghost struct Effect {
    pub swallow: Seq<u8>,
    pub trig: Seq<bool>,
    pub hat: bool,
    pub toggle: Option<Seq<char>>,
    pub runs: Seq<(Seq<char>, Seq<char>)>,
}

/// One more chord fires.
pub open spec fn with_fire(e: Effect, name: Seq<char>, byte: usize, bit: u8, cmd: Seq<char>) -> Effect {
    let own = if byte < 3 {
        e.swallow.update(byte as int, e.swallow[byte as int] | bit)
    } else {
        e.swallow
    };
    Effect {
        swallow: own.update(2, own[2] | 0x01),
        trig: if byte == config::TRIG_L2 {
            e.trig.update(0, true)
        } else if byte == config::TRIG_R2 {
            e.trig.update(1, true)
        } else {
            e.trig
        },
        hat: e.hat || byte == config::HAT_UP || byte == config::HAT_DOWN || byte == config::HAT_LEFT
            || byte == config::HAT_RIGHT,
        toggle: if cmd == config::PS_TOGGLE@ {
            Some(name)
        } else {
            e.toggle
        },
        runs: if cmd == config::PS_TOGGLE@ {
            e.runs
        } else {
            e.runs.push((name, cmd))
        },
    }
}

impl ChordState {
    /// One flag for each binding, and bindings that the engine knows.
    pub open spec fn ok(self) -> bool {
        self.prev_pressed@.len() == self.bindings@.len() && config::bindings_ok(self.bindings@)
    }

    /// Whether a binding's button is pressed.
    pub open spec fn is_pressed(self, i: int, report: Seq<u8>, l: InputLayout) -> bool {
        pressed(self.bindings@[i].1, self.bindings@[i].2, self.prev_pressed@[i], report, l)
    }

    /// Whether a binding fires: its button goes down while PS is held, and the
    /// report is not the first one.
    pub open spec fn fires(self, i: int, report: Seq<u8>, l: InputLayout) -> bool {
        ps_down(report, l) && self.is_pressed(i, report, l) && !self.prev_pressed@[i]
            && !self.skip_edges
    }

    /// What the first `n` bindings swallow and fire.
    pub open spec fn effect(self, n: int, report: Seq<u8>, l: InputLayout) -> Effect
        decreases n,
    {
        if n <= 0 {
            Effect {
                swallow: self.swallow@,
                trig: self.swallow_trig@,
                hat: self.swallow_hat,
                toggle: None,
                runs: Seq::empty(),
            }
        } else {
            let e = self.effect(n - 1, report, l);
            let b = self.bindings@[n - 1];
            if self.fires(n - 1, report, l) {
                with_fire(e, b.0@, b.1, b.2, b.3@)
            } else {
                e
            }
        }
    }

    /// Whether another input was active at any time of the press.
    pub open spec fn pairs(self, report: Seq<u8>, l: InputLayout) -> bool {
        paired_input(report, l) || (if self.ps_held {
            self.ps_paired
        } else {
            self.skip_edges
        })
    }

    /// When the press began.
    pub open spec fn held_since(self, now: u64) -> Option<u64> {
        if self.ps_held {
            self.ps_held_since
        } else {
            Some(now)
        }
    }

    /// Whether the hold action fires: PS held alone for long enough, once per
    /// press.
    pub open spec fn hold_fires(self, report: Seq<u8>, l: InputLayout, now: u64) -> bool {
        &&& ps_down(report, l)
        &&& !self.pairs(report, l)
        &&& !(self.ps_held && self.ps_hold_fired)
        &&& self.ps_hold is Some
        &&& self.held_since(now) is Some
        &&& elapsed(now, self.held_since(now)->0) >= PS_HOLD_NS
    }

    /// Whether the tap action fires: PS released after a press on its own that
    /// was no hold.
    pub open spec fn tap_fires(self, report: Seq<u8>, l: InputLayout) -> bool {
        !ps_down(report, l) && self.ps_held && !self.ps_paired && !self.ps_hold_fired && self.ps_tap
            is Some
    }

    /// The commands of a report: those of the chords, then that of PS alone.
    pub open spec fn runs(self, report: Seq<u8>, l: InputLayout, now: u64) -> Seq<
        (Seq<char>, Seq<char>),
    > {
        let chords = self.effect(self.bindings@.len() as int, report, l).runs;
        if self.hold_fires(report, l, now) {
            chords.push(("ps-hold"@, (self.ps_hold->0)@))
        } else if self.tap_fires(report, l) {
            chords.push(("ps-tap"@, (self.ps_tap->0)@))
        } else {
            chords
        }
    }

    /// The engine after a report, from what it was before.
    pub open spec fn fed_from(self, pre: ChordState, report: Seq<u8>, l: InputLayout, now: u64) -> bool {
        let n = pre.bindings@.len() as int;
        let e = pre.effect(n, report, l);
        let down = ps_down(report, l);
        &&& self.bindings@ == pre.bindings@
        &&& self.notify == pre.notify
        &&& self.ps_tap == pre.ps_tap
        &&& self.ps_hold == pre.ps_hold
        &&& self.prev_pressed@.len() == n
        &&& forall|i: int|
            0 <= i < n ==> #[trigger] self.prev_pressed@[i] == pre.is_pressed(i, report, l)
        &&& self.swallow@ == (if down {
            e.swallow
        } else {
            seq![0u8, 0, 0]
        })
        &&& self.swallow_trig@ == (if down {
            e.trig
        } else {
            seq![false, false]
        })
        &&& self.swallow_hat == (down && e.hat)
        &&& !self.skip_edges
        &&& self.ps_held == down
        &&& self.ps_held_since == (if down {
            pre.held_since(now)
        } else if pre.ps_held {
            None
        } else {
            pre.ps_held_since
        })
        &&& self.ps_paired == (if down {
            pre.pairs(report, l)
        } else if pre.ps_held {
            false
        } else {
            pre.ps_paired
        })
        &&& self.ps_hold_fired == (if down {
            (pre.ps_held && pre.ps_hold_fired) || pre.hold_fires(report, l, now)
        } else if pre.ps_held {
            false
        } else {
            pre.ps_hold_fired
        })
    }

    /// A fresh engine: nothing pressed, and no edge in the first report.
    pub fn new(
        bindings: Vec<(String, usize, u8, String)>,
        notify: NotifyConfig,
        ps_tap: Option<String>,
        ps_hold: Option<String>,
    ) -> (r: ChordState)
        requires
            config::bindings_ok(bindings@),
        ensures
            r.ok(),
            r.bindings == bindings,
            r.notify == notify,
            r.ps_tap == ps_tap,
            r.ps_hold == ps_hold,
            forall|i: int| 0 <= i < r.prev_pressed@.len() ==> !r.prev_pressed@[i],
            r.swallow@ == seq![0u8, 0, 0],
            r.swallow_trig@ == seq![false, false],
            !r.swallow_hat,
            r.skip_edges,
            !r.ps_held,
            r.ps_held_since is None,
            !r.ps_paired,
            !r.ps_hold_fired,
    {
        let n: usize = bindings.len();
        let mut prev_pressed: Vec<bool> = Vec::new();
        let mut i: usize = 0;
        while i < n
            invariant
                i <= n,
                prev_pressed@.len() == i,
                forall|j: int| 0 <= j < i ==> !prev_pressed@[j],
            decreases n - i,
        {
            prev_pressed.push(false);
            i = i + 1;
        }
        let r = ChordState {
            bindings,
            prev_pressed,
            swallow: [0, 0, 0],
            swallow_trig: [false, false],
            swallow_hat: false,
            skip_edges: true,
            notify,
            ps_tap,
            ps_hold,
            ps_held: false,
            ps_held_since: None,
            ps_paired: false,
            ps_hold_fired: false,
        };
        assert(r.swallow@ =~= seq![0u8, 0, 0]);
        assert(r.swallow_trig@ =~= seq![false, false]);
        r
    }

    /// Takes one raw report, at the time `now` in nanoseconds. Returns what it
    /// sets off; a chord that toggles the PS mode is named, and the caller
    /// flips the mode.
    pub fn feed(&mut self, report: &[u8], l: &InputLayout, now: u64) -> (r: ChordFire)
        requires
            old(self).ok(),
            l.ok(),
        ensures
            final(self).ok(),
            has_buttons(report@, *l) ==> {
                &&& final(self).fed_from(*old(self), report@, *l, now)
                &&& config::opt_view(r.toggle) == old(self).effect(
                    old(self).bindings@.len() as int,
                    report@,
                    *l,
                ).toggle
                &&& runs_view(r.runs@) == old(self).runs(report@, *l, now)
            },
            !has_buttons(report@, *l) ==> {
                &&& *final(self) == *old(self)
                &&& r.toggle is None
                &&& r.runs@.len() == 0
            },
    {
        let mut runs: Vec<(String, String)> = Vec::new();
        let mut toggle: Option<String> = None;
        if report.len() < l.btn0 + 3 {
            return ChordFire { toggle, runs };
        }
        let down: bool = report[l.btn0 + 2] & 0x01 != 0;
        let mut swallow: [u8; 3] = self.swallow;
        let mut trig: [bool; 2] = self.swallow_trig;
        let mut hat: bool = self.swallow_hat;
        let mut flags: Vec<bool> = Vec::new();
        let mut i: usize = 0;
        assert(runs_view(runs@) =~= Seq::empty());
        while i < self.bindings.len()
            invariant
                i <= self.bindings@.len(),
                *self == *old(self),
                self.ok(),
                l.ok(),
                has_buttons(report@, *l),
                down == ps_down(report@, *l),
                flags@.len() == i,
                forall|j: int|
                    0 <= j < i ==> #[trigger] flags@[j] == self.is_pressed(j, report@, *l),
                self.effect(i as int, report@, *l) == (Effect {
                    swallow: swallow@,
                    trig: trig@,
                    hat,
                    toggle: config::opt_view(toggle),
                    runs: runs_view(runs@),
                }),
            decreases self.bindings@.len() - i,
        {
            let b: &(String, usize, u8, String) = &self.bindings[i];
            let byte: usize = b.1;
            let bit: u8 = b.2;
            let prev: bool = self.prev_pressed[i];
            let p: bool = button_down(byte, bit, prev, report, l);
            if down && p && !prev && !self.skip_edges {
                let ghost before = self.effect(i as int, report@, *l);
                if text::same(b.3.as_str(), config::PS_TOGGLE) {
                    toggle = Some(b.0.clone());
                } else {
                    let ghost r0 = runs_view(runs@);
                    runs.push((b.0.clone(), b.3.clone()));
                    assert(runs_view(runs@) =~= r0.push((b.0@, b.3@)));
                }
                if byte == config::TRIG_L2 {
                    trig[0] = true;
                } else if byte == config::TRIG_R2 {
                    trig[1] = true;
                } else if byte == config::HAT_UP || byte == config::HAT_DOWN || byte
                    == config::HAT_LEFT || byte == config::HAT_RIGHT {
                    hat = true;
                } else {
                    swallow[byte] = swallow[byte] | bit;
                }
                swallow[2] = swallow[2] | 0x01;
                assert(with_fire(before, b.0@, byte, bit, b.3@) == (Effect {
                    swallow: swallow@,
                    trig: trig@,
                    hat,
                    toggle: config::opt_view(toggle),
                    runs: runs_view(runs@),
                }));
            }
            flags.push(p);
            i = i + 1;
        }
        let ghost e = self.effect(self.bindings@.len() as int, report@, *l);
        let ghost chord_runs = runs_view(runs@);
        let paired: bool = other_input(report, l);
        self.prev_pressed = flags;
        if down {
            if !self.ps_held {
                self.ps_held = true;
                self.ps_held_since = Some(now);
                self.ps_paired = self.skip_edges;
                self.ps_hold_fired = false;
            }
            if paired {
                self.ps_paired = true;
            }
            let long: bool = match self.ps_held_since {
                Some(s) => now >= s && now - s >= PS_HOLD_NS,
                None => false,
            };
            if !self.ps_paired && !self.ps_hold_fired && long {
                match &self.ps_hold {
                    Some(cmd) => {
                        runs.push(("ps-hold".to_owned(), cmd.clone()));
                        assert(runs_view(runs@) =~= chord_runs.push(
                            ("ps-hold"@, (old(self).ps_hold->0)@),
                        ));
                        self.ps_hold_fired = true;
                    },
                    None => {},
                }
            }
            self.swallow = swallow;
            self.swallow_trig = trig;
            self.swallow_hat = hat;
        } else {
            if self.ps_held {
                if !self.ps_paired && !self.ps_hold_fired {
                    match &self.ps_tap {
                        Some(cmd) => {
                            runs.push(("ps-tap".to_owned(), cmd.clone()));
                            assert(runs_view(runs@) =~= chord_runs.push(
                                ("ps-tap"@, (old(self).ps_tap->0)@),
                            ));
                        },
                        None => {},
                    }
                }
                self.ps_held = false;
                self.ps_held_since = None;
                self.ps_paired = false;
                self.ps_hold_fired = false;
            }
            self.swallow = [0, 0, 0];
            self.swallow_trig = [false, false];
            self.swallow_hat = false;
            assert(self.swallow@ =~= seq![0u8, 0, 0]);
            assert(self.swallow_trig@ =~= seq![false, false]);
        }
        self.skip_edges = false;
        ChordFire { toggle, runs }
    }

    /// A report without what the active chords swallow.
    pub open spec fn stripped(self, report: Seq<u8>, l: InputLayout) -> Seq<u8> {
        if !has_buttons(report, l) {
            report
        } else {
            let masked = report.update(l.btn0 as int, report[l.btn0 as int] & !self.swallow@[0]).update(
                l.btn0 + 1,
                report[l.btn0 + 1] & !self.swallow@[1],
            ).update(l.btn0 + 2, report[l.btn0 + 2] & !self.swallow@[2]);
            let left = if self.swallow_trig@[0] && report.len() > l.trig0 {
                masked.update(l.trig0 as int, 0)
            } else {
                masked
            };
            let right = if self.swallow_trig@[1] && report.len() > l.trig0 + 1 {
                left.update(l.trig0 + 1, 0)
            } else {
                left
            };
            if self.swallow_hat {
                right.update(l.btn0 as int, (right[l.btn0 as int] & 0xf0) | 0x08)
            } else {
                right
            }
        }
    }

    /// Strips from a report what the active chords swallow.
    pub fn strip(&self, report: &mut [u8], l: &InputLayout)
        requires
            l.ok(),
        ensures
            final(report)@ == self.stripped(old(report)@, *l),
    {
        if report.len() < l.btn0 + 3 {
            return;
        }
        let b: usize = l.btn0;
        report[b] = report[b] & !self.swallow[0];
        report[b + 1] = report[b + 1] & !self.swallow[1];
        report[b + 2] = report[b + 2] & !self.swallow[2];
        if self.swallow_trig[0] && report.len() > l.trig0 {
            report[l.trig0] = 0;
        }
        if self.swallow_trig[1] && report.len() > l.trig0 + 1 {
            report[l.trig0 + 1] = 0;
        }
        if self.swallow_hat {
            report[b] = (report[b] & 0xf0) | 0x08;
        }
    }

    /// The event of a PS-mode toggle, where such events are wanted.
    pub fn notify_ps_toggle(&self, chord: &str, swallow: bool) -> (r: Option<NotifyEvent>)
        ensures
            event_view(r) == event_for(
                self.notify,
                chord@,
                "ps:toggle"@,
                true,
                0,
                if swallow {
                    "PS mode: swallow"@
                } else {
                    "PS mode: pass"@
                },
            ),
    {
        let mode: &str = if swallow {
            "PS mode: swallow"
        } else {
            "PS mode: pass"
        };
        notify_event(&self.notify, chord, "ps:toggle", true, 0, mode)
    }
}

fn over(report: &[u8], at: usize, threshold: u8) -> (r: bool)
    ensures
        r == (at < report@.len() && report@[at as int] > threshold),
{
    at < report.len() && report[at] > threshold
}

fn button_down(byte: usize, bit: u8, prev: bool, report: &[u8], l: &InputLayout) -> (r: bool)
    requires
        l.ok(),
        has_buttons(report@, *l),
        config::known_button(byte, bit),
    ensures
        r == pressed(byte, bit, prev, report@, *l),
{
    let threshold: u8 = if prev {
        TRIG_RELEASE
    } else {
        TRIG_THRESHOLD
    };
    let dirs: [bool; 4] = audiobridge::hat_dirs(report[l.btn0] & 0x0f);
    if byte == config::TRIG_L2 {
        over(report, l.trig0, threshold)
    } else if byte == config::TRIG_R2 {
        over(report, l.trig0 + 1, threshold)
    } else if byte == config::HAT_UP {
        dirs[0]
    } else if byte == config::HAT_DOWN {
        dirs[2]
    } else if byte == config::HAT_LEFT {
        dirs[3]
    } else if byte == config::HAT_RIGHT {
        dirs[1]
    } else {
        report[l.btn0 + byte] & bit != 0
    }
}

fn other_input(report: &[u8], l: &InputLayout) -> (r: bool)
    requires
        l.ok(),
        has_buttons(report@, *l),
    ensures
        r == paired_input(report@, *l),
{
    report[l.btn0] & 0x0f != 0x08 || report[l.btn0] & 0xf0 != 0 || report[l.btn0 + 1] != 0
        || report[l.btn0 + 2] & 0xfe != 0 || over(report, l.trig0, TRIG_THRESHOLD) || over(
        report,
        l.trig0 + 1,
        TRIG_THRESHOLD,
    )
}

// ---------------------------------------------------------------- notifications

/// An event for the user's `[notify]` command.
pub struct NotifyEvent {
    /// The command to run.
    pub line: String,
    pub chord: String,
    pub command: String,
    pub success: bool,
    pub code: i32,
    pub output: String,
}

/// A `NotifyEvent` by its values.
pub ghost struct EventShape {
    pub line: Seq<char>,
    pub chord: Seq<char>,
    pub command: Seq<char>,
    pub success: bool,
    pub code: i32,
    pub output: Seq<char>,
}

/// An optional event by its values.
pub open spec fn event_view(e: Option<NotifyEvent>) -> Option<EventShape> {
    match e {
        Some(v) => Some(
            EventShape {
                line: v.line@,
                chord: v.chord@,
                command: v.command@,
                success: v.success,
                code: v.code,
                output: v.output@,
            },
        ),
        None => None,
    }
}

/// Whether the table wants events of this outcome.
pub open spec fn wanted(cfg: NotifyConfig, success: bool) -> bool {
    cfg.enabled && (cfg.when@ == "on-failure"@ ==> !success)
}

/// The event to report, where the table wants it.
pub open spec fn event_for(
    cfg: NotifyConfig,
    chord: Seq<char>,
    command: Seq<char>,
    success: bool,
    code: i32,
    output: Seq<char>,
) -> Option<EventShape> {
    if wanted(cfg, success) {
        Some(EventShape { line: cfg.command@, chord, command, success, code, output })
    } else {
        None
    }
}

/// The event to report, where the table wants it.
pub fn notify_event(
    cfg: &NotifyConfig,
    chord: &str,
    cmd: &str,
    success: bool,
    code: i32,
    output: &str,
) -> (r: Option<NotifyEvent>)
    ensures
        event_view(r) == event_for(*cfg, chord@, cmd@, success, code, output@),
{
    if !cfg.wants(success) {
        return None;
    }
    Some(
        NotifyEvent {
            line: cfg.command.clone(),
            chord: chord.to_owned(),
            command: cmd.to_owned(),
            success,
            code,
            output: output.to_owned(),
        },
    )
}

impl NotifyEvent {
    /// The value of MDRV_STATUS.
    pub fn status(&self) -> (r: &'static str)
        ensures
            r@ == (if self.success {
                "success"@
            } else {
                "failed"@
            }),
    {
        if self.success {
            "success"
        } else {
            "failed"
        }
    }
}

/// The merged output of a command: both streams trimmed, the error stream
/// behind the other on a line of its own.
pub open spec fn merged(out: Seq<char>, err: Seq<char>) -> Seq<char> {
    let a = text::trimmed(out);
    let b = text::trimmed(err);
    if b.len() == 0 {
        a
    } else if a.len() == 0 {
        b
    } else {
        a.push('\n') + b
    }
}

/// The most bytes of output that an event carries.
pub const OUTPUT_MAX: usize = 500;

/// An output capped at `OUTPUT_MAX` bytes: a longer one is cut at a character
/// and marked with an ellipsis, which takes three bytes.
pub open spec fn capped(s: Seq<char>) -> Seq<char> {
    if text::byte_len(s) <= OUTPUT_MAX {
        s
    } else {
        s.subrange(0, text::fitting(s, OUTPUT_MAX - 3) as int).push('\u{2026}')
    }
}

/// The output that an event carries: the command's two streams merged and
/// capped.
pub fn merge_output(stdout: &str, stderr: &str) -> (r: String)
    ensures
        r@ == capped(merged(stdout@, stderr@)),
{
    let mut all: Vec<char> = text::trim(text::chars_of(stdout).as_slice());
    let err: Vec<char> = text::trim(text::chars_of(stderr).as_slice());
    if err.len() > 0 {
        if all.len() > 0 {
            all.push('\n');
        }
        text::append_chars(&mut all, err.as_slice());
    }
    assert(all@ =~= merged(stdout@, stderr@));
    let n: usize = text::fit(all.as_slice(), OUTPUT_MAX);
    proof {
        text::fitting_fits(all@, OUTPUT_MAX as int);
        assert(all@.subrange(0, all@.len() as int) =~= all@);
        text::fitting_is_all(all@, OUTPUT_MAX as int);
    }
    if n == all.len() {
        return text::string_of(all.as_slice());
    }
    let m: usize = text::fit(all.as_slice(), OUTPUT_MAX - 3);
    let mut cut: Vec<char> = text::slice_of(all.as_slice(), 0, m);
    cut.push('\u{2026}');
    text::string_of(cut.as_slice())
}

/// The output of an event never takes more than the cap.
pub proof fn capped_output_fits(s: Seq<char>)
    ensures
        text::byte_len(capped(s)) <= 500,
        text::byte_len(s) <= 500 ==> capped(s) == s,
        text::byte_len(s) > 500 ==> {
            &&& capped(s).last() == '\u{2026}'
            &&& capped(s).drop_last() == s.subrange(0, capped(s).len() - 1)
        },
{
    if text::byte_len(s) > OUTPUT_MAX {
        let n = text::fitting(s, OUTPUT_MAX - 3) as int;
        text::fitting_fits(s, OUTPUT_MAX - 3);
        text::byte_len_push(s.subrange(0, n), '\u{2026}');
    }
}

// ---------------------------------------------------------------- laws

/// A chord fires exactly once per press: after a report that shows its button
/// down, it does not fire again as long as the button is not seen released.
pub proof fn chord_fires_once_per_press(
    pre: ChordState,
    post: ChordState,
    report: Seq<u8>,
    l: InputLayout,
    now: u64,
    next: Seq<u8>,
    i: int,
)
    requires
        pre.ok(),
        post.fed_from(pre, report, l, now),
        0 <= i < pre.bindings@.len(),
        pre.is_pressed(i, report, l),
    ensures
        !post.fires(i, next, l),
{
    assert(post.prev_pressed@[i] == pre.is_pressed(i, report, l));
}

/// A chord does fire when its button goes down while PS is held.
pub proof fn chord_fires_on_the_edge(
    pre: ChordState,
    post: ChordState,
    report: Seq<u8>,
    l: InputLayout,
    now: u64,
    next: Seq<u8>,
    i: int,
)
    requires
        pre.ok(),
        post.fed_from(pre, report, l, now),
        0 <= i < pre.bindings@.len(),
        !pre.is_pressed(i, report, l),
        post.is_pressed(i, next, l),
        ps_down(next, l),
    ensures
        post.fires(i, next, l),
{
    assert(post.prev_pressed@[i] == pre.is_pressed(i, report, l));
}

proof fn no_fire_no_effect(st: ChordState, n: int, report: Seq<u8>, l: InputLayout)
    requires
        0 <= n <= st.bindings@.len(),
        st.skip_edges || !ps_down(report, l),
    ensures
        st.effect(n, report, l) == st.effect(0, report, l),
    decreases n,
{
    if n > 0 {
        no_fire_no_effect(st, n - 1, report, l);
    }
}

/// The first report after a start or a reload sets off nothing, whatever is
/// held down in it.
pub proof fn first_report_fires_nothing(st: ChordState, report: Seq<u8>, l: InputLayout, now: u64)
    requires
        st.skip_edges,
        !st.ps_held,
    ensures
        st.effect(st.bindings@.len() as int, report, l).toggle is None,
        st.runs(report, l, now).len() == 0,
{
    no_fire_no_effect(st, st.bindings@.len() as int, report, l);
}

/// Without PS no chord fires.
pub proof fn no_chord_without_ps(st: ChordState, report: Seq<u8>, l: InputLayout)
    requires
        !ps_down(report, l),
    ensures
        st.effect(st.bindings@.len() as int, report, l).toggle is None,
        st.effect(st.bindings@.len() as int, report, l).runs.len() == 0,
{
    no_fire_no_effect(st, st.bindings@.len() as int, report, l);
}

/// Whether every bit of `a` is in `b`.
pub open spec fn within(a: u8, b: u8) -> bool {
    a & b == a
}

proof fn effect_sizes(st: ChordState, n: int, report: Seq<u8>, l: InputLayout)
    requires
        st.ok(),
        0 <= n <= st.bindings@.len(),
    ensures
        st.effect(n, report, l).swallow.len() == 3,
        st.effect(n, report, l).trig.len() == 2,
    decreases n,
{
    if n > 0 {
        effect_sizes(st, n - 1, report, l);
    }
}

proof fn effect_grows(st: ChordState, m: int, n: int, report: Seq<u8>, l: InputLayout)
    requires
        st.ok(),
        0 <= m <= n <= st.bindings@.len(),
    ensures
        st.effect(n, report, l).swallow.len() == 3,
        st.effect(n, report, l).trig.len() == 2,
        forall|k: int|
            0 <= k < 3 ==> within(
                #[trigger] st.effect(m, report, l).swallow[k],
                st.effect(n, report, l).swallow[k],
            ),
        forall|k: int|
            0 <= k < 2 ==> (#[trigger] st.effect(m, report, l).trig[k] ==> st.effect(
                n,
                report,
                l,
            ).trig[k]),
        st.effect(m, report, l).hat ==> st.effect(n, report, l).hat,
    decreases n,
{
    let a = st.effect(m, report, l);
    effect_sizes(st, m, report, l);
    effect_sizes(st, n, report, l);
    if m == n {
        assert forall|k: int| 0 <= k < 3 implies within(
            #[trigger] a.swallow[k],
            a.swallow[k],
        ) by {
            let x = a.swallow[k];
            assert(x & x == x) by (bit_vector);
        }
    } else {
        effect_grows(st, m, n - 1, report, l);
        let b = st.effect(n - 1, report, l);
        let c = st.effect(n, report, l);
        assert forall|k: int| 0 <= k < 3 implies within(#[trigger] a.swallow[k], c.swallow[k]) by {
            let x = a.swallow[k];
            let y = b.swallow[k];
            let z = c.swallow[k];
            let bit = st.bindings@[n - 1].2;
            assert(x & y == x ==> x & (y | bit) == x) by (bit_vector);
            assert(x & y == x ==> x & (y | 1) == x) by (bit_vector);
            assert(x & y == x ==> x & ((y | bit) | 1) == x) by (bit_vector);
        }
    }
}

/// What a chord swallows stays swallowed while PS is held, and is all given
/// back when PS is released.
pub proof fn swallowed_until_ps_is_released(
    pre: ChordState,
    post: ChordState,
    report: Seq<u8>,
    l: InputLayout,
    now: u64,
)
    requires
        pre.ok(),
        post.fed_from(pre, report, l, now),
    ensures
        ps_down(report, l) ==> {
            &&& forall|k: int| 0 <= k < 3 ==> within(#[trigger] pre.swallow@[k], post.swallow@[k])
            &&& forall|k: int|
                0 <= k < 2 ==> (#[trigger] pre.swallow_trig@[k] ==> post.swallow_trig@[k])
            &&& pre.swallow_hat ==> post.swallow_hat
        },
        !ps_down(report, l) ==> {
            &&& post.swallow@ == seq![0u8, 0, 0]
            &&& post.swallow_trig@ == seq![false, false]
            &&& !post.swallow_hat
        },
{
    let n = pre.bindings@.len() as int;
    effect_grows(pre, 0, n, report, l);
    assert forall|k: int| 0 <= k < 3 && ps_down(report, l) implies within(
        #[trigger] pre.swallow@[k],
        post.swallow@[k],
    ) by {
        assert(pre.effect(0, report, l).swallow[k] == pre.swallow@[k]);
    }
    assert forall|k: int|
        0 <= k < 2 && ps_down(report, l) && #[trigger] pre.swallow_trig@[k] implies post.swallow_trig@[k] by {
        assert(pre.effect(0, report, l).trig[k] == pre.swallow_trig@[k]);
    }
}

/// Neither the fired button nor PS is in what is relayed of any report, from
/// the firing report on, while the engine swallows.
pub proof fn fired_button_is_not_relayed(
    pre: ChordState,
    post: ChordState,
    report: Seq<u8>,
    l: InputLayout,
    now: u64,
    i: int,
    any: Seq<u8>,
)
    requires
        l.ok(),
        pre.ok(),
        post.fed_from(pre, report, l, now),
        0 <= i < pre.bindings@.len(),
        pre.fires(i, report, l),
        has_buttons(any, l),
    ensures
        post.stripped(any, l).len() == any.len(),
        !ps_down(post.stripped(any, l), l),
        ({
            let byte = pre.bindings@[i].1;
            let bit = pre.bindings@[i].2;
            let out = post.stripped(any, l);
            &&& byte < 3 ==> out[l.btn0 + byte] & bit == 0
            &&& byte == config::TRIG_L2 && l.trig0 < any.len() ==> out[l.trig0 as int] == 0
            &&& byte == config::TRIG_R2 && l.trig0 + 1 < any.len() ==> out[l.trig0 + 1] == 0
            &&& config::HAT_UP <= byte <= config::HAT_RIGHT ==> out[l.btn0 as int] & 0x0f == 0x08
        }),
{
    let n = pre.bindings@.len() as int;
    let b = pre.bindings@[i];
    let bit = b.2;
    let here = pre.effect(i, report, l);
    let fired = pre.effect(i + 1, report, l);
    let out = post.stripped(any, l);
    effect_grows(pre, i, i, report, l);
    effect_grows(pre, i + 1, n, report, l);
    let s2 = post.swallow@[2];
    let f2 = fired.swallow[2];
    assert(within(f2, s2));
    let own2 = if b.1 == 2 {
        here.swallow[2] | bit
    } else {
        here.swallow[2]
    };
    assert(f2 == own2 | 0x01);
    assert((own2 | 0x01) & s2 == (own2 | 0x01) ==> s2 & 0x01 == 0x01) by (bit_vector);
    let r2 = any[l.btn0 + 2];
    assert(s2 & 0x01 == 0x01 ==> (r2 & !s2) & 0x01 == 0) by (bit_vector);
    assert(out[l.btn0 + 2] == r2 & !s2);
    let r0 = any[l.btn0 as int];
    let s0 = post.swallow@[0];
    let m0 = r0 & !s0;
    assert(((m0 & 0xf0) | 0x08) & 0x0f == 0x08) by (bit_vector);
    assert(fired.trig[0] ==> post.swallow_trig@[0]);
    assert(fired.trig[1] ==> post.swallow_trig@[1]);
    assert(out[l.btn0 + 1] == any[l.btn0 + 1] & !post.swallow@[1]);
    assert(out[l.btn0 as int] == (if post.swallow_hat {
        (m0 & 0xf0) | 0x08
    } else {
        m0
    }));
    if b.1 < 3 {
        let k = b.1 as int;
        let old_k = here.swallow[k];
        let f = fired.swallow[k];
        let s = post.swallow@[k];
        assert(within(f, s));
        assert(f == old_k | bit || f == (old_k | bit) | 0x01);
        assert((f == old_k | bit || f == (old_k | bit) | 0x01) && f & s == f ==> s & bit == bit)
            by (bit_vector);
        let r = any[l.btn0 + k];
        assert(s & bit == bit ==> (r & !s) & bit == 0) by (bit_vector);
        if k == 0 {
            assert(bit & 0x0f == 0);
            assert(m0 & bit == 0 && bit & 0x0f == 0 ==> ((m0 & 0xf0) | 0x08) & bit == 0)
                by (bit_vector);
        }
    }
}

/// The hold action fires once per press and excludes the tap action.
pub proof fn hold_fires_once_and_excludes_tap(
    pre: ChordState,
    post: ChordState,
    report: Seq<u8>,
    l: InputLayout,
    now: u64,
    next: Seq<u8>,
    later: u64,
)
    requires
        post.fed_from(pre, report, l, now),
        pre.hold_fires(report, l, now),
    ensures
        !post.hold_fires(next, l, later),
        !post.tap_fires(next, l),
{
}

/// Any other input during a press cancels both actions of PS alone.
pub proof fn other_input_cancels_solo_actions(
    pre: ChordState,
    post: ChordState,
    report: Seq<u8>,
    l: InputLayout,
    now: u64,
    next: Seq<u8>,
    later: u64,
)
    requires
        post.fed_from(pre, report, l, now),
        ps_down(report, l),
        paired_input(report, l),
    ensures
        !post.hold_fires(next, l, later),
        !post.tap_fires(next, l),
        post.ps_paired,
{
}

/// A d-pad chord is down on the three compass values around its direction,
/// and on no other value of the hat.
pub proof fn dpad_chords_follow_the_compass(report: Seq<u8>, l: InputLayout, bit: u8, prev: bool)
    ensures
        ({
            let h = report[l.btn0 as int] & 0x0f;
            &&& pressed(config::HAT_UP, bit, prev, report, l) <==> h == 7 || h == 0 || h == 1
            &&& pressed(config::HAT_RIGHT, bit, prev, report, l) <==> h == 1 || h == 2 || h == 3
            &&& pressed(config::HAT_DOWN, bit, prev, report, l) <==> h == 3 || h == 4 || h == 5
            &&& pressed(config::HAT_LEFT, bit, prev, report, l) <==> h == 5 || h == 6 || h == 7
        }),
{
}

/// A trigger chord goes down above 0x40 and, once down, stays so above 0x30;
/// L2 reads the first trigger byte and R2 the second.
pub proof fn trigger_chords_stay_down(report: Seq<u8>, l: InputLayout, bit: u8)
    requires
        l.trig0 + 2 <= report.len(),
    ensures
        pressed(config::TRIG_L2, bit, false, report, l) <==> report[l.trig0 as int] > 0x40,
        pressed(config::TRIG_L2, bit, true, report, l) <==> report[l.trig0 as int] > 0x30,
        pressed(config::TRIG_R2, bit, false, report, l) <==> report[l.trig0 + 1] > 0x40,
        pressed(config::TRIG_R2, bit, true, report, l) <==> report[l.trig0 + 1] > 0x30,
{
}

/// Every other chord is down exactly while its own bit is set, whatever it
/// was before.
pub proof fn button_chords_follow_their_bit(
    report: Seq<u8>,
    l: InputLayout,
    byte: usize,
    bit: u8,
    prev: bool,
)
    requires
        byte < 3,
    ensures
        pressed(byte, bit, prev, report, l) <==> report[l.btn0 + byte] & bit != 0,
{
}

/// PS is alone exactly where the hat is at rest, no other button is down and
/// neither trigger is pulled beyond 0x40.
pub proof fn ps_is_alone_at_rest(report: Seq<u8>, l: InputLayout)
    requires
        l.trig0 + 2 <= report.len(),
    ensures
        !paired_input(report, l) <==> {
            &&& report[l.btn0 as int] == 0x08
            &&& report[l.btn0 + 1] == 0
            &&& report[l.btn0 + 2] <= 1
            &&& report[l.trig0 as int] <= 0x40
            &&& report[l.trig0 + 1] <= 0x40
        },
{
    rest_bits(report[l.btn0 as int], report[l.btn0 + 2]);
}

/// A button byte at rest, bit by bit.
proof fn rest_bits(a: u8, b: u8)
    by (bit_vector)
    ensures
        (a & 0x0f == 0x08 && a & 0xf0 == 0) == (a == 0x08),
        (b & 0xfe == 0) == (b <= 1),
        (b & 0x01 != 0 && b <= 1) == (b == 1),
{
}

/// PS held alone for three seconds runs the hold command, and no sooner; let
/// go before that, it runs the tap command. `press` is the report with which
/// PS goes down, at `t`.
pub proof fn solo_press_runs_its_command(
    pre: ChordState,
    post: ChordState,
    press: Seq<u8>,
    l: InputLayout,
    t: u64,
    next: Seq<u8>,
    now: u64,
)
    requires
        !pre.ps_held,
        !pre.skip_edges,
        post.fed_from(pre, press, l, t),
        l.trig0 + 2 <= press.len(),
        l.trig0 + 2 <= next.len(),
        press[l.btn0 as int] == 0x08,
        press[l.btn0 + 1] == 0,
        press[l.btn0 + 2] == 1,
        press[l.trig0 as int] <= 0x40,
        press[l.trig0 + 1] <= 0x40,
        now >= t,
    ensures
        // still held, alone
        next[l.btn0 as int] == 0x08 && next[l.btn0 + 1] == 0 && next[l.btn0 + 2] == 1
            && next[l.trig0 as int] <= 0x40 && next[l.trig0 + 1] <= 0x40 ==> (if now - t
            >= 3_000_000_000 && pre.ps_hold is Some {
            post.runs(next, l, now) == post.effect(post.bindings@.len() as int, next, l).runs.push(
                ("ps-hold"@, (pre.ps_hold->0)@),
            )
        } else {
            post.runs(next, l, now) == post.effect(post.bindings@.len() as int, next, l).runs
        }),
        // let go
        next[l.btn0 + 2] & 0x01 == 0 ==> (match pre.ps_tap {
            Some(cmd) => post.runs(next, l, now) == seq![("ps-tap"@, cmd@)],
            None => post.runs(next, l, now).len() == 0,
        }),
{
    rest_bits(press[l.btn0 as int], press[l.btn0 + 2]);
    rest_bits(next[l.btn0 as int], next[l.btn0 + 2]);
    ps_is_alone_at_rest(press, l);
    ps_is_alone_at_rest(next, l);
    if next[l.btn0 + 2] & 0x01 == 0 {
        no_chord_without_ps(post, next, l);
        assert(post.effect(post.bindings@.len() as int, next, l).runs =~= Seq::empty());
    }
}

/// The commands and the toggle of the first `n` bindings are those of the
/// bindings that fire.
proof fn runs_come_from_fires(st: ChordState, n: int, report: Seq<u8>, l: InputLayout)
    requires
        0 <= n <= st.bindings@.len(),
    ensures
        forall|i: int|
            0 <= i < n && #[trigger] st.fires(i, report, l) && st.bindings@[i].3@
                != config::PS_TOGGLE@ ==> st.effect(n, report, l).runs.contains(
                (st.bindings@[i].0@, st.bindings@[i].3@),
            ),
        st.effect(n, report, l).runs.len() > 0 || st.effect(n, report, l).toggle is Some
            ==> exists|i: int| 0 <= i < n && #[trigger] st.fires(i, report, l),
        forall|i: int|
            0 <= i < n && #[trigger] st.fires(i, report, l) && st.bindings@[i].3@
                == config::PS_TOGGLE@ ==> st.effect(n, report, l).toggle is Some,
    decreases n,
{
    if n > 0 {
        runs_come_from_fires(st, n - 1, report, l);
        let before = st.effect(n - 1, report, l);
        let after = st.effect(n, report, l);
        let b = st.bindings@[n - 1];
        assert forall|i: int|
            0 <= i < n && #[trigger] st.fires(i, report, l) && st.bindings@[i].3@
                != config::PS_TOGGLE@ implies after.runs.contains(
            (st.bindings@[i].0@, st.bindings@[i].3@),
        ) by {
            let e = (st.bindings@[i].0@, st.bindings@[i].3@);
            if i == n - 1 {
                assert(after.runs[after.runs.len() - 1] == e);
            } else {
                let k = choose|k: int| 0 <= k < before.runs.len() && before.runs[k] == e;
                assert(after.runs[k] == e);
            }
        }
        if st.fires(n - 1, report, l) {
        } else {
            assert(after == before);
        }
    }
}

/// Each chord that goes down under PS runs its own command under its own name,
/// or toggles the PS mode where that is its action; where none goes down,
/// nothing runs and nothing is toggled.
pub proof fn fired_chords_run_their_command(st: ChordState, report: Seq<u8>, l: InputLayout, i: int)
    requires
        st.ok(),
        0 <= i < st.bindings@.len(),
    ensures
        ({
            let e = st.effect(st.bindings@.len() as int, report, l);
            let b = st.bindings@[i];
            let down = report[l.btn0 + 2] & 0x01 != 0 && !st.skip_edges && !st.prev_pressed@[i]
                && st.is_pressed(i, report, l);
            &&& down && b.3@ != config::PS_TOGGLE@ ==> e.runs.contains((b.0@, b.3@))
            &&& down && b.3@ == config::PS_TOGGLE@ ==> e.toggle is Some
            &&& (forall|j: int|
                0 <= j < st.bindings@.len() ==> !#[trigger] st.is_pressed(j, report, l)
                    || st.prev_pressed@[j]) ==> e.runs.len() == 0 && e.toggle is None
        }),
{
    let n = st.bindings@.len() as int;
    let e = st.effect(n, report, l);
    runs_come_from_fires(st, n, report, l);
    assert(st.fires(i, report, l) == (ps_down(report, l) && st.is_pressed(i, report, l)
        && !st.prev_pressed@[i] && !st.skip_edges));
    if forall|j: int|
        0 <= j < n ==> !#[trigger] st.is_pressed(j, report, l) || st.prev_pressed@[j] {
        assert forall|j: int| 0 <= j < n implies !#[trigger] st.fires(j, report, l) by {
            assert(!st.is_pressed(j, report, l) || st.prev_pressed@[j]);
        }
    }
}

/// Stripping touches the three button bytes and the two triggers only, never
/// presses a button, and leaves a report alone while nothing is swallowed.
pub proof fn stripping_leaves_the_rest(st: ChordState, report: Seq<u8>, l: InputLayout)
    requires
        l.ok(),
    ensures
        ({
            let out = st.stripped(report, l);
            &&& out.len() == report.len()
            &&& forall|i: int|
                0 <= i < report.len() && !(l.btn0 <= i < l.btn0 + 3)
                    && !(l.trig0 <= i < l.trig0 + 2)
                    ==> out[i] == report[i]
            &&& report.len() >= l.btn0 + 3 ==> {
                &&& out[l.btn0 + 1] & !report[l.btn0 + 1] == 0
                &&& out[l.btn0 + 2] & !report[l.btn0 + 2] == 0
                &&& out[l.btn0 as int] & 0xf0 & !report[l.btn0 as int] == 0
                &&& out[l.btn0 + 1] == report[l.btn0 + 1] & !st.swallow@[1]
                &&& out[l.btn0 + 2] == report[l.btn0 + 2] & !st.swallow@[2]
                &&& st.swallow_hat ==> out[l.btn0 as int] & 0x0f == 0x08
                &&& !st.swallow_hat ==> out[l.btn0 as int] == report[l.btn0 as int]
                    & !st.swallow@[0]
            }
            &&& !st.swallow_trig@[0] && l.trig0 < report.len() ==> out[l.trig0 as int]
                == report[l.trig0 as int]
            &&& !st.swallow_trig@[1] && l.trig0 + 1 < report.len() ==> out[l.trig0 + 1]
                == report[l.trig0 + 1]
            &&& st.swallow_trig@[0] && report.len() >= l.btn0 + 3 && l.trig0 < report.len()
                ==> out[l.trig0 as int] == 0
            &&& st.swallow_trig@[1] && report.len() >= l.btn0 + 3 && l.trig0 + 1 < report.len()
                ==> out[l.trig0 + 1] == 0
            &&& st.swallow@ == seq![0u8, 0, 0] && !st.swallow_trig@[0] && !st.swallow_trig@[1]
                && !st.swallow_hat ==> out == report
        }),
{
    if has_buttons(report, l) {
        strip_bits(report[l.btn0 as int], st.swallow@[0]);
        strip_bits(report[l.btn0 + 1], st.swallow@[1]);
        strip_bits(report[l.btn0 + 2], st.swallow@[2]);
    }
}

/// What stripping does to the bits of a byte.
proof fn strip_bits(a: u8, m: u8)
    by (bit_vector)
    ensures
        (a & !m) & !a == 0,
        (a & !m) & 0xf0 & !a == 0,
        (((a & !m) & 0xf0) | 0x08) & 0xf0 & !a == 0,
        (((a & !m) & 0xf0) | 0x08) & 0x0f == 0x08,
        m == 0 ==> a & !m == a,
{
}

/// One step of swallowing keeps the bits that are not asked for.
proof fn other_bits_stay(y: u8, bit: u8, m: u8)
    by (bit_vector)
    ensures
        bit & m == 0 ==> (y | bit) & m == y & m,
        m & 0x01 == 0 ==> (y | 0x01) & m == y & m,
        bit & m == 0 && m & 0x01 == 0 ==> ((y | bit) | 0x01) & m == y & m,
{
}

/// Nothing is swallowed but PS and the buttons of the chords that fired: the
/// bits `m` of the button byte `k` stay as they were unless a chord on one of
/// them fires, and a trigger or the hat unless a chord on it does.
pub proof fn only_fired_buttons_are_swallowed(
    st: ChordState,
    n: int,
    report: Seq<u8>,
    l: InputLayout,
    k: int,
    m: u8,
)
    requires
        st.ok(),
        0 <= n <= st.bindings@.len(),
        0 <= k < 3,
        k == 2 ==> m & 0x01 == 0,
    ensures
        (forall|i: int|
            0 <= i < n && #[trigger] st.fires(i, report, l) && st.bindings@[i].1 == k
                ==> st.bindings@[i].2 & m == 0) ==> st.effect(n, report, l).swallow[k] & m
            == st.swallow@[k] & m,
        (forall|i: int|
            0 <= i < n && #[trigger] st.fires(i, report, l) ==> st.bindings@[i].1
                != config::TRIG_L2) ==> st.effect(n, report, l).trig[0] == st.swallow_trig@[0],
        (forall|i: int|
            0 <= i < n && #[trigger] st.fires(i, report, l) ==> st.bindings@[i].1
                != config::TRIG_R2) ==> st.effect(n, report, l).trig[1] == st.swallow_trig@[1],
        (forall|i: int|
            0 <= i < n && #[trigger] st.fires(i, report, l) ==> !(config::HAT_UP
                <= st.bindings@[i].1 <= config::HAT_RIGHT)) ==> st.effect(n, report, l).hat
            == st.swallow_hat,
    decreases n,
{
    if n > 0 {
        only_fired_buttons_are_swallowed(st, n - 1, report, l, k, m);
        effect_sizes(st, n - 1, report, l);
        other_bits_stay(st.effect(n - 1, report, l).swallow[k], st.bindings@[n - 1].2, m);
    }
}

/// Each button name of the chord table means the pad's own button, under both
/// of its names where it has two: `cross` and `south` are one, and so on.
pub proof fn chord_names_mean_their_buttons(name: Seq<char>, report: Seq<u8>, l: InputLayout)
    requires
        l.trig0 + 2 <= report.len(),
        l.btn0 + 3 <= report.len(),
    ensures
        ({
            let b = config::button_of(name);
            let down = pressed((b->0).0, (b->0).1, false, report, l);
            let h = report[l.btn0 as int] & 0x0f;
            &&& name == "west"@ || name == "square"@ ==> b is Some && (down
                <==> report[l.btn0 as int] & 0x10 != 0)
            &&& name == "south"@ || name == "cross"@ ==> b is Some && (down
                <==> report[l.btn0 as int] & 0x20 != 0)
            &&& name == "east"@ || name == "circle"@ ==> b is Some && (down
                <==> report[l.btn0 as int] & 0x40 != 0)
            &&& name == "north"@ || name == "triangle"@ ==> b is Some && (down
                <==> report[l.btn0 as int] & 0x80 != 0)
            &&& name == "l1"@ ==> b is Some && (down <==> report[l.btn0 + 1] & 0x01 != 0)
            &&& name == "r1"@ ==> b is Some && (down <==> report[l.btn0 + 1] & 0x02 != 0)
            &&& name == "share"@ || name == "create"@ ==> b is Some && (down
                <==> report[l.btn0 + 1] & 0x10 != 0)
            &&& name == "options"@ || name == "start"@ ==> b is Some && (down
                <==> report[l.btn0 + 1] & 0x20 != 0)
            &&& name == "l3"@ ==> b is Some && (down <==> report[l.btn0 + 1] & 0x40 != 0)
            &&& name == "r3"@ ==> b is Some && (down <==> report[l.btn0 + 1] & 0x80 != 0)
            &&& name == "touchpad"@ ==> b is Some && (down <==> report[l.btn0 + 2] & 0x02 != 0)
            &&& name == "l2"@ ==> b is Some && (down <==> report[l.trig0 as int] > 0x40)
            &&& name == "r2"@ ==> b is Some && (down <==> report[l.trig0 + 1] > 0x40)
            &&& name == "up"@ || name == "dpad_up"@ ==> b is Some && (down <==> h == 7 || h == 0
                || h == 1)
            &&& name == "down"@ || name == "dpad_down"@ ==> b is Some && (down <==> h == 3
                || h == 4 || h == 5)
            &&& name == "left"@ || name == "dpad_left"@ ==> b is Some && (down <==> h == 5
                || h == 6 || h == 7)
            &&& name == "right"@ || name == "dpad_right"@ ==> b is Some && (down <==> h == 1
                || h == 2 || h == 3)
        }),
{
    reveal_strlit("west");
    reveal_strlit("square");
    reveal_strlit("south");
    reveal_strlit("cross");
    reveal_strlit("east");
    reveal_strlit("circle");
    reveal_strlit("north");
    reveal_strlit("triangle");
    reveal_strlit("l1");
    reveal_strlit("r1");
    reveal_strlit("share");
    reveal_strlit("create");
    reveal_strlit("options");
    reveal_strlit("start");
    reveal_strlit("l3");
    reveal_strlit("r3");
    reveal_strlit("touchpad");
    reveal_strlit("l2");
    reveal_strlit("r2");
    reveal_strlit("up");
    reveal_strlit("dpad_up");
    reveal_strlit("down");
    reveal_strlit("dpad_down");
    reveal_strlit("left");
    reveal_strlit("dpad_left");
    reveal_strlit("right");
    reveal_strlit("dpad_right");
    assert("west"@.len() == 4 && "west"@[0] == 'w' && "west"@[1] == 'e');
    assert("square"@.len() == 6 && "square"@[0] == 's' && "square"@[1] == 'q'
        && "square"@[5] == 'e');
    assert("south"@.len() == 5 && "south"@[0] == 's' && "south"@[1] == 'o');
    assert("cross"@.len() == 5 && "cross"@[0] == 'c' && "cross"@[1] == 'r');
    assert("east"@.len() == 4 && "east"@[0] == 'e' && "east"@[1] == 'a');
    assert("circle"@.len() == 6 && "circle"@[0] == 'c' && "circle"@[1] == 'i'
        && "circle"@[5] == 'e');
    assert("north"@.len() == 5 && "north"@[0] == 'n' && "north"@[1] == 'o');
    assert("triangle"@.len() == 8 && "triangle"@[0] == 't' && "triangle"@[1] == 'r'
        && "triangle"@[5] == 'g');
    assert("l1"@.len() == 2 && "l1"@[0] == 'l' && "l1"@[1] == '1');
    assert("r1"@.len() == 2 && "r1"@[0] == 'r' && "r1"@[1] == '1');
    assert("share"@.len() == 5 && "share"@[0] == 's' && "share"@[1] == 'h');
    assert("create"@.len() == 6 && "create"@[0] == 'c' && "create"@[1] == 'r'
        && "create"@[5] == 'e');
    assert("options"@.len() == 7 && "options"@[0] == 'o' && "options"@[1] == 'p'
        && "options"@[5] == 'n');
    assert("start"@.len() == 5 && "start"@[0] == 's' && "start"@[1] == 't');
    assert("l3"@.len() == 2 && "l3"@[0] == 'l' && "l3"@[1] == '3');
    assert("r3"@.len() == 2 && "r3"@[0] == 'r' && "r3"@[1] == '3');
    assert("touchpad"@.len() == 8 && "touchpad"@[0] == 't' && "touchpad"@[1] == 'o'
        && "touchpad"@[5] == 'p');
    assert("l2"@.len() == 2 && "l2"@[0] == 'l' && "l2"@[1] == '2');
    assert("r2"@.len() == 2 && "r2"@[0] == 'r' && "r2"@[1] == '2');
    assert("up"@.len() == 2 && "up"@[0] == 'u' && "up"@[1] == 'p');
    assert("dpad_up"@.len() == 7 && "dpad_up"@[0] == 'd' && "dpad_up"@[1] == 'p'
        && "dpad_up"@[5] == 'u');
    assert("down"@.len() == 4 && "down"@[0] == 'd' && "down"@[1] == 'o');
    assert("dpad_down"@.len() == 9 && "dpad_down"@[0] == 'd' && "dpad_down"@[1] == 'p'
        && "dpad_down"@[5] == 'd');
    assert("left"@.len() == 4 && "left"@[0] == 'l' && "left"@[1] == 'e');
    assert("dpad_left"@.len() == 9 && "dpad_left"@[0] == 'd' && "dpad_left"@[1] == 'p'
        && "dpad_left"@[5] == 'l');
    assert("right"@.len() == 5 && "right"@[0] == 'r' && "right"@[1] == 'i');
    assert("dpad_right"@.len() == 10 && "dpad_right"@[0] == 'd' && "dpad_right"@[1] == 'p'
        && "dpad_right"@[5] == 'r');
}

/// Events are reported where the table is on: all of them, or only failures
/// where it says so; what is reported is what happened.
pub proof fn wanted_events_are_reported(
    cfg: NotifyConfig,
    chord: Seq<char>,
    command: Seq<char>,
    success: bool,
    code: i32,
    output: Seq<char>,
)
    ensures
        ({
            let e = event_for(cfg, chord, command, success, code, output);
            &&& !cfg.enabled ==> e is None
            &&& cfg.enabled && !success ==> e is Some
            &&& cfg.enabled && success ==> (e is Some <==> cfg.when@ != "on-failure"@)
            &&& e is Some ==> {
                &&& (e->0).line == cfg.command@
                &&& (e->0).chord == chord
                &&& (e->0).command == command
                &&& (e->0).success == success
                &&& (e->0).code == code
                &&& (e->0).output == output
            }
        }),
{
}

/// What a command printed is told trimmed, its output in front of its errors
/// with a line between them, and neither where it is empty.
pub proof fn output_comes_before_errors(out: Seq<char>, err: Seq<char>)
    ensures
        ({
            let a = text::trimmed(out);
            let b = text::trimmed(err);
            &&& b.len() == 0 ==> merged(out, err) == a
            &&& a.len() == 0 ==> merged(out, err) == b
            &&& a.len() > 0 && b.len() > 0 ==> merged(out, err) == a + seq!['\n'] + b
        }),
{
    let a = text::trimmed(out);
    let b = text::trimmed(err);
    assert(a.push('\n') + b =~= a + seq!['\n'] + b);
    if a.len() == 0 && b.len() == 0 {
        assert(a =~= b);
    }
}

/// Time does not run backwards: what lies ahead of the clock has taken no time.
pub proof fn time_passes_forwards(now: u64, since: u64)
    ensures
        now >= since ==> elapsed(now, since) == now - since,
        now < since ==> elapsed(now, since) == 0,
{
}

/// Commands keep their order, their name and their text.
pub proof fn runs_are_what_they_hold(l: Seq<(String, String)>, i: int)
    requires
        0 <= i < l.len(),
    ensures
        runs_view(l).len() == l.len(),
        runs_view(l)[i] == (l[i].0@, l[i].1@),
{
}

} // verus!
