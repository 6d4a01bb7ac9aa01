//! The configuration: transport choice, PS-button chords, notifications and
//! the audio table.

use vstd::prelude::*;

use crate::text;

verus! {

/// The configuration file, as read. Chords keep the order in which the file's
/// table was walked. The analog-stick shaping and the haptic gain are numbers
/// with a fraction; they reach the library as a table of 256 entries and as
/// raw bits.
pub struct Config {
    /// "hidraw" (default) or "l2cap" (self-owned HID session).
    pub transport: Option<String>,
    /// "usb" presents a Bluetooth DualSense as a cabled one.
    pub force_bus: Option<String>,
    /// Swap the cross and circle buttons on the virtual pad.
    pub swap_cross_circle: Option<bool>,
    /// Button name and action of each chord.
    pub chords: Vec<(String, String)>,
    pub ps: PsConfig,
    pub notify: NotifyConfig,
    pub audio: AudioConfig,
    /// Expose a second, Xbox 360 shaped pad.
    pub xinput: Option<bool>,
}

/// `[audio]` table: Bluetooth audio.
pub struct AudioConfig {
    /// Physical speaker and jack output.
    pub output: bool,
    /// Play a continuous test tone.
    pub test_tone: bool,
    /// Force the internal speaker even with a headset plugged.
    pub speaker: Option<bool>,
    /// Headphone volume.
    pub volume: Option<u8>,
    /// Opus bit rate.
    pub bitrate: Option<i32>,
    /// Audio report style, "0x35" or "0x36".
    pub report: Option<String>,
    /// Label of the sink.
    pub node_description: Option<String>,
    /// Writer pacing interval in microseconds.
    pub interval_us: Option<u64>,
    /// `false`: no audio sink at all.
    pub sink: Option<bool>,
    /// Where the music channels go: "pad", "forward" or "mute".
    pub speaker_output: Option<String>,
    /// Node to play on when forwarding.
    pub speaker_target: Option<String>,
}

/// `[notify]` table: event callback for chord fires.
pub struct NotifyConfig {
    pub enabled: bool,
    /// "always" (default) or "on-failure".
    pub when: String,
    pub command: String,
}

/// `[ps]` table: who gets to see the PS button.
pub struct PsConfig {
    /// "pass" (default) or "swallow".
    pub mode: Option<String>,
    /// Command of a solo PS tap.
    pub tap: Option<String>,
    /// Command of a solo PS hold.
    pub hold: Option<String>,
}

/// Parsed chord bindings: name, byte offset, bit, shell command.
pub struct Chords {
    pub list: Vec<(String, usize, u8, String)>,
}

/// Byte offsets that mark analog-trigger chords.
pub const TRIG_L2: usize = 0xF0;

pub const TRIG_R2: usize = 0xF1;

/// Byte offsets that mark d-pad chords.
pub const HAT_UP: usize = 0xF2;

pub const HAT_DOWN: usize = 0xF3;

pub const HAT_LEFT: usize = 0xF4;

pub const HAT_RIGHT: usize = 0xF5;

/// The command that stands for "toggle the PS mode".
pub const PS_TOGGLE: &'static str = "\0ps:toggle";

/// The default `[notify]` command.
pub const NOTIFY_COMMAND: &'static str =
    "notify-send -a mdrv-ds -u low \"mdrv-ds\" \"$MDRV_CHORD: $MDRV_STATUS${MDRV_OUTPUT:+ \u{2014} $MDRV_OUTPUT}\"";

/// Whether an optional text is there and reads `s`.
pub open spec fn reads(o: Option<String>, s: Seq<char>) -> bool {
    o is Some && o->0@ == s
}

/// Whether an optional text is there and reads `s`.
pub fn is_text(o: &Option<String>, s: &str) -> (r: bool)
    ensures
        r == reads(*o, s@),
{
    match o {
        Some(t) => text::same(t.as_str(), s),
        None => false,
    }
}

impl Config {
    pub fn l2cap(&self) -> (r: bool)
        ensures
            r == reads(self.transport, "l2cap"@),
    {
        is_text(&self.transport, "l2cap")
    }

    /// Whether the second pad is enabled by the file.
    pub fn xinput(&self) -> (r: bool)
        ensures
            r == (self.xinput == Some(true)),
    {
        match self.xinput {
            Some(v) => v,
            None => false,
        }
    }

    /// Whether `force_bus` asks for a USB-presented virtual pad; any other
    /// value means native presentation.
    pub fn force_usb(&self) -> (r: bool)
        ensures
            r == reads(self.force_bus, "usb"@),
    {
        is_text(&self.force_bus, "usb")
    }
}

impl Default for NotifyConfig {
    fn default() -> (r: Self)
        ensures
            !r.enabled,
            r.when@ == "always"@,
            r.command@ == NOTIFY_COMMAND@,
    {
        NotifyConfig {
            enabled: false,
            when: "always".to_owned(),
            command: NOTIFY_COMMAND.to_owned(),
        }
    }
}

impl NotifyConfig {
    /// A copy of the table.
    pub fn copied(&self) -> (r: NotifyConfig)
        ensures
            r.enabled == self.enabled,
            r.when@ == self.when@,
            r.command@ == self.command@,
    {
        NotifyConfig {
            enabled: self.enabled,
            when: self.when.clone(),
            command: self.command.clone(),
        }
    }

    /// Whether an event with this outcome is reported.
    pub fn wants(&self, success: bool) -> (r: bool)
        ensures
            r == (self.enabled && (self.when@ == "on-failure"@ ==> !success)),
    {
        self.enabled && (!text::same(self.when.as_str(), "on-failure") || !success)
    }
}

/// The shell command of a solo-PS action: without the `shell:` prefix, and
/// only where something but white space is left.
pub open spec fn solo_command(action: Option<Seq<char>>) -> Option<Seq<char>> {
    match action {
        None => None,
        Some(a) => {
            let cmd = match text::without_prefix(a, "shell:"@) {
                Some(c) => c,
                None => a,
            };
            if text::trimmed(cmd).len() == 0 {
                None
            } else {
                Some(cmd)
            }
        },
    }
}

/// An optional text by its characters.
pub open spec fn opt_view(o: Option<String>) -> Option<Seq<char>> {
    match o {
        Some(s) => Some(s@),
        None => None,
    }
}

impl PsConfig {
    pub fn swallow(&self) -> (r: bool)
        ensures
            r == reads(self.mode, "swallow"@),
    {
        is_text(&self.mode, "swallow")
    }

    /// Command of a solo tap, if configured.
    pub fn tap_cmd(&self) -> (r: Option<String>)
        ensures
            opt_view(r) == solo_command(opt_view(self.tap)),
    {
        ps_solo_cmd(&self.tap)
    }

    /// Command of a solo hold, if configured.
    pub fn hold_cmd(&self) -> (r: Option<String>)
        ensures
            opt_view(r) == solo_command(opt_view(self.hold)),
    {
        ps_solo_cmd(&self.hold)
    }
}

fn ps_solo_cmd(action: &Option<String>) -> (r: Option<String>)
    ensures
        opt_view(r) == solo_command(opt_view(*action)),
{
    match action {
        None => None,
        Some(a) => {
            let all: Vec<char> = text::chars_of(a.as_str());
            let cmd: Vec<char> = match text::strip_prefix(all.as_slice(), "shell:") {
                Some(c) => c,
                None => all,
            };
            if text::trim(cmd.as_slice()).len() == 0 {
                None
            } else {
                Some(text::string_of(cmd.as_slice()))
            }
        },
    }
}

/// The button that a lower-case name stands for: byte offset and bit.
pub open spec fn button_of(name: Seq<char>) -> Option<(usize, u8)> {
    if name == "west"@ || name == "square"@ {
        Some((0, 0x10))
    } else if name == "south"@ || name == "cross"@ {
        Some((0, 0x20))
    } else if name == "east"@ || name == "circle"@ {
        Some((0, 0x40))
    } else if name == "north"@ || name == "triangle"@ {
        Some((0, 0x80))
    } else if name == "l1"@ {
        Some((1, 0x01))
    } else if name == "r1"@ {
        Some((1, 0x02))
    } else if name == "share"@ || name == "create"@ {
        Some((1, 0x10))
    } else if name == "options"@ || name == "start"@ {
        Some((1, 0x20))
    } else if name == "l3"@ {
        Some((1, 0x40))
    } else if name == "r3"@ {
        Some((1, 0x80))
    } else if name == "touchpad"@ {
        Some((2, 0x02))
    } else if name == "l2"@ {
        Some((TRIG_L2, 0))
    } else if name == "r2"@ {
        Some((TRIG_R2, 0))
    } else if name == "up"@ || name == "dpad_up"@ {
        Some((HAT_UP, 0))
    } else if name == "down"@ || name == "dpad_down"@ {
        Some((HAT_DOWN, 0))
    } else if name == "left"@ || name == "dpad_left"@ {
        Some((HAT_LEFT, 0))
    } else if name == "right"@ || name == "dpad_right"@ {
        Some((HAT_RIGHT, 0))
    } else {
        None
    }
}

/// Whether a button is one of the three button bytes' bits (the low half of
/// the first byte is the hat), or one of the marks for triggers and d-pad
/// directions.
pub open spec fn known_button(byte: usize, bit: u8) -> bool {
    (byte < 3 || TRIG_L2 <= byte <= HAT_RIGHT) && (byte == 0 ==> bit & 0x0f == 0)
}

/// A chord button: byte offset from the first button byte, and bit mask.
/// Capital letters in the name count as small ones. (All button names are
/// ASCII, and none holds a `k`, the one letter that a capital outside ASCII
/// folds to.)
pub fn chord_button(name: &str) -> (r: Option<(usize, u8)>)
    ensures
        r == button_of(text::lower(name@)),
        r is Some ==> known_button((r->0).0, (r->0).1),
{
    assert(0x10u8 & 0x0f == 0 && 0x20u8 & 0x0f == 0 && 0x40u8 & 0x0f == 0 && 0x80u8 & 0x0f == 0)
        by (bit_vector);
    let folded: Vec<char> = text::to_lower(text::chars_of(name).as_slice());
    let n: &[char] = folded.as_slice();
    if text::spells(n, "west") || text::spells(n, "square") {
        Some((0, 0x10))
    } else if text::spells(n, "south") || text::spells(n, "cross") {
        Some((0, 0x20))
    } else if text::spells(n, "east") || text::spells(n, "circle") {
        Some((0, 0x40))
    } else if text::spells(n, "north") || text::spells(n, "triangle") {
        Some((0, 0x80))
    } else if text::spells(n, "l1") {
        Some((1, 0x01))
    } else if text::spells(n, "r1") {
        Some((1, 0x02))
    } else if text::spells(n, "share") || text::spells(n, "create") {
        Some((1, 0x10))
    } else if text::spells(n, "options") || text::spells(n, "start") {
        Some((1, 0x20))
    } else if text::spells(n, "l3") {
        Some((1, 0x40))
    } else if text::spells(n, "r3") {
        Some((1, 0x80))
    } else if text::spells(n, "touchpad") {
        Some((2, 0x02))
    } else if text::spells(n, "l2") {
        Some((TRIG_L2, 0))
    } else if text::spells(n, "r2") {
        Some((TRIG_R2, 0))
    } else if text::spells(n, "up") || text::spells(n, "dpad_up") {
        Some((HAT_UP, 0))
    } else if text::spells(n, "down") || text::spells(n, "dpad_down") {
        Some((HAT_DOWN, 0))
    } else if text::spells(n, "left") || text::spells(n, "dpad_left") {
        Some((HAT_LEFT, 0))
    } else if text::spells(n, "right") || text::spells(n, "dpad_right") {
        Some((HAT_RIGHT, 0))
    } else {
        None
    }
}

/// A binding with its texts by their characters.
pub open spec fn binding_view(b: (String, usize, u8, String)) -> (
    Seq<char>,
    usize,
    u8,
    Seq<char>,
) {
    (b.0@, b.1, b.2, b.3@)
}

/// Bindings with their texts by their characters.
pub open spec fn bindings_view(l: Seq<(String, usize, u8, String)>) -> Seq<
    (Seq<char>, usize, u8, Seq<char>),
> {
    l.map_values(|b: (String, usize, u8, String)| binding_view(b))
}

/// The command that a chord's action stands for: what follows `shell:`, where
/// that is more than white space, or the mark for `ps:toggle`.
pub open spec fn chord_command(action: Seq<char>) -> Option<Seq<char>> {
    match text::without_prefix(action, "shell:"@) {
        Some(cmd) => if text::trimmed(cmd).len() == 0 {
            None
        } else {
            Some(cmd)
        },
        None => if action == "ps:toggle"@ {
            Some(PS_TOGGLE@)
        } else {
            None
        },
    }
}

/// The binding of one entry of the chord table; none where the button is
/// unknown or the action is not one that can be run.
pub open spec fn chord_entry(name: Seq<char>, action: Seq<char>) -> Option<
    (Seq<char>, usize, u8, Seq<char>),
> {
    match (button_of(text::lower(name)), chord_command(action)) {
        (Some(b), Some(cmd)) => Some((name, b.0, b.1, cmd)),
        _ => None,
    }
}

/// The bindings of the chord table, in the table's order.
pub open spec fn chord_list(table: Seq<(String, String)>) -> Seq<
    (Seq<char>, usize, u8, Seq<char>),
>
    decreases table.len(),
{
    if table.len() == 0 {
        Seq::empty()
    } else {
        let before = chord_list(table.drop_last());
        match chord_entry(table.last().0@, table.last().1@) {
            Some(b) => before.push(b),
            None => before,
        }
    }
}

/// Whether every binding names a button that the chord engine knows.
pub open spec fn bindings_ok(l: Seq<(String, usize, u8, String)>) -> bool {
    forall|i: int| 0 <= i < l.len() ==> known_button((#[trigger] l[i]).1, l[i].2)
}

fn command_of(action: &str) -> (r: Option<String>)
    ensures
        opt_view(r) == chord_command(action@),
{
    let all: Vec<char> = text::chars_of(action);
    match text::strip_prefix(all.as_slice(), "shell:") {
        Some(cmd) => {
            if text::trim(cmd.as_slice()).len() == 0 {
                None
            } else {
                Some(text::string_of(cmd.as_slice()))
            }
        },
        None => {
            if text::same(action, "ps:toggle") {
                Some(PS_TOGGLE.to_owned())
            } else {
                None
            }
        },
    }
}

/// The bindings of the configuration's chord table.
pub fn parse_chords(cfg: &Config) -> (r: Chords)
    ensures
        bindings_view(r.list@) == chord_list(cfg.chords@),
        bindings_ok(r.list@),
{
    let mut list: Vec<(String, usize, u8, String)> = Vec::new();
    let mut i: usize = 0;
    assert(bindings_view(list@) =~= chord_list(cfg.chords@.subrange(0, 0)));
    while i < cfg.chords.len()
        invariant
            i <= cfg.chords@.len(),
            bindings_view(list@) == chord_list(cfg.chords@.subrange(0, i as int)),
            bindings_ok(list@),
        decreases cfg.chords@.len() - i,
    {
        let ghost next = cfg.chords@.subrange(0, i + 1);
        assert(next.drop_last() =~= cfg.chords@.subrange(0, i as int));
        let ghost before = bindings_view(list@);
        let entry: &(String, String) = &cfg.chords[i];
        let button: Option<(usize, u8)> = chord_button(entry.0.as_str());
        let command: Option<String> = command_of(entry.1.as_str());
        match (button, command) {
            (Some(b), Some(cmd)) => {
                let ghost shown = (entry.0@, b.0, b.1, cmd@);
                list.push((entry.0.clone(), b.0, b.1, cmd));
                assert(bindings_view(list@) =~= before.push(shown));
            },
            _ => {},
        }
        i = i + 1;
    }
    assert(cfg.chords@.subrange(0, cfg.chords@.len() as int) =~= cfg.chords@);
    Chords { list }
}

/// What came of reading the configuration file.
pub enum FileRead<T> {
    /// It could not be read.
    Absent,
    /// It does not parse.
    Broken,
    Read(T),
}

/// The configuration in effect after the file was read: one that does not
/// parse keeps the previous configuration.
pub fn settle<T>(read: FileRead<T>, previous: Option<T>, default: T) -> (r: T)
    ensures
        r == (match read {
            FileRead::Read(c) => c,
            FileRead::Absent => default,
            FileRead::Broken => match previous {
                Some(p) => p,
                None => default,
            },
        }),
{
    match read {
        FileRead::Read(c) => c,
        FileRead::Absent => default,
        FileRead::Broken => match previous {
            Some(p) => p,
            None => default,
        },
    }
}

/// The path of the configuration file.
pub fn path(config_home: &Option<String>, home: &Option<String>) -> (r: String)
    ensures
        r@ == text::joined(
            text::joined(text::base_dir(*config_home, *home, ".config"@), "mdrv-ds"@),
            "config.toml"@,
        ),
{
    let dir: String = text::join(text::base(config_home, home, ".config").as_str(), "mdrv-ds");
    text::join(dir.as_str(), "config.toml")
}

/// The command of a solo action is what it says, without `shell:` in front;
/// an action that says nothing but white space runs nothing.
pub proof fn solo_actions_run_what_they_say(cmd: Seq<char>)
    ensures
        solo_command(None) is None,
        text::trimmed(cmd).len() == 0 ==> solo_command(Some("shell:"@ + cmd)) is None,
        text::trimmed(cmd).len() > 0 ==> solo_command(Some("shell:"@ + cmd)) == Some(cmd),
        !text::has_prefix(cmd, "shell:"@) && text::trimmed(cmd).len() > 0 ==> solo_command(
            Some(cmd),
        ) == Some(cmd),
        !text::has_prefix(cmd, "shell:"@) && text::trimmed(cmd).len() == 0 ==> solo_command(
            Some(cmd),
        ) is None,
{
    let p = "shell:"@;
    assert((p + cmd).subrange(0, p.len() as int) =~= p);
    assert((p + cmd).subrange(p.len() as int, (p + cmd).len() as int) =~= cmd);
}

/// A chord's action is a shell command behind `shell:`, or the toggle of the PS
/// mode; anything else is no action.
pub proof fn chord_actions_are_marked(cmd: Seq<char>)
    ensures
        text::trimmed(cmd).len() > 0 ==> chord_command("shell:"@ + cmd) == Some(cmd),
        text::trimmed(cmd).len() == 0 ==> chord_command("shell:"@ + cmd) is None,
        chord_command("ps:toggle"@) == Some(PS_TOGGLE@),
        !text::has_prefix(cmd, "shell:"@) && cmd != "ps:toggle"@ ==> chord_command(cmd) is None,
{
    let p = "shell:"@;
    assert((p + cmd).subrange(0, p.len() as int) =~= p);
    assert((p + cmd).subrange(p.len() as int, (p + cmd).len() as int) =~= cmd);
    reveal_strlit("shell:");
    reveal_strlit("ps:toggle");
    assert("ps:toggle"@.subrange(0, 6)[0] == 'p');
}

/// The chord table is bound in its own order: an entry whose button and action
/// are known adds its binding behind those before it, under the name as it is
/// written; any other entry adds none.
pub proof fn entries_bind_in_order(table: Seq<(String, String)>, e: (String, String))
    ensures
        chord_list(Seq::empty()).len() == 0,
        ({
            let b = button_of(text::lower(e.0@));
            let c = chord_command(e.1@);
            let before = chord_list(table);
            let after = chord_list(table.push(e));
            &&& b is Some && c is Some ==> after == before.push(
                (e.0@, (b->0).0, (b->0).1, c->0),
            )
            &&& b is None || c is None ==> after == before
        }),
{
    assert(table.push(e).drop_last() =~= table);
}

/// A configured text is there and is the one that is asked for, to the letter.
pub proof fn texts_are_read_to_the_letter(o: Option<String>, s: Seq<char>)
    ensures
        reads(o, s) <==> o is Some && (o->0)@ == s,
        o is None ==> opt_view(o) is None,
        o is Some ==> opt_view(o) == Some((o->0)@),
{
}

/// Bindings keep their order and what they hold.
pub proof fn bindings_are_what_they_hold(l: Seq<(String, usize, u8, String)>, i: int)
    requires
        0 <= i < l.len(),
    ensures
        bindings_view(l).len() == l.len(),
        bindings_view(l)[i] == (l[i].0@, l[i].1, l[i].2, l[i].3@),
{
}

} // verus!
