//! The command line: commands, their arguments, and what they ask for.

use vstd::prelude::*;
use vstd::string::*;

use crate::config;
use crate::config::Chords;
use crate::hid;
use crate::session::ProxyOpts;
use crate::sink;
use crate::text;

verus! {

// ---------------------------------------------------------------- commands

/// A command.
#[derive(Clone, Copy, PartialEq, Eq, Debug, Structural)]
pub enum Command {
    Status,
    Feature,
    Mouse,
    Holder,
    Keymap,
    Speaker,
    Gain,
    Xinput,
    Proxy,
    Help,
    Unknown,
}

/// The command that a word names; help where there is none.
pub open spec fn command_of(word: Option<Seq<char>>) -> Command {
    match word {
        None => Command::Help,
        Some(w) => if w == "status"@ {
            Command::Status
        } else if w == "feature"@ {
            Command::Feature
        } else if w == "mouse"@ {
            Command::Mouse
        } else if w == "holder"@ {
            Command::Holder
        } else if w == "keymap"@ {
            Command::Keymap
        } else if w == "speaker"@ {
            Command::Speaker
        } else if w == "gain"@ {
            Command::Gain
        } else if w == "xinput"@ {
            Command::Xinput
        } else if w == "proxy"@ {
            Command::Proxy
        } else if w == "help"@ || w == "--help"@ || w == "-h"@ {
            Command::Help
        } else {
            Command::Unknown
        },
    }
}

/// The command that a word names.
pub fn command(word: &Option<String>) -> (r: Command)
    ensures
        r == command_of(config::opt_view(*word)),
{
    match word {
        None => Command::Help,
        Some(w) => {
            let w: &str = w.as_str();
            if text::same(w, "status") {
                Command::Status
            } else if text::same(w, "feature") {
                Command::Feature
            } else if text::same(w, "mouse") {
                Command::Mouse
            } else if text::same(w, "holder") {
                Command::Holder
            } else if text::same(w, "keymap") {
                Command::Keymap
            } else if text::same(w, "speaker") {
                Command::Speaker
            } else if text::same(w, "gain") {
                Command::Gain
            } else if text::same(w, "xinput") {
                Command::Xinput
            } else if text::same(w, "proxy") {
                Command::Proxy
            } else if text::same(w, "help") || text::same(w, "--help") || text::same(w, "-h") {
                Command::Help
            } else {
                Command::Unknown
            }
        },
    }
}

// ---------------------------------------------------------------- proxy flags

/// What the flags of the proxy say.
pub ghost struct OptsShape {
    pub pad: Option<Seq<char>>,
    pub gate_file: Option<Seq<char>>,
    pub deadzone: bool,
    pub hide: bool,
    pub verbose: bool,
}

impl View for ProxyOpts {
    type V = OptsShape;

    open spec fn view(&self) -> OptsShape {
        OptsShape {
            pad: config::opt_view(self.pad),
            gate_file: config::opt_view(self.gate_file),
            deadzone: self.deadzone,
            hide: self.hide,
            verbose: self.verbose,
        }
    }
}

/// What holds without any flag.
pub open spec fn no_flags() -> OptsShape {
    OptsShape { pad: None, gate_file: None, deadzone: false, hide: true, verbose: false }
}

/// The argument at a place, where there is one.
pub open spec fn arg_at(args: Seq<String>, i: int) -> Option<Seq<char>> {
    if 0 <= i < args.len() {
        Some(args[i]@)
    } else {
        None
    }
}

/// What the flags from a place on make of `o`; the first unknown flag where
/// there is one. A flag that takes a value takes the argument behind it.
pub open spec fn flags_from(args: Seq<String>, i: int, o: OptsShape) -> Result<OptsShape, Seq<char>>
    decreases
        if i < args.len() {
            args.len() - i
        } else {
            0
        },
{
    if i >= args.len() || i < 0 {
        Ok(o)
    } else if args[i]@ == "--pad"@ {
        flags_from(args, i + 2, OptsShape { pad: arg_at(args, i + 1), ..o })
    } else if args[i]@ == "--gate-file"@ {
        flags_from(args, i + 2, OptsShape { gate_file: arg_at(args, i + 1), ..o })
    } else if args[i]@ == "--deadzone"@ {
        flags_from(args, i + 1, OptsShape { deadzone: true, ..o })
    } else if args[i]@ == "--no-hide"@ {
        flags_from(args, i + 1, OptsShape { hide: false, ..o })
    } else if args[i]@ == "--verbose"@ || args[i]@ == "-v"@ {
        flags_from(args, i + 1, OptsShape { verbose: true, ..o })
    } else {
        Err(args[i]@)
    }
}

fn value_at(args: &Vec<String>, i: usize) -> (r: Option<String>)
    requires
        i < args@.len(),
    ensures
        config::opt_view(r) == arg_at(args@, i + 1),
{
    if args.len() - i > 1 {
        Some(args[i + 1].clone())
    } else {
        None
    }
}

/// Reads the flags of the proxy.
pub fn proxy_flags(args: &Vec<String>) -> (r: Result<ProxyOpts, String>)
    ensures
        match r {
            Ok(o) => flags_from(args@, 0, no_flags()) == Ok::<OptsShape, Seq<char>>(o@),
            Err(f) => flags_from(args@, 0, no_flags()) == Err::<OptsShape, Seq<char>>(f@),
        },
{
    let mut o: ProxyOpts = ProxyOpts {
        pad: None,
        gate_file: None,
        deadzone: false,
        hide: true,
        verbose: false,
    };
    let mut i: usize = 0;
    while i < args.len()
        invariant
            flags_from(args@, i as int, o@) == flags_from(args@, 0, no_flags()),
        decreases args@.len() - i,
    {
        let a: &str = args[i].as_str();
        let ghost shape = o@;
        if text::same(a, "--pad") {
            o.pad = value_at(args, i);
            assert(o@ == (OptsShape { pad: arg_at(args@, i + 1), ..shape }));
            if args.len() - i <= 1 {
                assert(flags_from(args@, i + 2, o@) == Ok::<OptsShape, Seq<char>>(o@));
                return Ok(o);
            }
            i = i + 2;
        } else if text::same(a, "--gate-file") {
            o.gate_file = value_at(args, i);
            assert(o@ == (OptsShape { gate_file: arg_at(args@, i + 1), ..shape }));
            if args.len() - i <= 1 {
                assert(flags_from(args@, i + 2, o@) == Ok::<OptsShape, Seq<char>>(o@));
                return Ok(o);
            }
            i = i + 2;
        } else if text::same(a, "--deadzone") {
            o.deadzone = true;
            i = i + 1;
        } else if text::same(a, "--no-hide") {
            o.hide = false;
            i = i + 1;
        } else if text::same(a, "--verbose") || text::same(a, "-v") {
            o.verbose = true;
            i = i + 1;
        } else {
            return Err(args[i].clone());
        }
    }
    Ok(o)
}

// ---------------------------------------------------------------- live switches

/// What a command on a live switch asks for.
#[derive(Clone, Copy, PartialEq, Eq, Debug, Structural)]
pub enum Switch {
    /// Write the argument over the configured value.
    Override,
    /// Go back to the configured value.
    Reset,
    /// Tell the state.
    Report,
    Unknown,
}

/// What an argument of the speaker command asks for.
pub open spec fn speaker_switch(arg: Option<Seq<char>>) -> Switch {
    match arg {
        None => Switch::Report,
        Some(a) => if a == "pad"@ || a == "forward"@ || a == "mute"@ {
            Switch::Override
        } else if a == "reset"@ {
            Switch::Reset
        } else if a == "status"@ {
            Switch::Report
        } else {
            Switch::Unknown
        },
    }
}

/// What an argument of the speaker command asks for.
pub fn speaker_cmd(arg: &Option<String>) -> (r: Switch)
    ensures
        r == speaker_switch(config::opt_view(*arg)),
{
    match arg {
        None => Switch::Report,
        Some(a) => {
            let a: &str = a.as_str();
            if text::same(a, "pad") || text::same(a, "forward") || text::same(a, "mute") {
                Switch::Override
            } else if text::same(a, "reset") {
                Switch::Reset
            } else if text::same(a, "status") {
                Switch::Report
            } else {
                Switch::Unknown
            }
        },
    }
}

/// What an argument of the XInput command asks for.
pub open spec fn xinput_switch(arg: Option<Seq<char>>) -> Switch {
    match arg {
        None => Switch::Report,
        Some(a) => if a == "on"@ || a == "off"@ {
            Switch::Override
        } else if a == "reset"@ {
            Switch::Reset
        } else if a == "status"@ {
            Switch::Report
        } else {
            Switch::Unknown
        },
    }
}

/// What an argument of the XInput command asks for.
pub fn xinput_cmd(arg: &Option<String>) -> (r: Switch)
    ensures
        r == xinput_switch(config::opt_view(*arg)),
{
    match arg {
        None => Switch::Report,
        Some(a) => {
            let a: &str = a.as_str();
            if text::same(a, "on") || text::same(a, "off") {
                Switch::Override
            } else if text::same(a, "reset") {
                Switch::Reset
            } else if text::same(a, "status") {
                Switch::Report
            } else {
                Switch::Unknown
            }
        },
    }
}

/// What an argument of the gain command asks for. Any other word is a gain,
/// if it reads as one.
pub open spec fn gain_switch(arg: Option<Seq<char>>) -> Switch {
    match arg {
        None => Switch::Report,
        Some(a) => if a == "reset"@ {
            Switch::Reset
        } else if a == "status"@ {
            Switch::Report
        } else {
            Switch::Override
        },
    }
}

/// What an argument of the gain command asks for.
pub fn gain_cmd(arg: &Option<String>) -> (r: Switch)
    ensures
        r == gain_switch(config::opt_view(*arg)),
{
    match arg {
        None => Switch::Report,
        Some(a) => {
            if text::same(a.as_str(), "reset") {
                Switch::Reset
            } else if text::same(a.as_str(), "status") {
                Switch::Report
            } else {
                Switch::Override
            }
        },
    }
}

/// The text of an override file that says anything.
pub open spec fn override_of(file: Option<Seq<char>>) -> Option<Seq<char>> {
    match file {
        Some(s) => if text::trimmed(s).len() > 0 {
            Some(text::trimmed(s))
        } else {
            None
        },
        None => None,
    }
}

/// The text of an override file that says anything.
pub fn override_in(file: &Option<String>) -> (r: Option<String>)
    ensures
        config::opt_view(r) == override_of(config::opt_view(*file)),
{
    match file {
        Some(s) => {
            let t: Vec<char> = text::trim(text::chars_of(s.as_str()).as_slice());
            if t.len() > 0 {
                Some(text::string_of(t.as_slice()))
            } else {
                None
            }
        },
        None => None,
    }
}

// ---------------------------------------------------------------- chords

/// What a keymap command asks for.
#[derive(Clone, Copy, PartialEq, Eq, Debug, Structural)]
pub enum Keymap {
    /// Fire the chord named behind.
    Test,
    /// A chord's name is missing.
    Nameless,
    Reload,
    List,
    Unknown,
}

/// What the arguments of the keymap command ask for.
pub open spec fn keymap_of(args: Seq<String>) -> Keymap {
    if args.len() == 0 || args[0]@ == "list"@ || args[0]@ == "status"@ {
        Keymap::List
    } else if args[0]@ == "test"@ {
        if args.len() > 1 {
            Keymap::Test
        } else {
            Keymap::Nameless
        }
    } else if args[0]@ == "reload"@ {
        Keymap::Reload
    } else {
        Keymap::Unknown
    }
}

/// What the arguments of the keymap command ask for.
pub fn keymap_cmd(args: &Vec<String>) -> (r: Keymap)
    ensures
        r == keymap_of(args@),
{
    if args.len() == 0 || text::same(args[0].as_str(), "list") || text::same(
        args[0].as_str(),
        "status",
    ) {
        Keymap::List
    } else if text::same(args[0].as_str(), "test") {
        if args.len() > 1 {
            Keymap::Test
        } else {
            Keymap::Nameless
        }
    } else if text::same(args[0].as_str(), "reload") {
        Keymap::Reload
    } else {
        Keymap::Unknown
    }
}

/// What firing a chord by its name does.
pub enum Firing {
    /// No chord has that name.
    Missing,
    /// It only fires from the pad.
    Internal,
    /// Run this command.
    Run(String),
}

/// Whether the chord at a place is the first of its name.
pub open spec fn first_named(list: Seq<(String, usize, u8, String)>, name: Seq<char>, i: int) -> bool {
    &&& 0 <= i < list.len()
    &&& (#[trigger] list[i]).0@ == name
    &&& forall|j: int| 0 <= j < i ==> (#[trigger] list[j]).0@ != name
}

/// What firing a chord by its name does: the command of the first chord of
/// that name.
pub fn fire_test(chords: &Chords, name: &str) -> (r: Firing)
    ensures
        r is Missing <==> forall|i: int|
            0 <= i < chords.list@.len() ==> (#[trigger] chords.list@[i]).0@ != name@,
        forall|i: int| #[trigger]
            first_named(chords.list@, name@, i) ==> (r is Internal <==> chords.list@[i].3@
                == config::PS_TOGGLE@) && (r matches Firing::Run(c) ==> c@ == chords.list@[i].3@),
{
    let mut i: usize = 0;
    while i < chords.list.len()
        invariant
            i <= chords.list@.len(),
            forall|j: int| 0 <= j < i ==> (#[trigger] chords.list@[j]).0@ != name@,
        decreases chords.list@.len() - i,
    {
        if text::same(chords.list[i].0.as_str(), name) {
            proof {
                assert forall|k: int| #[trigger]
                    first_named(chords.list@, name@, k) implies k == i by {
                    if k > i {
                        assert(chords.list@[i as int].0@ != name@);
                    }
                }
            }
            let run: &str = chords.list[i].3.as_str();
            if text::same(run, config::PS_TOGGLE) {
                return Firing::Internal;
            }
            return Firing::Run(chords.list[i].3.clone());
        }
        i = i + 1;
    }
    Firing::Missing
}

/// `s` with spaces behind it up to ten characters.
pub open spec fn padded(s: Seq<char>) -> Seq<char>
    decreases 10 - s.len(),
{
    if s.len() >= 10 {
        s
    } else {
        padded(s.push(' '))
    }
}

/// The line that shows a chord.
pub fn chord_line(name: &str, action: &str) -> (r: String)
    ensures
        r@ == "  PS + "@ + padded(name@) + " = "@ + action@,
{
    let mut n: Vec<char> = text::chars_of(name);
    while n.len() < 10
        invariant
            padded(n@) == padded(name@),
        decreases 10 - n@.len(),
    {
        n.push(' ');
    }
    let mut s: String = "  PS + ".to_owned();
    let named: String = text::string_of(n.as_slice());
    s.append(named.as_str());
    s.append(" = ");
    s.append(action);
    s
}

// ---------------------------------------------------------------- feature reports

/// `s` without each `0x` in front of it.
pub open spec fn unprefixed(s: Seq<char>) -> Seq<char>
    decreases s.len(),
{
    if s.len() >= 2 && s[0] == '0' && s[1] == 'x' {
        unprefixed(s.subrange(2, s.len() as int))
    } else {
        s
    }
}

/// The report id that an argument names, in hex.
pub open spec fn report_id(arg: Seq<char>) -> Option<int> {
    text::bounded_number(unprefixed(arg), 16, 255)
}

/// The report id that an argument names, in hex.
pub fn parse_rid(arg: &str) -> (r: Option<u8>)
    ensures
        match r {
            Some(v) => report_id(arg@) == Some(v as int),
            None => report_id(arg@) is None,
        },
{
    let s: Vec<char> = text::chars_of(arg);
    let mut i: usize = 0;
    assert(s@.subrange(0, s@.len() as int) =~= s@);
    while s.len() - i > 1 && s[i] == '0' && s[i + 1] == 'x'
        invariant
            i <= s@.len(),
            unprefixed(s@.subrange(i as int, s@.len() as int)) == unprefixed(s@),
        decreases s@.len() - i,
    {
        let ghost rest = s@.subrange(i as int, s@.len() as int);
        assert(rest.subrange(2, rest.len() as int) =~= s@.subrange(i + 2, s@.len() as int));
        i = i + 2;
    }
    let ghost rest = s@.subrange(i as int, s@.len() as int);
    assert(unprefixed(rest) == rest);
    let t: Vec<char> = text::slice_of(s.as_slice(), i, s.len());
    match text::parse_number(t.as_slice(), 16, 255) {
        Some(v) => Some(v as u8),
        None => None,
    }
}

/// How much of a report is read: 65 bytes unless the argument is a number,
/// and at least 2, at most 4096.
pub open spec fn wanted_len(arg: Option<Seq<char>>) -> int {
    let n = match arg {
        Some(a) => match text::bounded_number(a, 10, usize::MAX as int) {
            Some(v) => v,
            None => 65,
        },
        None => 65,
    };
    if n < 2 {
        2
    } else if n > 4096 {
        4096
    } else {
        n
    }
}

/// How much of a report is read.
pub fn parse_len(arg: &Option<String>) -> (r: usize)
    ensures
        r == wanted_len(config::opt_view(*arg)),
{
    let n: u64 = match arg {
        Some(a) => {
            let t: Vec<char> = text::chars_of(a.as_str());
            match text::parse_number(t.as_slice(), 10, usize::MAX as u64) {
                Some(v) => v,
                None => 65,
            }
        },
        None => 65,
    };
    if n < 2 {
        2
    } else if n > 4096 {
        4096
    } else {
        n as usize
    }
}

/// The first `n` bytes that `s` spells in hex, two digits each.
pub open spec fn hex_pairs(s: Seq<char>, n: nat) -> Option<Seq<u8>>
    decreases n,
{
    if n == 0 {
        Some(Seq::empty())
    } else {
        match (
            hex_pairs(s, (n - 1) as nat),
            text::bounded_number(s.subrange(2 * n - 2, 2 * n as int), 16, 255),
        ) {
            (Some(before), Some(v)) => Some(before.push(v as u8)),
            _ => None,
        }
    }
}

proof fn hex_pairs_stay_none(s: Seq<char>, n: nat, m: nat)
    requires
        n <= m,
        hex_pairs(s, n) is None,
    ensures
        hex_pairs(s, m) is None,
    decreases m,
{
    if n < m {
        hex_pairs_stay_none(s, n, (m - 1) as nat);
    }
}

/// The report that a write sends: the id, then the bytes that the argument
/// spells in hex; a last odd character of ASCII says nothing. None where the
/// argument spells no bytes.
pub open spec fn written(rid: u8, s: Seq<char>) -> Option<Seq<u8>> {
    match hex_pairs(s, s.len() / 2) {
        Some(data) => if text::plain(s) {
            Some(seq![rid] + data)
        } else {
            None
        },
        None => None,
    }
}

/// The report that a write sends.
pub fn set_data(rid: u8, arg: &str) -> (r: Option<Vec<u8>>)
    ensures
        match r {
            Some(v) => written(rid, arg@) == Some(v@),
            None => written(rid, arg@) is None,
        },
{
    let s: Vec<char> = text::chars_of(arg);
    if !text::is_plain(s.as_slice()) {
        return None;
    }
    let n: usize = s.len() / 2;
    let mut out: Vec<u8> = Vec::new();
    out.push(rid);
    let ghost mut data: Seq<u8> = Seq::empty();
    let mut i: usize = 0;
    assert(out@ =~= seq![rid] + data);
    while i < n
        invariant
            i <= n,
            n == s@.len() / 2,
            s@ == arg@,
            text::plain(s@),
            hex_pairs(s@, i as nat) == Some(data),
            out@ == seq![rid] + data,
        decreases n - i,
    {
        let pair: Vec<char> = text::slice_of(s.as_slice(), 2 * i, 2 * i + 2);
        assert(pair@ =~= s@.subrange(2 * (i + 1) - 2, 2 * (i + 1)));
        match text::parse_number(pair.as_slice(), 16, 255) {
            Some(v) => {
                proof {
                    data = data.push(v as u8);
                }
                out.push(v as u8);
                assert(out@ =~= seq![rid] + data);
            },
            None => {
                proof {
                    hex_pairs_stay_none(s@, (i + 1) as nat, n as nat);
                }
                return None;
            },
        }
        i = i + 1;
    }
    Some(out)
}

proof fn hex_of_at(b: Seq<u8>, i: int)
    requires
        0 <= i < b.len(),
    ensures
        hid::hex_of(b).len() == 2 * b.len(),
        hid::hex_of(b).subrange(2 * i, 2 * i + 2) == text::hex_byte(b[i]),
        text::plain(hid::hex_of(b)),
    decreases b.len(),
{
    let before = b.drop_last();
    assert(text::plain(text::hex_byte(b.last())));
    if before.len() > 0 {
        hex_of_at(before, 0);
    } else {
        assert(before =~= Seq::empty());
        assert(hid::hex_of(before).len() == 0);
    }
    if i < before.len() {
        hex_of_at(before, i);
        assert(hid::hex_of(b).subrange(2 * i, 2 * i + 2) =~= hid::hex_of(before).subrange(
            2 * i,
            2 * i + 2,
        ));
    } else {
        assert(hid::hex_of(b).subrange(2 * i, 2 * i + 2) =~= text::hex_byte(b[i]));
    }
}

proof fn hex_prefix_reads_back(b: Seq<u8>, n: nat)
    requires
        n <= b.len(),
    ensures
        hex_pairs(hid::hex_of(b), n) == Some(b.subrange(0, n as int)),
    decreases n,
{
    if n == 0 {
        assert(b.subrange(0, 0) =~= Seq::empty());
    } else {
        hex_prefix_reads_back(b, (n - 1) as nat);
        hex_of_at(b, n - 1);
        text::hex_byte_is_the_byte(b[n - 1]);
        assert(b.subrange(0, n - 1).push(b[n - 1]) =~= b.subrange(0, n as int));
    }
}

/// What a read prints, a write takes: bytes in hex spell the same bytes.
pub proof fn printed_bytes_write_back(rid: u8, b: Seq<u8>)
    ensures
        written(rid, hid::hex_of(b)) == Some(seq![rid] + b),
{
    if b.len() > 0 {
        hex_of_at(b, 0);
    }
    hex_prefix_reads_back(b, b.len());
    assert(b.subrange(0, b.len() as int) =~= b);
}

/// Each flag sets its own option and nothing else, and the two that take a
/// value take the argument behind them, if there is one; the first argument
/// that is no flag ends the reading.
pub proof fn flags_set_their_option(args: Seq<String>, i: int, o: OptsShape)
    requires
        0 <= i < args.len(),
    ensures
        ({
            let a = args[i]@;
            let next = if i + 1 < args.len() {
                Some(args[i + 1]@)
            } else {
                None
            };
            let r = flags_from(args, i, o);
            &&& a == "--pad"@ ==> r == flags_from(args, i + 2, OptsShape { pad: next, ..o })
            &&& a == "--gate-file"@
                ==> r == flags_from(args, i + 2, OptsShape { gate_file: next, ..o })
            &&& a == "--deadzone"@
                ==> r == flags_from(args, i + 1, OptsShape { deadzone: true, ..o })
            &&& a == "--no-hide"@ ==> r == flags_from(args, i + 1, OptsShape { hide: false, ..o })
            &&& a == "--verbose"@ ==> r == flags_from(args, i + 1, OptsShape { verbose: true, ..o })
            &&& a == "-v"@ ==> r == flags_from(args, i + 1, OptsShape { verbose: true, ..o })
            &&& a != "--pad"@ && a != "--gate-file"@ && a != "--deadzone"@ && a != "--no-hide"@
                && a != "--verbose"@ && a != "-v"@ ==> r
                == Err::<OptsShape, Seq<char>>(a)
        }),
        flags_from(args, args.len() as int, o) == Ok::<OptsShape, Seq<char>>(o),
{
    reveal_strlit("--pad");
    reveal_strlit("--gate-file");
    reveal_strlit("--deadzone");
    reveal_strlit("--no-hide");
    reveal_strlit("--verbose");
    reveal_strlit("-v");
    assert("--pad"@.len() == 5 && "--pad"@[2] == 'p');
    assert("--gate-file"@.len() == 11 && "--gate-file"@[2] == 'g');
    assert("--deadzone"@.len() == 10 && "--deadzone"@[2] == 'd');
    assert("--no-hide"@.len() == 9 && "--no-hide"@[2] == 'n');
    assert("--verbose"@.len() == 9 && "--verbose"@[2] == 'v');
    assert("-v"@.len() == 2);
}

/// Without a flag nothing is named, nothing is shaped, the real pad is hidden
/// and the log is quiet.
pub proof fn defaults_hide_the_pad()
    ensures
        no_flags().pad is None,
        no_flags().gate_file is None,
        !no_flags().deadzone,
        no_flags().hide,
        !no_flags().verbose,
{
}

/// A report id is read in hex, with or without `0x` in front, and is one byte.
pub proof fn report_ids_are_hex_bytes(b: u8)
    ensures
        report_id(text::hex_byte(b)) == Some(b as int),
        report_id("0x"@ + text::hex_byte(b)) == Some(b as int),
{
    reveal_strlit("0x");
    let h = text::hex_byte(b);
    let p = "0x"@ + h;
    text::hex_byte_is_the_byte(b);
    assert(h[1] != 'x');
    assert(unprefixed(h) == h);
    assert(p.subrange(2, p.len() as int) =~= h);
    reveal_with_fuel(unprefixed, 3);
}

/// A read asks for 65 bytes unless a number says otherwise, and never for less
/// than 2 nor more than 4096.
pub proof fn read_lengths_are_bounded(n: nat, s: Seq<char>)
    ensures
        wanted_len(None) == 65,
        text::bounded_number(s, 10, usize::MAX as int) is None ==> wanted_len(Some(s)) == 65,
        2 <= n <= 4096 ==> wanted_len(Some(text::decimal(n))) == n,
        n < 2 ==> wanted_len(Some(text::decimal(n))) == 2,
        4096 < n <= 0xFFFF_FFFF ==> wanted_len(Some(text::decimal(n))) == 4096,
{
    text::printed_numbers_read_back(n, usize::MAX as int);
}

/// An override counts where it says anything but white space, and then without
/// the white space around it.
pub proof fn blank_overrides_do_not_count(s: Seq<char>)
    ensures
        override_of(None) is None,
        text::trimmed(s).len() == 0 ==> override_of(Some(s)) is None,
        text::trimmed(s).len() > 0 ==> override_of(Some(s)) == Some(text::trimmed(s)),
{
}

/// The speaker command overrides with exactly the words that name a mode, and
/// every override that it writes is one that takes effect.
pub proof fn speaker_words_are_modes(a: Seq<char>)
    ensures
        speaker_switch(Some(a)) == Switch::Override <==> sink::mode_named(a) is Some,
        speaker_switch(None) == Switch::Report,
        speaker_switch(Some("status"@)) == Switch::Report,
        speaker_switch(Some("reset"@)) == Switch::Reset,
{
    reveal_strlit("pad");
    reveal_strlit("forward");
    reveal_strlit("mute");
    reveal_strlit("reset");
    reveal_strlit("status");
    assert("pad"@.len() == 3 && "forward"@.len() == 7 && "mute"@.len() == 4);
    assert("reset"@.len() == 5 && "status"@.len() == 6);
}

/// The XInput command overrides with exactly the two words that decide, each
/// whatever is configured.
pub proof fn xinput_words_decide(a: Seq<char>)
    ensures
        speaker_switch(None) == xinput_switch(None),
        xinput_switch(Some(a)) == Switch::Override <==> a == "on"@ || a == "off"@,
        xinput_switch(Some("status"@)) == Switch::Report,
        xinput_switch(Some("reset"@)) == Switch::Reset,
        gain_switch(None) == Switch::Report,
        gain_switch(Some("status"@)) == Switch::Report,
        gain_switch(Some("reset"@)) == Switch::Reset,
        a != "status"@ && a != "reset"@ ==> gain_switch(Some(a)) == Switch::Override,
{
    reveal_strlit("on");
    reveal_strlit("off");
    reveal_strlit("reset");
    reveal_strlit("status");
    assert("on"@.len() == 2 && "off"@.len() == 3);
    assert("reset"@.len() == 5 && "status"@.len() == 6);
}

/// Every command is called by its own word; no word, and each of the three
/// words for it, calls for help; any other word is unknown.
pub proof fn words_call_their_command(w: Seq<char>)
    ensures
        command_of(None) == Command::Help,
        w == "status"@ ==> command_of(Some(w)) == Command::Status,
        w == "feature"@ ==> command_of(Some(w)) == Command::Feature,
        w == "mouse"@ ==> command_of(Some(w)) == Command::Mouse,
        w == "holder"@ ==> command_of(Some(w)) == Command::Holder,
        w == "keymap"@ ==> command_of(Some(w)) == Command::Keymap,
        w == "speaker"@ ==> command_of(Some(w)) == Command::Speaker,
        w == "gain"@ ==> command_of(Some(w)) == Command::Gain,
        w == "xinput"@ ==> command_of(Some(w)) == Command::Xinput,
        w == "proxy"@ ==> command_of(Some(w)) == Command::Proxy,
        w == "help"@ ==> command_of(Some(w)) == Command::Help,
        w == "--help"@ ==> command_of(Some(w)) == Command::Help,
        w == "-h"@ ==> command_of(Some(w)) == Command::Help,
        w != "status"@ && w != "feature"@ && w != "mouse"@ && w != "holder"@ && w != "keymap"@
            && w != "speaker"@ && w != "gain"@ && w != "xinput"@ && w != "proxy"@ && w != "help"@
            && w != "--help"@ && w != "-h"@ ==> command_of(Some(w)) == Command::Unknown,
{
    reveal_strlit("status");
    reveal_strlit("feature");
    reveal_strlit("mouse");
    reveal_strlit("holder");
    reveal_strlit("keymap");
    reveal_strlit("speaker");
    reveal_strlit("gain");
    reveal_strlit("xinput");
    reveal_strlit("proxy");
    reveal_strlit("help");
    reveal_strlit("--help");
    reveal_strlit("-h");
    assert("status"@.len() == 6 && "status"@[0] == 's' && "status"@[2] == 'a');
    assert("feature"@.len() == 7 && "feature"@[0] == 'f' && "feature"@[2] == 'a');
    assert("mouse"@.len() == 5 && "mouse"@[0] == 'm' && "mouse"@[2] == 'u');
    assert("holder"@.len() == 6 && "holder"@[0] == 'h' && "holder"@[2] == 'l');
    assert("keymap"@.len() == 6 && "keymap"@[0] == 'k' && "keymap"@[2] == 'y');
    assert("speaker"@.len() == 7 && "speaker"@[0] == 's' && "speaker"@[2] == 'e');
    assert("gain"@.len() == 4 && "gain"@[0] == 'g' && "gain"@[2] == 'i');
    assert("xinput"@.len() == 6 && "xinput"@[0] == 'x' && "xinput"@[2] == 'n');
    assert("proxy"@.len() == 5 && "proxy"@[0] == 'p' && "proxy"@[2] == 'o');
    assert("help"@.len() == 4 && "help"@[0] == 'h' && "help"@[2] == 'l');
    assert("--help"@.len() == 6 && "--help"@[0] == '-' && "--help"@[2] == 'h');
    assert("-h"@.len() == 2 && "-h"@[0] == '-');
}

/// The keymap command lists unless it is told to reload or to fire a chord,
/// which it must be given by name.
pub proof fn keymap_words(args: Seq<String>)
    ensures
        args.len() == 0 ==> keymap_of(args) == Keymap::List,
        args.len() > 0 && (args[0]@ == "list"@ || args[0]@ == "status"@) ==> keymap_of(args)
            == Keymap::List,
        args.len() == 1 && args[0]@ == "test"@ ==> keymap_of(args) == Keymap::Nameless,
        args.len() >= 2 && args[0]@ == "test"@ ==> keymap_of(args) == Keymap::Test,
        args.len() > 0 && args[0]@ == "reload"@ ==> keymap_of(args) == Keymap::Reload,
        args.len() > 0 && args[0]@ != "list"@ && args[0]@ != "status"@ && args[0]@ != "test"@
            && args[0]@ != "reload"@ ==> keymap_of(args) == Keymap::Unknown,
{
    reveal_strlit("list");
    reveal_strlit("status");
    reveal_strlit("test");
    reveal_strlit("reload");
    assert("list"@.len() == 4 && "status"@.len() == 6 && "test"@.len() == 4 && "reload"@.len()
        == 6);
    assert("list"@[0] == 'l' && "test"@[0] == 't' && "status"@[0] == 's' && "reload"@[0] == 'r');
}

/// A name is padded with blanks to ten characters, and a longer one is left
/// as it is.
pub proof fn names_are_padded_to_ten(s: Seq<char>, i: int)
    requires
        0 <= i,
    ensures
        s.len() >= 10 ==> padded(s) == s,
        s.len() < 10 ==> padded(s).len() == 10,
        i < s.len() ==> padded(s)[i] == s[i],
        s.len() <= i < 10 ==> padded(s)[i] == ' ',
    decreases 10 - s.len(),
{
    if s.len() < 10 {
        names_are_padded_to_ten(s.push(' '), i);
    }
}

/// The chord that a name fires is the first of that name, and there is at most
/// one such.
pub proof fn first_of_a_name_is_one(
    list: Seq<(String, usize, u8, String)>,
    name: Seq<char>,
    i: int,
    j: int,
)
    requires
        0 <= i < list.len(),
        list[i].0@ == name,
        first_named(list, name, j),
    ensures
        0 <= j <= i,
        list[j].0@ == name,
{
}

} // verus!
