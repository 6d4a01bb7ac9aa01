//! The touchpad as a mouse: which nodes are grabbed, and when.
//!
//! The desktop moves the cursor by the touchpad whenever it can read its
//! node. The mouse is on while nobody grabs the node, and off while a holder
//! process grabs it and drops what it reads.

use vstd::prelude::*;
use vstd::string::*;

use crate::config;
use crate::text;

verus! {

/// The request that grabs an event node: `_IOW('E', 0x90, int)`.
pub const EVIOCGRAB: u32 = 0x4004_4590;

/// Whether the name of an input device is that of a DualSense touchpad.
pub open spec fn is_touchpad(dev_name: Seq<char>) -> bool {
    text::occurs(text::lower(dev_name), "dualsense"@) && text::occurs(
        text::lower(dev_name),
        "touchpad"@,
    )
}

fn touchpad(dev_name: &str) -> (r: bool)
    ensures
        r == is_touchpad(dev_name@),
{
    let lower: Vec<char> = text::to_lower(text::chars_of(dev_name).as_slice());
    text::contains(lower.as_slice(), text::chars_of("dualsense").as_slice()) && text::contains(
        lower.as_slice(),
        text::chars_of("touchpad").as_slice(),
    )
}

/// An input device: its directory's name, its own name where it has one, and
/// what its directory holds.
pub struct InputDevice {
    pub dir: String,
    pub name: Option<String>,
    pub children: Vec<String>,
}

/// The event nodes among the names, in turn.
pub open spec fn event_nodes(names: Seq<String>) -> Seq<Seq<char>>
    decreases names.len(),
{
    if names.len() == 0 {
        Seq::empty()
    } else {
        let before = event_nodes(names.drop_last());
        if text::has_prefix(names.last()@, "event"@) {
            before.push(text::joined("/dev/input"@, names.last()@))
        } else {
            before
        }
    }
}

/// The nodes of a touchpad; none of another device.
pub open spec fn device_nodes(d: InputDevice) -> Seq<Seq<char>> {
    if text::has_prefix(d.dir@, "input"@) && d.name is Some && is_touchpad((d.name->0)@) {
        event_nodes(d.children@)
    } else {
        Seq::empty()
    }
}

/// The touchpad nodes of the devices, in turn.
pub open spec fn nodes_of(devices: Seq<InputDevice>) -> Seq<Seq<char>>
    decreases devices.len(),
{
    if devices.len() == 0 {
        Seq::empty()
    } else {
        nodes_of(devices.drop_last()) + device_nodes(devices.last())
    }
}

fn append_nodes(out: &mut Vec<Vec<char>>, d: &InputDevice)
    ensures
        text::views(final(out)@) == text::views(old(out)@) + device_nodes(*d),
{
    let ghost before = text::views(out@);
    let own: bool = match &d.name {
        Some(n) => text::starts_with(
            text::chars_of(d.dir.as_str()).as_slice(),
            text::chars_of("input").as_slice(),
        ) && touchpad(n.as_str()),
        None => false,
    };
    if !own {
        assert(before + Seq::<Seq<char>>::empty() =~= before);
        return;
    }
    let event: Vec<char> = text::chars_of("event");
    let mut i: usize = 0;
    assert(d.children@.subrange(0, 0) =~= Seq::empty());
    assert(before + Seq::<Seq<char>>::empty() =~= before);
    while i < d.children.len()
        invariant
            i <= d.children@.len(),
            event@ == "event"@,
            text::views(out@) == before + event_nodes(d.children@.subrange(0, i as int)),
        decreases d.children@.len() - i,
    {
        assert(d.children@.subrange(0, i + 1).drop_last() =~= d.children@.subrange(0, i as int));
        let name: Vec<char> = text::chars_of(d.children[i].as_str());
        if text::starts_with(name.as_slice(), event.as_slice()) {
            let ghost so_far = text::views(out@);
            let node: String = text::join("/dev/input", d.children[i].as_str());
            out.push(text::chars_of(node.as_str()));
            assert(text::views(out@) =~= so_far.push(node@));
            assert(so_far.push(node@) =~= before + event_nodes(
                d.children@.subrange(0, i + 1),
            ));
        }
        i = i + 1;
    }
    assert(d.children@.subrange(0, d.children@.len() as int) =~= d.children@);
}

/// The touchpad nodes of the devices behind one pad, in turn.
pub fn touchpad_nodes_of(devices: &Vec<InputDevice>) -> (r: Vec<Vec<char>>)
    ensures
        text::views(r@) == nodes_of(devices@),
{
    let mut out: Vec<Vec<char>> = Vec::new();
    let mut i: usize = 0;
    assert(devices@.subrange(0, 0) =~= Seq::empty());
    assert(text::views(out@) =~= Seq::empty());
    while i < devices.len()
        invariant
            i <= devices@.len(),
            text::views(out@) == nodes_of(devices@.subrange(0, i as int)),
        decreases devices@.len() - i,
    {
        assert(devices@.subrange(0, i + 1).drop_last() =~= devices@.subrange(0, i as int));
        append_nodes(&mut out, &devices[i]);
        i = i + 1;
    }
    assert(devices@.subrange(0, devices@.len() as int) =~= devices@);
    out
}

/// Every touchpad node of the devices, each once, in ascending order.
pub fn touchpad_nodes(devices: &Vec<InputDevice>) -> (r: Vec<Vec<char>>)
    ensures
        text::ascending(text::views(r@)),
        text::views(r@).to_set() == nodes_of(devices@).to_set(),
{
    let found: Vec<Vec<char>> = touchpad_nodes_of(devices);
    let ghost all = text::views(found@);
    let mut out: Vec<Vec<char>> = Vec::new();
    let mut i: usize = 0;
    assert(text::views(out@).to_set() =~= all.subrange(0, 0).to_set());
    while i < found.len()
        invariant
            i <= found@.len(),
            all == text::views(found@),
            text::ascending(text::views(out@)),
            text::views(out@).to_set() == all.subrange(0, i as int).to_set(),
        decreases found@.len() - i,
    {
        let node: Vec<char> = text::slice_of(found[i].as_slice(), 0, found[i].len());
        assert(node@ =~= all[i as int]);
        let ghost before = text::views(out@).to_set();
        text::insert_ascending(&mut out, node);
        proof {
            let upto = all.subrange(0, i as int);
            let next = all.subrange(0, i + 1);
            assert(next =~= upto.push(all[i as int]));
            assert forall|x: Seq<char>| next.to_set().contains(x) == before.insert(
                all[i as int],
            ).contains(x) by {
                if upto.contains(x) {
                    let k = choose|k: int| 0 <= k < upto.len() && upto[k] == x;
                    assert(next[k] == x);
                }
                assert(next[i as int] == all[i as int]);
                if next.contains(x) {
                    let k = choose|k: int| 0 <= k < next.len() && next[k] == x;
                    if k < i {
                        assert(upto[k] == x);
                    }
                }
            }
            assert(next.to_set() =~= before.insert(all[i as int]));
        }
        i = i + 1;
    }
    assert(all.subrange(0, all.len() as int) =~= all);
    out
}

/// The path of the holder's pidfile.
pub fn pid_path(runtime_dir: &Option<String>) -> (r: String)
    ensures
        r@ == text::runtime_path(*runtime_dir, "mdrv-ds-mouse.pid"@),
{
    text::in_runtime_dir(runtime_dir, "mdrv-ds-mouse.pid")
}

/// What a command asks for.
#[derive(Clone, Copy, PartialEq, Eq, Debug, Structural)]
pub enum MouseStep {
    /// Be the holder.
    Hold,
    /// Stop the holder, which frees the touchpad.
    Stop,
    /// Start a holder, which grabs the touchpad.
    Start,
    /// Only tell the state.
    Report,
    /// The argument is unknown.
    Unknown,
}

/// What a command does, by its first argument and whether a holder runs. With
/// no argument it toggles.
pub open spec fn mouse_step(arg: Option<Seq<char>>, held: bool) -> MouseStep {
    if arg == Some("--hold-grab"@) {
        MouseStep::Hold
    } else if arg == Some("on"@) {
        if held {
            MouseStep::Stop
        } else {
            MouseStep::Report
        }
    } else if arg == Some("off"@) {
        if held {
            MouseStep::Report
        } else {
            MouseStep::Start
        }
    } else if arg == Some("toggle"@) || arg is None {
        if held {
            MouseStep::Stop
        } else {
            MouseStep::Start
        }
    } else if arg == Some("status"@) {
        MouseStep::Report
    } else {
        MouseStep::Unknown
    }
}

/// What a command does.
pub fn cmd(arg: &Option<String>, held: bool) -> (r: MouseStep)
    ensures
        r == mouse_step(config::opt_view(*arg), held),
{
    match arg {
        None => if held {
            MouseStep::Stop
        } else {
            MouseStep::Start
        },
        Some(a) => {
            if text::same(a.as_str(), "--hold-grab") {
                MouseStep::Hold
            } else if text::same(a.as_str(), "on") {
                if held {
                    MouseStep::Stop
                } else {
                    MouseStep::Report
                }
            } else if text::same(a.as_str(), "off") {
                if held {
                    MouseStep::Report
                } else {
                    MouseStep::Start
                }
            } else if text::same(a.as_str(), "toggle") {
                if held {
                    MouseStep::Stop
                } else {
                    MouseStep::Start
                }
            } else if text::same(a.as_str(), "status") {
                MouseStep::Report
            } else {
                MouseStep::Unknown
            }
        },
    }
}

/// Whether a holder runs after a step that went well.
pub open spec fn held_after(step: MouseStep, held: bool) -> bool {
    match step {
        MouseStep::Stop => false,
        MouseStep::Start => true,
        _ => held,
    }
}

/// After `on` no holder runs, after `off` one does, and `toggle` changes
/// which; telling the state changes nothing.
pub proof fn commands_reach_their_state(held: bool)
    ensures
        !held_after(mouse_step(Some("on"@), held), held),
        held_after(mouse_step(Some("off"@), held), held),
        held_after(mouse_step(Some("toggle"@), held), held) == !held,
        held_after(mouse_step(None, held), held) == !held,
        held_after(mouse_step(Some("status"@), held), held) == held,
{
    reveal_strlit("--hold-grab");
    reveal_strlit("on");
    reveal_strlit("off");
    reveal_strlit("toggle");
    reveal_strlit("status");
    assert("on"@.len() == 2);
    assert("off"@.len() == 3);
    assert("--hold-grab"@.len() == 11);
    assert("toggle"@.len() == 6);
    assert("status"@.len() == 6);
    assert("toggle"@[0] == 't');
    assert("status"@[0] == 's');
}

/// Whether the holder has yet to grab a node.
pub fn is_new(held: &Vec<Vec<char>>, node: &Vec<char>) -> (r: bool)
    ensures
        r == !text::views(held@).contains(node@),
{
    let ghost all = text::views(held@);
    let mut i: usize = 0;
    while i < held.len()
        invariant
            i <= held@.len(),
            all == text::views(held@),
            forall|j: int| 0 <= j < i ==> #[trigger] all[j] != node@,
        decreases held@.len() - i,
    {
        assert(all[i as int] == held@[i as int]@);
        if text::same_chars(held[i].as_slice(), node.as_slice()) {
            return false;
        }
        i = i + 1;
    }
    true
}

/// The command to be the holder, and a word that is no command.
pub proof fn other_commands_are_told_apart(arg: Seq<char>, held: bool)
    ensures
        mouse_step(Some("--hold-grab"@), held) == MouseStep::Hold,
        arg != "--hold-grab"@ && arg != "on"@ && arg != "off"@ && arg != "toggle"@ && arg
            != "status"@ ==> mouse_step(Some(arg), held) == MouseStep::Unknown,
        // a running holder is never started again, and one that is not running
        // never stopped
        mouse_step(Some(arg), true) != MouseStep::Start,
        mouse_step(Some(arg), false) != MouseStep::Stop,
        mouse_step(None, true) == MouseStep::Stop,
        mouse_step(None, false) == MouseStep::Start,
{
}

/// Every event node of a device is found, under /dev/input, and nothing else
/// of it.
pub proof fn event_nodes_are_found(names: Seq<String>, n: Seq<char>)
    ensures
        event_nodes(names).contains(n) <==> exists|i: int|
            0 <= i < names.len() && text::has_prefix(#[trigger] names[i]@, "event"@) && n
                == text::joined("/dev/input"@, names[i]@),
    decreases names.len(),
{
    if names.len() > 0 {
        let before = event_nodes(names.drop_last());
        let all = event_nodes(names);
        let last = names.last()@;
        event_nodes_are_found(names.drop_last(), n);
        if before.contains(n) {
            let k = choose|k: int| 0 <= k < before.len() && before[k] == n;
            assert(all[k] == n);
            let i = choose|i: int|
                0 <= i < names.drop_last().len() && text::has_prefix(
                    #[trigger] names.drop_last()[i]@,
                    "event"@,
                ) && n == text::joined("/dev/input"@, names.drop_last()[i]@);
            assert(text::has_prefix(names[i]@, "event"@));
        }
        if text::has_prefix(last, "event"@) && n == text::joined("/dev/input"@, last) {
            assert(all[all.len() - 1] == n);
            assert(text::has_prefix(names[names.len() - 1]@, "event"@));
        }
        if all.contains(n) && !before.contains(n) {
            let k = choose|k: int| 0 <= k < all.len() && all[k] == n;
            assert(k < before.len() ==> before[k] == n);
        }
        if exists|i: int|
            0 <= i < names.len() && text::has_prefix(#[trigger] names[i]@, "event"@) && n
                == text::joined("/dev/input"@, names[i]@) {
            let i = choose|i: int|
                0 <= i < names.len() && text::has_prefix(#[trigger] names[i]@, "event"@) && n
                    == text::joined("/dev/input"@, names[i]@);
            if i < names.len() - 1 {
                assert(text::has_prefix(names.drop_last()[i]@, "event"@));
            }
        }
    }
}

/// The nodes of a device count exactly where it is an input device whose name
/// holds both `dualsense` and `touchpad`, in any case.
pub proof fn only_touchpads_have_nodes(d: InputDevice)
    ensures
        ({
            let own = text::has_prefix(d.dir@, "input"@) && d.name is Some && text::occurs(
                text::lower((d.name->0)@),
                "dualsense"@,
            ) && text::occurs(text::lower((d.name->0)@), "touchpad"@);
            &&& own ==> device_nodes(d) == event_nodes(d.children@)
            &&& !own ==> device_nodes(d).len() == 0
        }),
{
}

/// The nodes of several devices are those of each, in turn.
pub proof fn nodes_come_in_turn(devices: Seq<InputDevice>, d: InputDevice)
    ensures
        nodes_of(Seq::empty()).len() == 0,
        nodes_of(devices.push(d)) == nodes_of(devices) + device_nodes(d),
{
    assert(devices.push(d).drop_last() =~= devices);
}

/// The grab request is the kernel's: a write, of the size of a C `int`, of type
/// `E`, number 0x90.
pub proof fn grab_request_is_the_kernels()
    ensures
        EVIOCGRAB == 1 * 0x4000_0000 + 4 * 0x1_0000 + 0x45 * 0x100 + 0x90,
{
}

} // verus!
