//! The virtual-pad holder: it owns the pad and keeps it alive while proxies
//! come and go. Its state reacts to frames of the proxy and events of the
//! kernel; what is to be written where is returned to the caller.

use vstd::prelude::*;
use vstd::utf8;

use crate::bytes;
use crate::errno;
use crate::ipc;
use crate::ipc::CreateShape;
use crate::text;
use crate::uhid;
use crate::uhid::CreateParams;
use crate::uhid::UhidEvent;

verus! {

/// What the holder remembers.
pub struct Holder {
    /// A uhid device is open.
    pub open: bool,
    /// Create payload of the current pad; an equal one means "reuse".
    pub key: Option<Vec<u8>>,
    /// Report that parks the pad when the proxy goes away.
    pub neutral: Option<Vec<u8>>,
    /// The kernel has started the pad.
    pub started: bool,
}

/// A `Holder` by its values.
pub ghost struct HolderShape {
    pub open: bool,
    pub key: Option<Seq<u8>>,
    pub neutral: Option<Seq<u8>>,
    pub started: bool,
}

/// Optional bytes by their values.
pub open spec fn opt_bytes(o: Option<Vec<u8>>) -> Option<Seq<u8>> {
    match o {
        Some(v) => Some(v@),
        None => None,
    }
}

impl View for Holder {
    type V = HolderShape;

    open spec fn view(&self) -> HolderShape {
        HolderShape {
            open: self.open,
            key: opt_bytes(self.key),
            neutral: opt_bytes(self.neutral),
            started: self.started,
        }
    }
}

/// What a frame of the proxy asks of the caller, in this order.
pub enum FrameAction {
    Nothing,
    /// Send this create ack.
    Ack(Vec<u8>),
    /// Write this event to the pad.
    Write(Vec<u8>),
    /// Write this event to the pad, where there is one, and close it.
    Close(Option<Vec<u8>>),
    /// Write the first event to the pad that is open, where there is one, and
    /// send the create ack.
    Refuse(Option<Vec<u8>>, Vec<u8>),
    /// Write the first event to the pad that is open, where there is one; open
    /// a fresh device, write the second event to it (none: the descriptor is
    /// too long), and tell `finish_create` how it went.
    Create(Option<Vec<u8>>, Option<Vec<u8>>),
}

/// A `FrameAction` by its values.
pub ghost enum ActionShape {
    Nothing,
    Ack(Seq<u8>),
    Write(Seq<u8>),
    Close(Option<Seq<u8>>),
    Refuse(Option<Seq<u8>>, Seq<u8>),
    Create(Option<Seq<u8>>, Option<Seq<u8>>),
}

impl View for FrameAction {
    type V = ActionShape;

    open spec fn view(&self) -> ActionShape {
        match *self {
            FrameAction::Nothing => ActionShape::Nothing,
            FrameAction::Ack(p) => ActionShape::Ack(p@),
            FrameAction::Write(e) => ActionShape::Write(e@),
            FrameAction::Close(e) => ActionShape::Close(opt_bytes(e)),
            FrameAction::Refuse(e, p) => ActionShape::Refuse(opt_bytes(e), p@),
            FrameAction::Create(d, c) => ActionShape::Create(opt_bytes(d), opt_bytes(c)),
        }
    }
}

// ---------------------------------------------------------------- frames

/// The event that destroys the pad, where there is one.
pub open spec fn destroy_of(open: bool) -> Option<Seq<u8>> {
    if open {
        Some(uhid::event(bytes::le32(uhid::UHID_DESTROY as int)))
    } else {
        None
    }
}

/// The event that creates a pad of a shape, where its descriptor fits.
pub open spec fn create_event_of(m: CreateShape) -> Option<Seq<u8>> {
    if m.rdesc.len() <= uhid::DATA_MAX {
        Some(
            uhid::event(
                bytes::le32(uhid::UHID_CREATE2 as int) + uhid::c_string(
                    utf8::encode_utf8(m.name),
                    128,
                ) + bytes::zeros(64) + uhid::c_string(utf8::encode_utf8(m.uniq), 64) + bytes::le16(
                    m.rdesc.len() as int,
                ) + bytes::le16(m.bus as int) + bytes::le32(m.vendor as int) + bytes::le32(
                    m.product as int,
                ) + bytes::le32(m.version as int) + bytes::le32(0) + m.rdesc,
            ),
        )
    } else {
        None
    }
}

/// What a create frame asks for: nothing new where the pad has that shape
/// already; else the old pad goes, and a fresh one is made of a payload that
/// can be read.
pub open spec fn create_action(h: HolderShape, data: Seq<u8>) -> ActionShape {
    if h.key == Some(data) {
        ActionShape::Ack(seq![1u8])
    } else {
        match ipc::created(data) {
            None => ActionShape::Refuse(destroy_of(h.open), seq![2u8, 0x3f]),
            Some(m) => ActionShape::Create(destroy_of(h.open), create_event_of(m)),
        }
    }
}

/// What a frame asks for.
pub open spec fn frame_action(h: HolderShape, tag: u8, data: Seq<u8>) -> ActionShape {
    if tag == ipc::TAG_CREATE {
        create_action(h, data)
    } else if tag == ipc::TAG_DESTROY {
        ActionShape::Close(destroy_of(h.open))
    } else if tag == ipc::TAG_INPUT && h.started && h.open {
        ActionShape::Write(uhid::input_event(data))
    } else if tag == ipc::TAG_GET_REPLY && h.open && ipc::get_reply_of(data) is Some {
        let (id, err, rdata) = ipc::get_reply_of(data)->0;
        ActionShape::Write(uhid::get_reply_event(id, err, rdata))
    } else if tag == ipc::TAG_SET_ACK && h.open && ipc::ack_of(data) is Some {
        let (id, err) = ipc::ack_of(data)->0;
        ActionShape::Write(uhid::set_reply_event(id, err))
    } else {
        ActionShape::Nothing
    }
}

/// The holder after a frame.
pub open spec fn after_frame(h: HolderShape, tag: u8, data: Seq<u8>) -> HolderShape {
    if tag == ipc::TAG_CREATE {
        HolderShape { started: h.started && (h.key == Some(data) || !h.open), ..h }
    } else if tag == ipc::TAG_DESTROY {
        HolderShape { open: false, key: None, neutral: None, started: false }
    } else if tag == ipc::TAG_NEUTRAL {
        HolderShape {
            neutral: if data.len() == 0 {
                None
            } else {
                Some(data)
            },
            ..h
        }
    } else {
        h
    }
}

/// The ack of a create that went wrong: a mark and the reason.
pub open spec fn failed_ack(reason: Seq<char>) -> Seq<u8> {
    seq![2u8] + utf8::encode_utf8(reason)
}

impl Holder {
    pub fn new() -> (r: Holder)
        ensures
            r@ == (HolderShape { open: false, key: None, neutral: None, started: false }),
    {
        Holder { open: false, key: None, neutral: None, started: false }
    }

    fn destroy_event(&self) -> (r: Option<Vec<u8>>)
        ensures
            opt_bytes(r) == destroy_of(self.open),
    {
        if self.open {
            Some(uhid::destroy())
        } else {
            None
        }
    }

    fn has_key(&self, data: &[u8]) -> (r: bool)
        ensures
            r == (self@.key == Some(data@)),
    {
        match &self.key {
            Some(k) => bytes::same_bytes(k.as_slice(), data),
            None => false,
        }
    }

    fn create(&mut self, data: &[u8]) -> (r: FrameAction)
        ensures
            r@ == create_action(old(self)@, data@),
            final(self)@ == after_frame(old(self)@, ipc::TAG_CREATE, data@),
    {
        if self.has_key(data) {
            let mut p: Vec<u8> = Vec::new();
            p.push(1);
            assert(p@ =~= seq![1u8]);
            return FrameAction::Ack(p);
        }
        let gone: Option<Vec<u8>> = self.destroy_event();
        if self.open {
            self.started = false;
        }
        match ipc::decode_create(data) {
            None => {
                let mut p: Vec<u8> = Vec::new();
                p.push(2);
                p.push(0x3f);
                assert(p@ =~= seq![2u8, 0x3f]);
                FrameAction::Refuse(gone, p)
            },
            Some(msg) => {
                let cp = CreateParams {
                    name: msg.name.as_str(),
                    uniq: msg.uniq.as_str(),
                    rdesc: msg.rdesc.as_slice(),
                    bus: msg.bus,
                    vendor: msg.vendor,
                    product: msg.product,
                    version: msg.version,
                };
                let event: Option<Vec<u8>> = uhid::create2(&cp);
                FrameAction::Create(gone, event)
            },
        }
    }

    /// Takes one frame of the proxy.
    pub fn frame(&mut self, tag: u8, data: &[u8]) -> (r: FrameAction)
        ensures
            r@ == frame_action(old(self)@, tag, data@),
            final(self)@ == after_frame(old(self)@, tag, data@),
    {
        if tag == ipc::TAG_CREATE {
            self.create(data)
        } else if tag == ipc::TAG_DESTROY {
            let gone: Option<Vec<u8>> = self.destroy_event();
            self.open = false;
            self.key = None;
            self.neutral = None;
            self.started = false;
            FrameAction::Close(gone)
        } else if tag == ipc::TAG_INPUT {
            if self.started && self.open {
                FrameAction::Write(uhid::input2(data))
            } else {
                FrameAction::Nothing
            }
        } else if tag == ipc::TAG_NEUTRAL {
            self.neutral = if data.len() == 0 {
                None
            } else {
                Some(bytes::copy_of(data))
            };
            FrameAction::Nothing
        } else if tag == ipc::TAG_GET_REPLY {
            match ipc::dec_get_reply(data) {
                Some((id, err, rdata)) => {
                    if self.open {
                        FrameAction::Write(uhid::reply_get_report(id, err, rdata.as_slice()))
                    } else {
                        FrameAction::Nothing
                    }
                },
                None => FrameAction::Nothing,
            }
        } else if tag == ipc::TAG_SET_ACK {
            match ipc::dec_ack(data) {
                Some((id, err)) => {
                    if self.open {
                        FrameAction::Write(uhid::reply_set_report(id, err))
                    } else {
                        FrameAction::Nothing
                    }
                },
                None => FrameAction::Nothing,
            }
        } else {
            FrameAction::Nothing
        }
    }

    /// How a create went: done, or not for a reason. Returns the payload of
    /// the create ack.
    pub fn finish_create(&mut self, data: &[u8], failure: &Option<String>) -> (r: Vec<u8>)
        ensures
            match *failure {
                None => {
                    &&& r@ == seq![0u8]
                    &&& final(self)@ == (HolderShape {
                        open: true,
                        key: Some(data@),
                        neutral: old(self)@.neutral,
                        started: false,
                    })
                },
                Some(reason) => {
                    &&& r@ == failed_ack(reason@)
                    &&& final(self)@ == old(self)@
                },
            },
    {
        let mut ack: Vec<u8> = Vec::new();
        match failure {
            None => {
                self.open = true;
                self.key = Some(bytes::copy_of(data));
                self.started = false;
                ack.push(0);
                assert(ack@ =~= seq![0u8]);
            },
            Some(reason) => {
                ack.push(2);
                bytes::append(&mut ack, reason.as_str().as_bytes());
                assert(ack@ =~= failed_ack(reason@));
            },
        }
        ack
    }
}

// ---------------------------------------------------------------- kernel events

/// What a kernel event asks of the caller.
pub enum EventAction {
    Nothing,
    /// Send this frame to the proxy.
    Send(u8, Vec<u8>),
    /// Write this event to the pad.
    Write(Vec<u8>),
}

/// An `EventAction` by its values.
pub ghost enum ReplyShape {
    Nothing,
    Send(u8, Seq<u8>),
    Write(Seq<u8>),
}

impl View for EventAction {
    type V = ReplyShape;

    open spec fn view(&self) -> ReplyShape {
        match *self {
            EventAction::Nothing => ReplyShape::Nothing,
            EventAction::Send(tag, p) => ReplyShape::Send(tag, p@),
            EventAction::Write(e) => ReplyShape::Write(e@),
        }
    }
}

/// What a kernel event asks for: outputs and requests go to the proxy; without
/// one, outputs are dropped and requests are refused.
pub open spec fn event_action(ev: uhid::EventShape, connected: bool) -> ReplyShape {
    match ev {
        uhid::EventShape::Output(data) => if connected {
            ReplyShape::Send(ipc::TAG_OUTPUT, data)
        } else {
            ReplyShape::Nothing
        },
        uhid::EventShape::GetReport(id, rnum) => if connected {
            ReplyShape::Send(ipc::TAG_GET_REQ, ipc::req_payload(id, rnum))
        } else {
            ReplyShape::Write(uhid::get_reply_event(id, 22, Seq::empty()))
        },
        uhid::EventShape::SetReport(id, rnum, data) => if connected {
            ReplyShape::Send(ipc::TAG_SET_REQ, ipc::set_req_payload(id, rnum, data))
        } else {
            ReplyShape::Write(uhid::set_reply_event(id, 5))
        },
        _ => ReplyShape::Nothing,
    }
}

/// The holder after a kernel event.
pub open spec fn after_event(h: HolderShape, ev: uhid::EventShape) -> HolderShape {
    match ev {
        uhid::EventShape::Start => HolderShape { started: true, ..h },
        uhid::EventShape::Stop => HolderShape { started: false, key: None, ..h },
        _ => h,
    }
}

impl Holder {
    /// Takes one event of the kernel, read from the pad. Without a pad there
    /// is none to take.
    pub fn uhid_event(&mut self, ev: &[u8], connected: bool) -> (r: EventAction)
        ensures
            old(self).open ==> {
                &&& r@ == event_action(uhid::event_of(ev@), connected)
                &&& final(self)@ == after_event(old(self)@, uhid::event_of(ev@))
            },
            !old(self).open ==> r@ == ReplyShape::Nothing && final(self)@ == old(self)@,
    {
        if !self.open {
            return EventAction::Nothing;
        }
        match uhid::parse_event(ev) {
            UhidEvent::Start => {
                self.started = true;
                EventAction::Nothing
            },
            UhidEvent::Stop => {
                self.started = false;
                self.key = None;
                EventAction::Nothing
            },
            UhidEvent::Output(data) => {
                if connected {
                    EventAction::Send(ipc::TAG_OUTPUT, bytes::copy_of(data))
                } else {
                    EventAction::Nothing
                }
            },
            UhidEvent::GetReport(id, rnum) => {
                if connected {
                    EventAction::Send(ipc::TAG_GET_REQ, ipc::enc_req(id, rnum))
                } else {
                    let none: Vec<u8> = Vec::new();
                    EventAction::Write(uhid::reply_get_report(id, errno::einval(), none.as_slice()))
                }
            },
            UhidEvent::SetReport(id, rnum, data) => {
                if connected {
                    EventAction::Send(ipc::TAG_SET_REQ, ipc::enc_set_req(id, rnum, data))
                } else {
                    EventAction::Write(uhid::reply_set_report(id, errno::eio()))
                }
            },
            UhidEvent::Other(_) => EventAction::Nothing,
        }
    }

    /// The proxy went away: the pad stays, and this event, where there is one,
    /// parks it at neutral.
    pub fn client_gone(&self) -> (r: Option<Vec<u8>>)
        ensures
            opt_bytes(r) == (if self.started && self.open && self.neutral is Some {
                Some(uhid::input_event((self.neutral->0)@))
            } else {
                None
            }),
    {
        match &self.neutral {
            Some(n) => {
                if self.started && self.open {
                    Some(uhid::input2(n.as_slice()))
                } else {
                    None
                }
            },
            None => None,
        }
    }

    /// The event to write on exit, where there is a pad.
    pub fn exit_event(&self) -> (r: Option<Vec<u8>>)
        ensures
            opt_bytes(r) == destroy_of(self.open),
    {
        self.destroy_event()
    }
}

// ---------------------------------------------------------------- the daemon

/// The notice that turns a proxy away, where one is connected already: the pad
/// has one proxy at a time.
pub fn turn_away(connected: bool) -> (r: Option<&'static str>)
    ensures
        r is Some <==> connected,
        r is Some ==> (r->0)@ == "another proxy is already connected"@,
{
    if connected {
        Some("another proxy is already connected")
    } else {
        None
    }
}

/// The log of an instance: the DualSense's holder has the unnamed one.
pub fn log_name(instance: &str) -> (r: &'static str)
    ensures
        r@ == (if instance@.len() == 0 {
            "holder.log"@
        } else {
            "holder-xi.log"@
        }),
{
    if text::chars_of(instance).len() == 0 {
        "holder.log"
    } else {
        "holder-xi.log"
    }
}

// ---------------------------------------------------------------- laws

/// A proxy that reconnects with the same pad shape finds the pad as it was:
/// nothing is written to it, and the holder does not change.
pub proof fn same_shape_is_reused(h: HolderShape, data: Seq<u8>)
    requires
        h.key == Some(data),
    ensures
        frame_action(h, ipc::TAG_CREATE, data) == ActionShape::Ack(seq![1u8]),
        after_frame(h, ipc::TAG_CREATE, data) == h,
{
}

/// Only a create of another shape and a destroy frame ever destroy the pad.
pub proof fn only_shape_change_destroys(h: HolderShape, tag: u8, data: Seq<u8>)
    requires
        tag != ipc::TAG_DESTROY,
        tag != ipc::TAG_CREATE || h.key == Some(data),
    ensures
        after_frame(h, tag, data).open == h.open,
        after_frame(h, tag, data).key == h.key,
        after_frame(h, tag, data).started == h.started,
        !(frame_action(h, tag, data) is Close),
        !(frame_action(h, tag, data) is Create),
        !(frame_action(h, tag, data) is Refuse),
{
}

/// After the kernel stopped the pad, or the proxy destroyed it, a create
/// rebuilds instead of reusing.
pub proof fn stop_and_destroy_force_a_rebuild(h: HolderShape, any: Seq<u8>, data: Seq<u8>)
    ensures
        !(frame_action(after_event(h, uhid::EventShape::Stop), ipc::TAG_CREATE, data) is Ack),
        !(frame_action(after_frame(h, ipc::TAG_DESTROY, any), ipc::TAG_CREATE, data) is Ack),
{
}

/// No input reaches the kernel before it started the pad.
pub proof fn no_input_before_start(h: HolderShape, data: Seq<u8>)
    requires
        !h.started,
    ensures
        frame_action(h, ipc::TAG_INPUT, data) == ActionShape::Nothing,
{
}

/// What the proxy sends reaches the kernel under its tag: input once the kernel
/// started the pad, answers to the kernel's requests as long as there is a pad;
/// a neutral report is kept, and a destroy frame ends the pad.
pub proof fn input_and_answers_reach_the_kernel(
    h: HolderShape,
    data: Seq<u8>,
    id: u32,
    err: u16,
)
    requires
        data.len() < 65536,
    ensures
        // 'I': an input report, once the kernel started the pad
        h.open && h.started ==> frame_action(h, 0x49, data) == ActionShape::Write(
            uhid::input_event(data),
        ),
        !h.open || !h.started ==> frame_action(h, 0x49, data) == ActionShape::Nothing,
        // 'G' and 'A': answers to the kernel, started or not
        h.open ==> frame_action(h, 0x47, ipc::get_reply_payload(id, err, data))
            == ActionShape::Write(uhid::get_reply_event(id, err, data)),
        h.open ==> frame_action(h, 0x41, ipc::ack_payload(id, err)) == ActionShape::Write(
            uhid::set_reply_event(id, err),
        ),
        !h.open ==> frame_action(h, 0x47, data) == ActionShape::Nothing && frame_action(
            h,
            0x41,
            data,
        ) == ActionShape::Nothing,
        // 'N': the report that parks the pad; an empty one disarms it
        frame_action(h, 0x4e, data) == ActionShape::Nothing,
        data.len() > 0 ==> after_frame(h, 0x4e, data) == (HolderShape {
            neutral: Some(data),
            ..h
        }),
        data.len() == 0 ==> after_frame(h, 0x4e, data) == (HolderShape { neutral: None, ..h }),
        // 'D': the pad goes, and everything is forgotten
        frame_action(h, 0x44, data) is Close,
        h.open ==> frame_action(h, 0x44, data)->Close_0 is Some,
        !h.open ==> frame_action(h, 0x44, data)->Close_0 is None,
        !after_frame(h, 0x44, data).open && !after_frame(h, 0x44, data).started && after_frame(
            h,
            0x44,
            data,
        ).key is None && after_frame(h, 0x44, data).neutral is None,
{
    ipc::get_reply_round_trip(id, err, data);
    ipc::ack_round_trip(id, err);
}

/// A frame of any other tag asks for nothing and changes nothing.
pub proof fn other_frames_change_nothing(h: HolderShape, tag: u8, data: Seq<u8>)
    requires
        tag != 0x43 && tag != 0x44 && tag != 0x49 && tag != 0x4e && tag != 0x47 && tag != 0x41,
    ensures
        frame_action(h, tag, data) == ActionShape::Nothing,
        after_frame(h, tag, data) == h,
{
}

/// A create frame of a new shape replaces the pad: the one that is open goes
/// first, and the new one is made of what the frame says; a frame that cannot
/// be read makes none and is refused.
pub proof fn new_shapes_replace_the_pad(h: HolderShape, data: Seq<u8>, m: CreateShape)
    requires
        h.key != Some(data),
    ensures
        ipc::created(data) == Some(m) ==> {
            &&& frame_action(h, 0x43, data) is Create
            &&& h.open == (frame_action(h, 0x43, data)->Create_0 is Some)
            &&& (m.rdesc.len() <= 4096 <==> frame_action(h, 0x43, data)->Create_1 is Some)
        },
        ipc::created(data) is None ==> {
            &&& frame_action(h, 0x43, data) is Refuse
            &&& h.open == (frame_action(h, 0x43, data)->Refuse_0 is Some)
            &&& frame_action(h, 0x43, data)->Refuse_1 == seq![2u8, 0x3f]
        },
        h.open ==> !after_frame(h, 0x43, data).started,
        after_frame(h, 0x43, data).key == h.key,
        after_frame(h, 0x43, data).neutral == h.neutral,
{
}

/// The event that makes a pad is that of its shape, and the event that
/// destroys one is of kind 1.
pub proof fn pads_are_made_of_their_shape(p: uhid::CreateParams<'_>, m: CreateShape)
    requires
        m.name == p.name@,
        m.uniq == p.uniq@,
        m.rdesc == p.rdesc@,
        m.bus == p.bus,
        m.vendor == p.vendor,
        m.product == p.product,
        m.version == p.version,
        m.rdesc.len() <= 4096,
    ensures
        create_event_of(m) == Some(uhid::create_event(p)),
        destroy_of(false) is None,
        destroy_of(true) is Some,
        (destroy_of(true)->0).len() == 4376,
        uhid::spells32(destroy_of(true)->0, 0, 1),
{
}

/// What the kernel asks goes to the proxy, and is answered by the holder
/// itself where no proxy is there: outputs under 'O', feature requests under
/// 'Q', else error 22, feature writes under 'T', else error 5.
pub proof fn kernel_requests_are_always_answered(id: u32, rnum: u8, data: Seq<u8>)
    ensures
        event_action(uhid::EventShape::Output(data), true) == ReplyShape::Send(0x4f, data),
        event_action(uhid::EventShape::Output(data), false) == ReplyShape::Nothing,
        event_action(uhid::EventShape::GetReport(id, rnum), true) == ReplyShape::Send(
            0x51,
            ipc::req_payload(id, rnum),
        ),
        event_action(uhid::EventShape::GetReport(id, rnum), false) == ReplyShape::Write(
            uhid::get_reply_event(id, 22, Seq::empty()),
        ),
        event_action(uhid::EventShape::SetReport(id, rnum, data), true) == ReplyShape::Send(
            0x54,
            ipc::set_req_payload(id, rnum, data),
        ),
        event_action(uhid::EventShape::SetReport(id, rnum, data), false) == ReplyShape::Write(
            uhid::set_reply_event(id, 5),
        ),
        forall|c: bool|
            #![trigger event_action(uhid::EventShape::Start, c)]
            event_action(uhid::EventShape::Start, c) == ReplyShape::Nothing && event_action(
                uhid::EventShape::Stop,
                c,
            ) == ReplyShape::Nothing,
{
}

/// The kernel's start and stop are remembered, and nothing else that it sends
/// changes the holder; a stopped pad is not reused.
pub proof fn start_and_stop_are_remembered(h: HolderShape, ev: uhid::EventShape)
    ensures
        after_event(h, uhid::EventShape::Start) == (HolderShape { started: true, ..h }),
        after_event(h, uhid::EventShape::Stop) == (HolderShape { started: false, key: None, ..h }),
        !(ev is Start) && !(ev is Stop) ==> after_event(h, ev) == h,
{
}

/// A create that went wrong is told by the mark 2 and the reason.
pub proof fn failures_are_told(reason: Seq<char>)
    ensures
        failed_ack(reason).len() == 1 + utf8::encode_utf8(reason).len(),
        failed_ack(reason)[0] == 2,
        failed_ack(reason).subrange(1, failed_ack(reason).len() as int) == utf8::encode_utf8(
            reason,
        ),
{
}

} // verus!
