//! Decisions of the transport worker: the thread that owns the device handle, runs
//! one command at a time and polls for input between commands.
use vstd::prelude::*;
use crate::inputs::{DeviceState, DeviceStateUpdate, decode_input_report, report_transition};

verus! {

/// A request to the worker. Key indices are the device's zero-based key indices.
pub enum Command {
    /// Open the device at the given hidraw node.
    Create { path: String, vid: u16, pid: u16, usage_page: u16, usage: u16 },
    /// Close the device and stop the worker.
    Destroy,
    SetBrightness(u8),
    WakeScreen,
    ClearKeyImage(u8),
    SetKeyImage(u8, Vec<u8>),
    SetBackgroundRegion { data: Vec<u8>, width: u16, height: u16, x: u16, y: u16, fb_layer: u8 },
    ClearBackgroundRegion(u8),
    Flush,
    Heartbeat,
    GetFirmwareVersion,
}

/// A call into the vendor transport library. Its key numbers are one-based.
pub enum TransportCall {
    CreateDevice { path: String, vid: u16, pid: u16, usage_page: u16, usage: u16 },
    DestroyDevice,
    SetKeyBrightness(u8),
    WakeupScreen,
    ClearKey(u8),
    SetKeyImageStream { data: Vec<u8>, key: u8 },
    SetBackgroundFrameStream { data: Vec<u8>, width: u16, height: u16, x: u16, y: u16, fb_layer: u8 },
    ClearBackgroundFrameStream(u8),
    Refresh,
    Heartbeat,
    GetFirmwareVersion,
}

/// Whether the worker keeps running after a command.
#[derive(Debug, Clone, Copy, PartialEq, Eq, Structural)]
pub enum Flow {
    Continue,
    Break,
}

/// True when the command names a key that the library can address one-based.
pub open spec fn command_in_range(command: Command) -> bool {
    match command {
        Command::ClearKeyImage(k) => k < 255,
        Command::SetKeyImage(k, _) => k < 255,
        _ => true,
    }
}

/// The transport call that serves a command, and whether the worker goes on.
pub open spec fn spec_handle_command(command: Command) -> (TransportCall, Flow) {
    match command {
        Command::Create { path, vid, pid, usage_page, usage } => (
            TransportCall::CreateDevice { path, vid, pid, usage_page, usage },
            Flow::Continue,
        ),
        Command::Destroy => (TransportCall::DestroyDevice, Flow::Break),
        Command::SetBrightness(p) => (TransportCall::SetKeyBrightness(p), Flow::Continue),
        Command::WakeScreen => (TransportCall::WakeupScreen, Flow::Continue),
        Command::ClearKeyImage(k) => (TransportCall::ClearKey((k + 1) as u8), Flow::Continue),
        Command::SetKeyImage(k, data) => (TransportCall::SetKeyImageStream { data, key: (k + 1) as u8 }, Flow::Continue),
        Command::SetBackgroundRegion { data, width, height, x, y, fb_layer } => (
            TransportCall::SetBackgroundFrameStream { data, width, height, x, y, fb_layer },
            Flow::Continue,
        ),
        Command::ClearBackgroundRegion(l) => (TransportCall::ClearBackgroundFrameStream(l), Flow::Continue),
        Command::Flush => (TransportCall::Refresh, Flow::Continue),
        Command::Heartbeat => (TransportCall::Heartbeat, Flow::Continue),
        Command::GetFirmwareVersion => (TransportCall::GetFirmwareVersion, Flow::Continue),
    }
}

/// Decides how the worker serves a command: the library call to make (key numbers
/// become one-based) and whether to stop afterwards, which only `Destroy` does.
pub fn handle_command(command: Command) -> (r: (TransportCall, Flow))
    requires
        command_in_range(command),
    ensures
        r == spec_handle_command(command),
{
    match command {
        Command::Create { path, vid, pid, usage_page, usage } => (
            TransportCall::CreateDevice { path, vid, pid, usage_page, usage },
            Flow::Continue,
        ),
        Command::Destroy => (TransportCall::DestroyDevice, Flow::Break),
        Command::SetBrightness(p) => (TransportCall::SetKeyBrightness(p), Flow::Continue),
        Command::WakeScreen => (TransportCall::WakeupScreen, Flow::Continue),
        Command::ClearKeyImage(k) => (TransportCall::ClearKey(k + 1), Flow::Continue),
        Command::SetKeyImage(k, data) => (TransportCall::SetKeyImageStream { data, key: k + 1 }, Flow::Continue),
        Command::SetBackgroundRegion { data, width, height, x, y, fb_layer } => (
            TransportCall::SetBackgroundFrameStream { data, width, height, x, y, fb_layer },
            Flow::Continue,
        ),
        Command::ClearBackgroundRegion(l) => (TransportCall::ClearBackgroundFrameStream(l), Flow::Continue),
        Command::Flush => (TransportCall::Refresh, Flow::Continue),
        Command::Heartbeat => (TransportCall::Heartbeat, Flow::Continue),
        Command::GetFirmwareVersion => (TransportCall::GetFirmwareVersion, Flow::Continue),
    }
}

/// Opening a device hands the library the command's node, ids and usage unchanged,
/// and the worker goes on.
pub proof fn lemma_create_passes_arguments(path: String, vid: u16, pid: u16, usage_page: u16, usage: u16)
    ensures
        spec_handle_command(Command::Create { path, vid, pid, usage_page, usage }) == (
            TransportCall::CreateDevice { path, vid, pid, usage_page, usage },
            Flow::Continue,
        ),
{
}

/// Drawing a background region hands the library the command's picture data, size,
/// place and layer unchanged: width stays width and height stays height.
pub proof fn lemma_background_region_passes_arguments(
    data: Vec<u8>,
    width: u16,
    height: u16,
    x: u16,
    y: u16,
    fb_layer: u8,
)
    ensures
        spec_handle_command(Command::SetBackgroundRegion { data, width, height, x, y, fb_layer }) == (
            TransportCall::SetBackgroundFrameStream { data, width, height, x, y, fb_layer },
            Flow::Continue,
        ),
{
}

/// The key commands address the library's key one above the command's zero-based key,
/// and an image goes to the library as it came.
pub proof fn lemma_key_commands_address_next_key(k: u8, data: Vec<u8>)
    requires
        k < 255,
    ensures
        spec_handle_command(Command::ClearKeyImage(k)).0 matches TransportCall::ClearKey(j) && j == k + 1,
        spec_handle_command(Command::SetKeyImage(k, data)).0 matches TransportCall::SetKeyImageStream {
            data: d,
            key,
        } && key == k + 1 && d == data,
        spec_handle_command(Command::ClearKeyImage(k)).1 == Flow::Continue,
        spec_handle_command(Command::SetKeyImage(k, data)).1 == Flow::Continue,
{
}

/// The other commands each map to their own library call with the same argument.
pub proof fn lemma_plain_commands_pass_arguments(percent: u8, fb_layer: u8)
    ensures
        spec_handle_command(Command::SetBrightness(percent)) == (TransportCall::SetKeyBrightness(percent), Flow::Continue),
        spec_handle_command(Command::ClearBackgroundRegion(fb_layer)) == (
            TransportCall::ClearBackgroundFrameStream(fb_layer),
            Flow::Continue,
        ),
        spec_handle_command(Command::WakeScreen) == (TransportCall::WakeupScreen, Flow::Continue),
        spec_handle_command(Command::Flush) == (TransportCall::Refresh, Flow::Continue),
        spec_handle_command(Command::Heartbeat) == (TransportCall::Heartbeat, Flow::Continue),
        spec_handle_command(Command::GetFirmwareVersion) == (TransportCall::GetFirmwareVersion, Flow::Continue),
        spec_handle_command(Command::Destroy) == (TransportCall::DestroyDevice, Flow::Break),
{
}

/// Only `Destroy` stops the worker.
pub proof fn lemma_only_destroy_stops(command: Command)
    ensures
        (spec_handle_command(command).1 == Flow::Break) <==> (command is Destroy),
{
}

/// What the worker got from its command queue in one turn.
pub enum Received {
    Command(Command),
    /// Every sender is gone.
    Disconnected,
    /// Nothing arrived in time.
    Timeout,
}

/// One turn of the worker: the library call to make, if any, and whether to stop.
pub struct WorkerStep {
    pub call: Option<TransportCall>,
    pub stop: bool,
}

/// Whether a device handle must be released: only when one is open.
pub fn destroy_if_present(handle_open: bool) -> (r: bool)
    ensures
        r == handle_open,
{
    handle_open
}

/// The library call that a turn makes, given whether a handle is open.
pub open spec fn spec_turn_call(handle_open: bool, received: Received) -> Option<TransportCall> {
    match received {
        Received::Command(Command::Destroy) => if handle_open {
            Some(TransportCall::DestroyDevice)
        } else {
            None
        },
        Received::Command(c) => Some(spec_handle_command(c).0),
        Received::Disconnected => if handle_open {
            Some(TransportCall::DestroyDevice)
        } else {
            None
        },
        Received::Timeout => None,
    }
}

/// Whether the worker stops after a turn: after `Destroy`, or once the queue is gone.
pub open spec fn spec_turn_stops(received: Received) -> bool {
    match received {
        Received::Command(c) => spec_handle_command(c).1 == Flow::Break,
        Received::Disconnected => true,
        Received::Timeout => false,
    }
}

/// Decides the call of one turn of the worker. A command is served as `handle_command`
/// says, except that `Destroy` releases the handle only when one is open; when the
/// queue is gone the open handle, if any, is released and the worker stops; a timeout
/// does nothing.
pub fn transport_worker(handle_open: bool, received: Received) -> (r: WorkerStep)
    requires
        received matches Received::Command(c) ==> command_in_range(c),
    ensures
        r.call == spec_turn_call(handle_open, received),
        r.stop == spec_turn_stops(received),
{
    match received {
        Received::Command(Command::Destroy) => {
            let call = if destroy_if_present(handle_open) {
                Some(TransportCall::DestroyDevice)
            } else {
                None
            };
            WorkerStep { call, stop: true }
        },
        Received::Command(c) => {
            let (call, flow) = handle_command(c);
            WorkerStep { call: Some(call), stop: flow == Flow::Break }
        },
        Received::Disconnected => {
            let call = if destroy_if_present(handle_open) {
                Some(TransportCall::DestroyDevice)
            } else {
                None
            };
            WorkerStep { call, stop: true }
        },
        Received::Timeout => WorkerStep { call: None, stop: false },
    }
}

/// A turn serves a command other than `Destroy` with the command's own call whether or
/// not a handle is open, and goes on; a timeout makes no call and goes on; a closed
/// queue stops the worker.
pub proof fn lemma_turns_serve_commands(open: bool, command: Command)
    ensures
        !(command is Destroy) ==> spec_turn_call(open, Received::Command(command)) == Some(
            spec_handle_command(command).0,
        ) && !spec_turn_stops(Received::Command(command)),
        spec_turn_call(open, Received::Timeout) is None,
        !spec_turn_stops(Received::Timeout),
        spec_turn_stops(Received::Disconnected),
        spec_turn_stops(Received::Command(Command::Destroy)),
{
}

/// A turn that stops releases the handle, if one is open, with exactly one call, and
/// makes no call when none is open.
pub proof fn lemma_stopping_turn_releases_handle(handle_open: bool, received: Received)
    requires
        spec_turn_stops(received),
    ensures
        spec_turn_call(handle_open, received) == if handle_open {
            Some(TransportCall::DestroyDevice)
        } else {
            None::<TransportCall>
        },
{
}

/// Whether a handle is open after a turn, given whether one was open before it,
/// whether the turn stops and, for a turn that opened the device, whether that
/// succeeded.
pub open spec fn spec_open_after(open: bool, stop: bool, created: Option<bool>) -> bool {
    if stop {
        false
    } else {
        match created {
            Some(ok) => open || ok,
            None => open,
        }
    }
}

/// How a turn ends: the reply owed to the caller that asked to open the device, if the
/// turn opened it, and whether the worker then reads input.
pub struct TurnEnd<E> {
    pub create_reply: Option<Result<(), E>>,
    pub poll: bool,
}

/// Ends a turn, given the handle held before it, the step that was taken and, when
/// the step opened the device, what the library returned. A new handle replaces the
/// held one and `Ok` is replied; a failure leaves the held handle and is replied; a
/// step that stops leaves no handle (the step released it). The worker reads input
/// only when it goes on with an open handle.
pub fn end_turn<H, E>(handle: &mut Option<H>, step: &WorkerStep, created: Option<Result<H, E>>) -> (r: TurnEnd<E>)
    requires
        created is Some <==> step.call matches Some(TransportCall::CreateDevice { .. }),
        created is Some ==> !step.stop,
    ensures
        step.stop ==> *final(handle) is None && r.create_reply is None,
        !step.stop ==> match created {
            Some(Ok(h)) => *final(handle) == Some(h) && r.create_reply == Some(Ok::<(), E>(())),
            Some(Err(e)) => *final(handle) == *old(handle) && r.create_reply == Some(Err::<(), E>(e)),
            None => *final(handle) == *old(handle) && r.create_reply is None,
        },
        r.poll == (!step.stop && *final(handle) is Some),
        (*final(handle) is Some) == spec_open_after(*old(handle) is Some, step.stop, match created {
            Some(res) => Some(res is Ok),
            None => None::<bool>,
        }),
{
    if step.stop {
        *handle = None;
        return TurnEnd { create_reply: None, poll: false };
    }
    let create_reply = match created {
        Some(Ok(h)) => {
            *handle = Some(h);
            Some(Ok(()))
        },
        Some(Err(e)) => Some(Err(e)),
        None => None,
    };
    let poll = handle.is_some();
    TurnEnd { create_reply, poll }
}

/// Something the worker does to the device: a library call, or an input read.
pub enum WorkerAction {
    Call(TransportCall),
    Read,
}

/// Whether the turn that receives `received` opens the device.
pub open spec fn opens_device(open: bool, received: Received) -> bool {
    spec_turn_call(open, received) matches Some(TransportCall::CreateDevice { .. })
}

/// Whether a handle is open after a turn; `ok` says whether opening the device
/// succeeded, when the turn opens it.
pub open spec fn open_after_turn(open: bool, received: Received, ok: bool) -> bool {
    spec_open_after(open, spec_turn_stops(received), if opens_device(open, received) {
        Some(ok)
    } else {
        None
    })
}

/// What one turn does: its call, if any, then an input read when the worker goes on
/// with an open handle.
pub open spec fn turn_actions(open: bool, received: Received, ok: bool) -> Seq<WorkerAction> {
    let calls = match spec_turn_call(open, received) {
        Some(c) => seq![WorkerAction::Call(c)],
        None => Seq::empty(),
    };
    if !spec_turn_stops(received) && open_after_turn(open, received, ok) {
        calls.push(WorkerAction::Read)
    } else {
        calls
    }
}

/// Everything the worker does, in order, over the turns that receive `events`, from a
/// state where a handle is open (`open`) or not, up to the first turn that stops;
/// `oks[i]` says whether opening the device succeeded, when turn `i` opens it.
pub open spec fn worker_actions(open: bool, events: Seq<Received>, oks: Seq<bool>) -> Seq<WorkerAction>
    decreases events.len(),
{
    if events.len() == 0 {
        Seq::empty()
    } else if spec_turn_stops(events[0]) {
        turn_actions(open, events[0], oks[0])
    } else {
        turn_actions(open, events[0], oks[0]) + worker_actions(
            open_after_turn(open, events[0], oks[0]),
            events.drop_first(),
            oks.drop_first(),
        )
    }
}

/// Whether a handle is open when the worker reaches the first turn that stops.
pub open spec fn open_at_stop(open: bool, events: Seq<Received>, oks: Seq<bool>) -> bool
    decreases events.len(),
{
    if events.len() == 0 || spec_turn_stops(events[0]) {
        open
    } else {
        open_at_stop(open_after_turn(open, events[0], oks[0]), events.drop_first(), oks.drop_first())
    }
}

/// Whether some turn in `events` stops the worker.
pub open spec fn some_turn_stops(events: Seq<Received>) -> bool {
    exists|k: int| 0 <= k < events.len() && spec_turn_stops(#[trigger] events[k])
}

/// Once the worker has stopped, nothing it receives afterwards leads to any call or
/// read: the turns after the first one that stops add no action.
pub proof fn lemma_nothing_after_stop(
    open: bool,
    events: Seq<Received>,
    oks: Seq<bool>,
    later: Seq<Received>,
    later_oks: Seq<bool>,
)
    requires
        some_turn_stops(events),
        oks.len() == events.len(),
    ensures
        worker_actions(open, events + later, oks + later_oks) == worker_actions(open, events, oks),
    decreases events.len(),
{
    assert((events + later)[0] == events[0]);
    assert((oks + later_oks)[0] == oks[0]);
    if !spec_turn_stops(events[0]) {
        let k = choose|k: int| 0 <= k < events.len() && spec_turn_stops(#[trigger] events[k]);
        assert(events.drop_first()[k - 1] == events[k]);
        assert((events + later).drop_first() =~= events.drop_first() + later);
        assert((oks + later_oks).drop_first() =~= oks.drop_first() + later_oks);
        lemma_nothing_after_stop(
            open_after_turn(open, events[0], oks[0]),
            events.drop_first(),
            oks.drop_first(),
            later,
            later_oks,
        );
    }
}

/// A turn that does not stop never releases the handle.
proof fn lemma_running_turn_keeps_handle(open: bool, received: Received, ok: bool)
    requires
        !spec_turn_stops(received),
    ensures
        !turn_actions(open, received, ok).contains(WorkerAction::Call(TransportCall::DestroyDevice)),
{
    let a = turn_actions(open, received, ok);
    if a.contains(WorkerAction::Call(TransportCall::DestroyDevice)) {
        let i = choose|i: int| 0 <= i < a.len() && a[i] == WorkerAction::Call(TransportCall::DestroyDevice);
        assert(i == 0);
    }
}

/// Up to the first turn that stops, the worker releases the device handle exactly once
/// when one is open by then and never otherwise, and the release is the last thing it
/// does: no call and no read follows it.
pub proof fn lemma_handle_released_once(open: bool, events: Seq<Received>, oks: Seq<bool>)
    requires
        some_turn_stops(events),
        oks.len() == events.len(),
    ensures
        ({
            let actions = worker_actions(open, events, oks);
            &&& forall|i: int|
                0 <= i < actions.len() && actions[i] == WorkerAction::Call(TransportCall::DestroyDevice)
                    ==> i == actions.len() - 1
            &&& open_at_stop(open, events, oks) ==> actions.len() > 0
                && actions.last() == WorkerAction::Call(TransportCall::DestroyDevice)
            &&& !open_at_stop(open, events, oks) ==> !actions.contains(
                WorkerAction::Call(TransportCall::DestroyDevice),
            )
        }),
    decreases events.len(),
{
    let destroy = WorkerAction::Call(TransportCall::DestroyDevice);
    let actions = worker_actions(open, events, oks);
    if spec_turn_stops(events[0]) {
        lemma_stopping_turn_releases_handle(open, events[0]);
        if open {
            assert(actions =~= seq![destroy]);
        } else {
            assert(actions =~= Seq::<WorkerAction>::empty());
        }
    } else {
        let k = choose|k: int| 0 <= k < events.len() && spec_turn_stops(#[trigger] events[k]);
        assert(events.drop_first()[k - 1] == events[k]);
        let next = open_after_turn(open, events[0], oks[0]);
        let head = turn_actions(open, events[0], oks[0]);
        let rest = worker_actions(next, events.drop_first(), oks.drop_first());
        lemma_handle_released_once(next, events.drop_first(), oks.drop_first());
        lemma_running_turn_keeps_handle(open, events[0], oks[0]);
        assert(actions == head + rest);
        assert forall|i: int| 0 <= i < actions.len() && actions[i] == destroy implies i == actions.len() - 1 by {
            if i < head.len() {
                assert(head[i] == actions[i]);
                assert(head.contains(destroy));
            } else {
                assert(rest[i - head.len()] == actions[i]);
            }
        }
        if open_at_stop(open, events, oks) {
            assert(actions.last() == rest.last());
        } else {
            if actions.contains(destroy) {
                let i = choose|i: int| 0 <= i < actions.len() && actions[i] == destroy;
                if i < head.len() {
                    assert(head[i] == actions[i]);
                    assert(head.contains(destroy));
                } else {
                    assert(rest[i - head.len()] == actions[i]);
                    assert(rest.contains(destroy));
                }
            }
        }
    }
}

/// With no handle open and no device opened by any turn, the worker never reads input
/// and never releases a handle.
pub proof fn lemma_no_read_without_handle(events: Seq<Received>, oks: Seq<bool>)
    requires
        oks.len() == events.len(),
        forall|i: int| 0 <= i < oks.len() ==> !oks[i],
    ensures
        !worker_actions(false, events, oks).contains(WorkerAction::Read),
        !worker_actions(false, events, oks).contains(WorkerAction::Call(TransportCall::DestroyDevice)),
    decreases events.len(),
{
    if events.len() > 0 {
        let head = turn_actions(false, events[0], oks[0]);
        assert(!open_after_turn(false, events[0], oks[0]));
        assert(!head.contains(WorkerAction::Read)) by {
            if head.contains(WorkerAction::Read) {
                let i = choose|i: int| 0 <= i < head.len() && head[i] == WorkerAction::Read;
                assert(i == 0);
            }
        }
        assert(!head.contains(WorkerAction::Call(TransportCall::DestroyDevice))) by {
            if head.contains(WorkerAction::Call(TransportCall::DestroyDevice)) {
                let i = choose|i: int| 0 <= i < head.len() && head[i] == WorkerAction::Call(TransportCall::DestroyDevice);
                assert(i == 0);
            }
        }
        if !spec_turn_stops(events[0]) {
            let rest = worker_actions(false, events.drop_first(), oks.drop_first());
            lemma_no_read_without_handle(events.drop_first(), oks.drop_first());
            let actions = worker_actions(false, events, oks);
            assert(actions == head + rest);
            assert forall|a: WorkerAction| a == WorkerAction::Read || a == WorkerAction::Call(TransportCall::DestroyDevice)
                implies !actions.contains(a) by {
                if actions.contains(a) {
                    let i = choose|i: int| 0 <= i < actions.len() && actions[i] == a;
                    if i < head.len() {
                        assert(head[i] == actions[i]);
                        assert(head.contains(a));
                    } else {
                        assert(rest[i - head.len()] == actions[i]);
                        assert(rest.contains(a));
                    }
                }
            }
        }
    }
}

/// Handles the outcome of one input read: when the read succeeded (`read_ok`) and
/// reported a length `len` of at least one byte that fits in `buf`, the first `len`
/// bytes are decoded as a report; otherwise nothing happens.
pub fn poll_input(state: &mut DeviceState, read_ok: bool, buf: &[u8], len: usize) -> (r: Option<DeviceStateUpdate>)
    ensures
        if read_ok && 0 < len <= buf@.len() {
            (final(state)@, r) == report_transition(old(state)@, buf@.subrange(0, len as int))
        } else {
            final(state)@ == old(state)@ && r is None
        },
{
    if read_ok && len > 0 && len <= buf.len() {
        let data = &buf[0..len];
        decode_input_report(state, data)
    } else {
        None
    }
}

/// `bytes` read as UTF-8, with invalid sequences replaced, as `String::from_utf8_lossy` reads them.
pub uninterp spec fn utf8_lossy(bytes: Seq<u8>) -> Seq<char>;

/// Calls `String::from_utf8_lossy`. The contract only names the result.
#[verifier::external_body]
fn from_utf8_lossy(bytes: &[u8]) -> (r: String)
    ensures
        r@ == utf8_lossy(bytes@),
{
    String::from_utf8_lossy(bytes).into_owned()
}

/// The text before the first NUL character.
pub open spec fn before_nul(s: Seq<char>) -> Seq<char>
    decreases s.len(),
{
    if s.len() == 0 || s[0] == '\0' {
        Seq::empty()
    } else {
        seq![s[0]] + before_nul(s.drop_first())
    }
}

/// The firmware version in the buffer the library filled: the buffer read as UTF-8
/// (invalid sequences replaced), up to the first NUL.
pub fn firmware_version_from_buffer(buf: &[u8]) -> (r: String)
    ensures
        r@ == before_nul(utf8_lossy(buf@)),
{
    let text = from_utf8_lossy(buf);
    let n = text.as_str().unicode_len();
    let mut i: usize = 0;
    assert(text@.skip(0) =~= text@);
    assert(text@.subrange(0, 0) + before_nul(text@) =~= before_nul(text@));
    while i < n && text.as_str().get_char(i) != '\0'
        invariant
            i <= n,
            n == text@.len(),
            before_nul(text@) == text@.subrange(0, i as int) + before_nul(text@.skip(i as int)),
        decreases n - i,
    {
        assert(text@.skip(i as int)[0] == text@[i as int]);
        assert(text@.skip(i as int).drop_first() =~= text@.skip(i + 1));
        assert(text@.subrange(0, i + 1) =~= text@.subrange(0, i as int) + seq![text@[i as int]]);
        i = i + 1;
    }
    proof {
        if i < n {
            assert(text@.skip(i as int)[0] == '\0');
        }
        assert(before_nul(text@.skip(i as int)) =~= Seq::<char>::empty());
    }
    String::from_str(text.as_str().substring_char(0, i))
}

} // verus!
