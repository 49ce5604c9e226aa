//! A device without a screen or a keyboard: it keeps a record of what it was
//! asked to do, and its key notifications are queued by hand.

use vstd::prelude::*;
use crate::backend::{Backend, DrawCall, RenderMode, Request};
use crate::cell::Cell;
use crate::input::{KeyEvent, KeySets, KeyState};
use crate::key::Key;

verus! {

/// One request as the recorder keeps it.
#[derive(Debug, PartialEq, Eq)]
pub enum Recorded {
    Init { title: String, width: u32, height: u32 },
    SetFps(Option<u32>),
    Draw(DrawCall),
    Flush,
    WaitFrame,
}

impl View for Recorded {
    type V = Request;

    open spec fn view(&self) -> Request {
        match self {
            Recorded::Init { title, width, height } => Request::Init {
                title: title@,
                width: *width,
                height: *height,
            },
            Recorded::SetFps(fps) => Request::SetFps(*fps),
            Recorded::Draw(call) => Request::Draw(*call),
            Recorded::Flush => Request::Flush,
            Recorded::WaitFrame => Request::WaitFrame,
        }
    }
}

/// The draw calls among `log`, in order.
pub open spec fn draws_of(log: Seq<Request>) -> Seq<DrawCall>
    decreases log.len(),
{
    if log.len() == 0 {
        Seq::empty()
    } else {
        match log.last() {
            Request::Draw(call) => draws_of(log.drop_last()).push(call),
            _ => draws_of(log.drop_last()),
        }
    }
}

/// A device that records its requests. Each sampling pass drains the key
/// notifications that were queued since the one before.
pub struct Recorder {
    mode: RenderMode,
    log: Vec<Recorded>,
    keys: KeyState,
    pending: Vec<KeyEvent>,
}

impl Recorder {
    /// The key notifications that wait for the next sampling pass.
    pub closed spec fn spec_pending(&self) -> Seq<KeyEvent> {
        self.pending@
    }

    /// A recorder of the given mode that has received nothing yet.
    pub fn new(mode: RenderMode) -> (r: Recorder)
        ensures
            r.mode() == mode,
            r.requests() == Seq::<Request>::empty(),
            r.keys() == KeySets::idle(),
            r.spec_pending() == Seq::<KeyEvent>::empty(),
    {
        let r = Recorder { mode, log: Vec::new(), keys: KeyState::new(), pending: Vec::new() };
        assert(r.requests() =~= Seq::<Request>::empty());
        r
    }

    /// Queues a key notification for the next sampling pass.
    pub fn queue(&mut self, event: KeyEvent)
        ensures
            final(self).spec_pending() == old(self).spec_pending().push(event),
            final(self).requests() == old(self).requests(),
            final(self).mode() == old(self).mode(),
            final(self).keys() == old(self).keys(),
    {
        self.pending.push(event);
    }

    /// Every request received so far, oldest first.
    pub fn log(&self) -> (log: &Vec<Recorded>)
        ensures
            log@.len() == self.requests().len(),
            forall|i: int| 0 <= i < log@.len() ==> (#[trigger] log@[i])@ == self.requests()[i],
    {
        &self.log
    }

    /// The draw calls received so far, oldest first.
    pub fn draws(&self) -> (calls: Vec<DrawCall>)
        ensures
            calls@ == draws_of(self.requests()),
    {
        let mut calls: Vec<DrawCall> = Vec::new();
        let mut i: usize = 0;
        while i < self.log.len()
            invariant
                i <= self.log.len(),
                calls@ == draws_of(self.requests().take(i as int)),
            decreases self.log.len() - i,
        {
            assert(self.requests().take(i + 1).drop_last() =~= self.requests().take(i as int));
            match &self.log[i] {
                Recorded::Draw(call) => {
                    calls.push(*call);
                },
                _ => {},
            }
            i += 1;
        }
        assert(self.requests().take(i as int) =~= self.requests());
        calls
    }

    fn record(&mut self, entry: Recorded)
        ensures
            final(self).requests() == old(self).requests().push(entry@),
            final(self).mode() == old(self).mode(),
            final(self).keys() == old(self).keys(),
            final(self).spec_pending() == old(self).spec_pending(),
    {
        self.log.push(entry);
        assert(self.requests() =~= old(self).requests().push(entry@));
    }
}

impl Backend for Recorder {
    closed spec fn requests(&self) -> Seq<Request> {
        self.log@.map_values(|r: Recorded| r@)
    }

    closed spec fn mode(&self) -> RenderMode {
        self.mode
    }

    closed spec fn keys(&self) -> KeySets {
        self.keys@
    }

    fn render_mode(&self) -> (m: RenderMode) {
        self.mode
    }

    fn init(&mut self, title: &str, width: u32, height: u32) {
        self.record(Recorded::Init { title: title.to_owned(), width, height });
    }

    fn set_fps(&mut self, fps: Option<u32>) {
        self.record(Recorded::SetFps(fps));
    }

    fn draw_cell(&mut self, x: u32, y: u32, cell: &Cell) {
        self.record(Recorded::Draw(DrawCall { x, y, cell: *cell }));
    }

    fn flush(&mut self) {
        self.record(Recorded::Flush);
    }

    /// Drains the queued key notifications. There is no clock to wait on.
    fn wait_frame(&mut self)
        ensures
            final(self).keys() == old(self).keys().drained(old(self).spec_pending()),
            final(self).spec_pending() == Seq::<KeyEvent>::empty(),
    {
        self.keys.update_from_events(&self.pending);
        self.pending.clear();
        self.record(Recorded::WaitFrame);
    }

    fn is_key_pressed(&self, key: Key) -> (r: bool) {
        self.keys.is_key_pressed(key)
    }

    fn is_key_just_pressed(&self, key: Key) -> (r: bool) {
        self.keys.is_key_just_pressed(key)
    }

    fn is_key_just_released(&self, key: Key) -> (r: bool) {
        self.keys.is_key_just_released(key)
    }
}

} // verus!
