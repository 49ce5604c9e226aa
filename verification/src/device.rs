//! Raw devices, and the driver that turns one into a backend: the device
//! does the input and output, the driver keeps the key state and paces the
//! frames.

use vstd::prelude::*;
use crate::backend::{Backend, DrawCall, RenderMode, Request};
use crate::cell::Cell;
use crate::input::{KeyEvent, KeySets, KeyState};
use crate::key::Key;
use crate::pacer::{frame_millis, remaining, FramePacer};

verus! {

/// What a device hands over when its keyboard is sampled.
#[derive(Debug, PartialEq, Eq)]
pub enum KeyInput {
    /// The keys that are down right now, from a device that can only be
    /// polled.
    Down(Vec<Key>),
    /// The presses and releases since the last sampling, oldest first, from a
    /// device that queues them.
    Events(Vec<KeyEvent>),
}

/// The sets after a sampling pass that was handed `input`.
pub open spec fn sampled(sets: KeySets, input: KeyInput) -> KeySets {
    match input {
        KeyInput::Down(down) => sets.polled(down@.to_set().remove(Key::Unknown)),
        KeyInput::Events(events) => sets.drained(events@),
    }
}

/// A raw output and input device. Nothing is asked of an implementation but
/// to do the input and output: a device that cannot carry out a request does
/// not return. Codes that the device has no key for are handed over as
/// `Unknown`.
pub trait Device {
    /// Says how this device wants to be brought up to date.
    fn render_mode(&self) -> RenderMode;

    /// Sets up the output surface for a grid of `width` by `height` cells.
    fn init(&mut self, title: &str, width: u32, height: u32);

    /// Shows `cell` at column `x` of row `y`.
    fn draw_cell(&mut self, x: u32, y: u32, cell: &Cell);

    /// Makes everything drawn so far visible.
    fn flush(&mut self);

    /// Samples the keyboard.
    fn read_keys(&mut self) -> KeyInput;

    /// The time in milliseconds on a clock that never runs backwards.
    fn now(&self) -> u64;

    /// Blocks for `millis` milliseconds.
    fn sleep(&mut self, millis: u64);
}

/// A backend made of a raw device, the key state and a frame pacer.
pub struct Driver<D: Device> {
    device: D,
    mode: RenderMode,
    keys: KeyState,
    pacer: FramePacer,
    requests: Ghost<Seq<Request>>,
}

impl<D: Device> Driver<D> {
    /// The raw device.
    pub closed spec fn spec_device(&self) -> D {
        self.device
    }

    /// The frame pacer.
    pub closed spec fn spec_pacer(&self) -> FramePacer {
        self.pacer
    }

    /// Takes charge of `device`: no key is down, frames are not paced, and the
    /// first frame begins now.
    pub fn new(device: D) -> (driver: Self)
        ensures
            driver.requests() == Seq::<Request>::empty(),
            driver.keys() == KeySets::idle(),
            driver.spec_pacer().spec_target() == None::<u64>,
    {
        let mode = device.render_mode();
        let now: u64 = device.now();
        Driver {
            device,
            mode,
            keys: KeyState::new(),
            pacer: FramePacer::new(now),
            requests: Ghost(Seq::empty()),
        }
    }

    /// The device.
    pub fn device(&self) -> (d: &D)
        ensures
            *d == self.spec_device(),
    {
        &self.device
    }

    /// The frame pacer.
    pub fn pacer(&self) -> (p: &FramePacer)
        ensures
            *p == self.spec_pacer(),
    {
        &self.pacer
    }

    /// The part of a frame boundary that decides: takes in what the keyboard
    /// sampling handed over, and says how many milliseconds to wait when the
    /// clock shows `now`.
    pub fn advance(&mut self, input: &KeyInput, now: u64) -> (wait: u64)
        ensures
            final(self).keys() == sampled(old(self).keys(), *input),
            final(self).keys().consistent(),
            wait == remaining(
                old(self).spec_pacer().spec_target(),
                old(self).spec_pacer().spec_frame_start(),
                now,
            ),
            final(self).spec_pacer() == old(self).spec_pacer(),
            final(self).requests() == old(self).requests(),
            final(self).mode() == old(self).mode(),
    {
        match input {
            KeyInput::Down(down) => self.keys.update_from_poll(down),
            KeyInput::Events(events) => self.keys.update_from_events(events),
        }
        self.pacer.delay(now)
    }
}

impl<D: Device> Backend for Driver<D> {
    /// The requests that were passed on to the device, oldest first.
    closed spec fn requests(&self) -> Seq<Request> {
        self.requests@
    }

    closed spec fn mode(&self) -> RenderMode {
        self.mode
    }

    closed spec fn keys(&self) -> KeySets {
        self.keys@
    }

    fn render_mode(&self) -> (m: RenderMode) {
        self.mode
    }

    fn init(&mut self, title: &str, width: u32, height: u32)
        ensures
            final(self).spec_pacer() == old(self).spec_pacer(),
    {
        self.device.init(title, width, height);
        proof {
            self.requests@ = self.requests@.push(Request::Init { title: title@, width, height });
        }
    }

    fn set_fps(&mut self, fps: Option<u32>)
        ensures
            final(self).spec_pacer().spec_target() == frame_millis(fps),
            final(self).spec_pacer().spec_frame_start() == old(
                self,
            ).spec_pacer().spec_frame_start(),
    {
        self.pacer.set_fps(fps);
        proof {
            self.requests@ = self.requests@.push(Request::SetFps(fps));
        }
    }

    fn draw_cell(&mut self, x: u32, y: u32, cell: &Cell)
        ensures
            final(self).spec_pacer() == old(self).spec_pacer(),
    {
        self.device.draw_cell(x, y, cell);
        proof {
            self.requests@ = self.requests@.push(Request::Draw(DrawCall { x, y, cell: *cell }));
        }
    }

    fn flush(&mut self)
        ensures
            final(self).spec_pacer() == old(self).spec_pacer(),
    {
        self.device.flush();
        proof {
            self.requests@ = self.requests@.push(Request::Flush);
        }
    }

    /// Samples the keyboard, waits out what is left of the frame, and begins
    /// the next frame when the wait is over.
    fn wait_frame(&mut self)
        ensures
            final(self).spec_pacer().spec_target() == old(self).spec_pacer().spec_target(),
    {
        let input = self.device.read_keys();
        let now: u64 = self.device.now();
        let wait: u64 = self.advance(&input, now);
        if wait > 0 {
            self.device.sleep(wait);
        }
        let begun: u64 = self.device.now();
        self.pacer.restart(begun);
        proof {
            self.requests@ = self.requests@.push(Request::WaitFrame);
        }
    }

    fn is_key_pressed(&self, key: Key) -> (r: bool) {
        self.keys.is_key_pressed(key)
    }

    fn is_key_just_pressed(&self, key: Key) -> (r: bool) {
        self.keys.is_key_just_pressed(key)
    }

    fn is_key_just_released(&self, key: Key) -> (r: bool) {
        self.keys.is_key_just_released(key)
    }
}

} // verus!
