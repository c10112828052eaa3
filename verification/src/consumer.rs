use vstd::prelude::*;
use crate::command::{ControlCommand, EventView, LifecycleEvent};
use crate::frame::{empty_frame, Frame, FrameView};

verus! {

/// What the consumer handle knows: the settings it last asked for, the frame
/// it holds, and whether the pipeline was still running when it last looked.
pub ghost struct ConsumerState {
    pub width: i32,
    pub height: i32,
    pub frame_rate: i32,
    pub frame: FrameView,
    pub running: bool,
}

impl ConsumerState {
    /// The state after one event. A frame replaces the held one while the
    /// pipeline runs; `Closed` ends the run and empties the held frame.
    pub open spec fn absorb(self, event: EventView) -> ConsumerState {
        match event {
            EventView::FrameDelivered(f) => if self.running {
                ConsumerState { frame: f, ..self }
            } else {
                self
            },
            EventView::Closed => ConsumerState { frame: empty_frame(), running: false, ..self },
        }
    }

    /// The state after `events`, in arrival order.
    pub open spec fn absorb_all(self, events: Seq<LifecycleEvent>) -> ConsumerState
        decreases events.len(),
    {
        if events.len() == 0 {
            self
        } else {
            self.absorb_all(events.drop_last()).absorb(events.last()@)
        }
    }
}

/// How many of `events` are `Closed`.
pub open spec fn closed_count(events: Seq<LifecycleEvent>) -> nat
    decreases events.len(),
{
    if events.len() == 0 {
        0
    } else {
        closed_count(events.drop_last()) + if events.last()@ == EventView::Closed {
            1nat
        } else {
            0nat
        }
    }
}

/// What a refresh hands back.
pub struct Refreshed {
    /// The held frame after the drain, or the empty frame where the caller
    /// asked for none.
    pub frame: Frame,
    /// How many `Closed` events were drained: the close callback is owed
    /// once for each.
    pub closed_events: usize,
}

/// The caller's side of a pipeline. `C` is whatever the caller registers to
/// be told of the close.
pub struct ConsumerHandle<C> {
    pub width: i32,
    pub height: i32,
    pub frame_rate: i32,
    pub frame: Frame,
    pub running: bool,
    pub close_callback: Option<C>,
}

impl<C> View for ConsumerHandle<C> {
    type V = ConsumerState;

    open spec fn view(&self) -> ConsumerState {
        ConsumerState {
            width: self.width,
            height: self.height,
            frame_rate: self.frame_rate,
            frame: self.frame@,
            running: self.running,
        }
    }
}

impl<C> ConsumerHandle<C> {
    /// A running handle that mirrors the given settings, holds the empty
    /// frame and has no close callback.
    pub fn new(width: i32, height: i32, frame_rate: i32) -> (out: Self)
        ensures
            out@ == (ConsumerState {
                width,
                height,
                frame_rate,
                frame: empty_frame(),
                running: true,
            }),
            out.close_callback is None,
    {
        ConsumerHandle {
            width,
            height,
            frame_rate,
            frame: Frame::empty(),
            running: true,
            close_callback: None,
        }
    }

    /// Asks for a frame rate. Returns the command to send.
    pub fn set_frame_rate(&mut self, frame_rate: i32) -> (cmd: ControlCommand)
        ensures
            cmd == ControlCommand::SetFrameRate(frame_rate),
            final(self)@ == (ConsumerState { frame_rate, ..old(self)@ }),
            final(self).close_callback == old(self).close_callback,
    {
        self.frame_rate = frame_rate;
        ControlCommand::SetFrameRate(frame_rate)
    }

    /// Asks for a resolution. Returns the command to send.
    pub fn set_resolution(&mut self, width: i32, height: i32) -> (cmd: ControlCommand)
        ensures
            cmd == ControlCommand::SetResolution(width, height),
            final(self)@ == (ConsumerState { width, height, ..old(self)@ }),
            final(self).close_callback == old(self).close_callback,
    {
        self.width = width;
        self.height = height;
        ControlCommand::SetResolution(width, height)
    }

    /// Asks for a width. Returns the command to send.
    pub fn set_width(&mut self, width: i32) -> (cmd: ControlCommand)
        ensures
            cmd == ControlCommand::SetWidth(width),
            final(self)@ == (ConsumerState { width, ..old(self)@ }),
            final(self).close_callback == old(self).close_callback,
    {
        self.width = width;
        ControlCommand::SetWidth(width)
    }

    /// Asks for a height. Returns the command to send.
    pub fn set_height(&mut self, height: i32) -> (cmd: ControlCommand)
        ensures
            cmd == ControlCommand::SetHeight(height),
            final(self)@ == (ConsumerState { height, ..old(self)@ }),
            final(self).close_callback == old(self).close_callback,
    {
        self.height = height;
        ControlCommand::SetHeight(height)
    }

    /// Asks the worker to stop. Returns the command to send. The handle
    /// keeps running until it drains the `Closed` event.
    pub fn stop(&self) -> (cmd: ControlCommand)
        ensures
            cmd == ControlCommand::Stop,
    {
        ControlCommand::Stop
    }

    /// The frame rate last asked for.
    pub fn get_frame_rate(&self) -> (out: i32)
        ensures
            out == self@.frame_rate,
    {
        self.frame_rate
    }

    /// The resolution last asked for, width first.
    pub fn get_resolution(&self) -> (out: (i32, i32))
        ensures
            out == (self@.width, self@.height),
    {
        (self.width, self.height)
    }

    /// The width last asked for.
    pub fn get_width(&self) -> (out: i32)
        ensures
            out == self@.width,
    {
        self.width
    }

    /// The height last asked for.
    pub fn get_height(&self) -> (out: i32)
        ensures
            out == self@.height,
    {
        self.height
    }

    /// Registers the close callback in place of any earlier one.
    pub fn on_close(&mut self, callback: C)
        ensures
            final(self).close_callback == Some(callback),
            final(self)@ == old(self)@,
    {
        self.close_callback = Some(callback);
    }

    /// Whether the pipeline was running when events were last drained.
    pub fn is_running(&self) -> (out: bool)
        ensures
            out == self@.running,
    {
        self.running
    }

    /// A copy of the held frame.
    pub fn get_frame(&self) -> (out: Frame)
        ensures
            out@ == self@.frame,
    {
        self.frame.clone()
    }

    /// Takes in one event. Returns whether it was `Closed`, for which the
    /// close callback is owed once.
    pub fn absorb(&mut self, event: LifecycleEvent) -> (closed: bool)
        ensures
            final(self)@ == old(self)@.absorb(event@),
            final(self).close_callback == old(self).close_callback,
            closed == (event@ == EventView::Closed),
    {
        match event {
            LifecycleEvent::FrameDelivered(frame) => {
                if self.running {
                    self.frame = frame;
                }
                false
            },
            LifecycleEvent::Closed => {
                self.running = false;
                self.frame = Frame::empty();
                true
            },
        }
    }

    /// Takes in the events that arrived, in order, and hands back the held
    /// frame, or the empty frame where `suppress_return` is set.
    pub fn refresh(&mut self, events: Vec<LifecycleEvent>, suppress_return: bool) -> (out:
        Refreshed)
        ensures
            final(self)@ == old(self)@.absorb_all(events@),
            events@.len() == 0 ==> final(self)@ == old(self)@,
            final(self).close_callback == old(self).close_callback,
            out.closed_events == closed_count(events@),
            out.frame@ == if suppress_return {
                empty_frame()
            } else {
                final(self)@.frame
            },
    {
        let ghost all = events@;
        let total: usize = events.len();
        let mut pending = events;
        let mut closed_events: usize = 0;
        let mut staged: Vec<LifecycleEvent> = Vec::new();
        // Reverse once so that the events can be taken by value in order.
        while pending.len() > 0
            invariant
                staged@.len() + pending@.len() == all.len(),
                forall|k: int| 0 <= k < pending@.len() ==> pending@[k] == all[k],
                forall|k: int|
                    0 <= k < staged@.len() ==> staged@[k] == all[all.len() - 1 - k],
            decreases pending@.len(),
        {
            let event = pending.pop().unwrap();
            staged.push(event);
        }
        let ghost done: int = 0;
        while staged.len() > 0
            invariant
                0 <= done <= all.len(),
                staged@.len() == all.len() - done,
                forall|k: int|
                    0 <= k < staged@.len() ==> staged@[k] == all[all.len() - 1 - k],
                self@ == old(self)@.absorb_all(all.take(done)),
                self.close_callback == old(self).close_callback,
                closed_events == closed_count(all.take(done)),
                closed_events <= done,
                all.len() == total,
            decreases staged@.len(),
        {
            let event = staged.pop().unwrap();
            proof {
                assert(event == all[done]);
                assert(all.take(done + 1).drop_last() =~= all.take(done));
                assert(all.take(done + 1).last() == all[done]);
                done = done + 1;
            }
            if self.absorb(event) {
                closed_events += 1;
            }
        }
        proof {
            assert(all.take(done) =~= all);
        }
        let frame = if suppress_return {
            Frame::empty()
        } else {
            self.frame.clone()
        };
        Refreshed { frame, closed_events }
    }
}

/// A refresh without events changes nothing: neither whether the handle
/// runs nor the frame it holds, however often it is repeated.
pub proof fn lemma_refresh_without_events(state: ConsumerState)
    ensures
        state.absorb_all(Seq::empty()) == state,
        closed_count(Seq::empty()) == 0,
{
}

/// A handle that has stopped running stays so and holds the empty frame,
/// whatever events follow.
pub proof fn lemma_stopped_stays(state: ConsumerState, events: Seq<LifecycleEvent>)
    requires
        !state.running,
        state.frame == empty_frame(),
    ensures
        state.absorb_all(events) == state,
    decreases events.len(),
{
    if events.len() > 0 {
        lemma_stopped_stays(state, events.drop_last());
    }
}

/// Running never comes back: a handle that runs after some events ran
/// before them.
pub proof fn lemma_running_never_returns(state: ConsumerState, events: Seq<LifecycleEvent>)
    ensures
        state.absorb_all(events).running ==> state.running,
    decreases events.len(),
{
    if events.len() > 0 {
        lemma_running_never_returns(state, events.drop_last());
    }
}

/// One `Closed` event stops a handle and empties its frame, and counts once.
pub proof fn lemma_closed_stops(state: ConsumerState)
    ensures
        !state.absorb_all(seq![LifecycleEvent::Closed]).running,
        state.absorb_all(seq![LifecycleEvent::Closed]).frame == empty_frame(),
        closed_count(seq![LifecycleEvent::Closed]) == 1,
{
    let one = seq![LifecycleEvent::Closed];
    assert(one.drop_last() =~= Seq::empty());
    assert(one.last() == LifecycleEvent::Closed);
    reveal_with_fuel(ConsumerState::absorb_all, 2);
    reveal_with_fuel(closed_count, 2);
}

} // verus!
