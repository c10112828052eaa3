use vstd::prelude::*;
use crate::frame::{Frame, FrameView};

verus! {

/// A request from the consumer handle to the capture worker.
#[derive(Clone, Copy, Debug, PartialEq, Eq, Structural)]
pub enum ControlCommand {
    SetFrameRate(i32),
    SetResolution(i32, i32),
    SetWidth(i32),
    SetHeight(i32),
    Stop,
}

/// A message from the capture worker to the consumer handle.
pub enum LifecycleEvent {
    FrameDelivered(Frame),
    Closed,
}

/// What a lifecycle event is, mathematically.
pub ghost enum EventView {
    FrameDelivered(FrameView),
    Closed,
}

impl View for LifecycleEvent {
    type V = EventView;

    open spec fn view(&self) -> EventView {
        match *self {
            LifecycleEvent::FrameDelivered(f) => EventView::FrameDelivered(f@),
            LifecycleEvent::Closed => EventView::Closed,
        }
    }
}

/// The views of a sequence of events, in order.
pub open spec fn event_views(events: Seq<LifecycleEvent>) -> Seq<EventView> {
    Seq::new(events.len(), |i: int| events[i]@)
}

} // verus!
