use vstd::prelude::*;
use crate::command::{event_views, ControlCommand, EventView, LifecycleEvent};
use crate::frame::{Frame, FrameView};
use crate::resample::{fits_resampler, resample, ResampleError};

verus! {

/// Timestamps are nanoseconds on the caller's clock.
pub const NANOS_PER_SECOND: u64 = 1_000_000_000;

/// The three settings that commands write.
#[derive(Clone, Copy, Debug, PartialEq, Eq, Structural)]
pub enum Field {
    Width,
    Height,
    FrameRate,
}

/// The value that `cmd` writes to `field`, if it writes to it at all.
pub open spec fn written(cmd: ControlCommand, field: Field) -> Option<i32> {
    match (cmd, field) {
        (ControlCommand::SetFrameRate(r), Field::FrameRate) => Some(r),
        (ControlCommand::SetResolution(w, _), Field::Width) => Some(w),
        (ControlCommand::SetResolution(_, h), Field::Height) => Some(h),
        (ControlCommand::SetWidth(w), Field::Width) => Some(w),
        (ControlCommand::SetHeight(h), Field::Height) => Some(h),
        _ => None,
    }
}

/// The value of `field` once `cmds` were applied in order to a field that
/// held `initial`: what the last command that writes to it wrote.
pub open spec fn settled(cmds: Seq<ControlCommand>, field: Field, initial: i32) -> i32
    decreases cmds.len(),
{
    if cmds.len() == 0 {
        initial
    } else {
        match written(cmds.last(), field) {
            Some(v) => v,
            None => settled(cmds.drop_last(), field, initial),
        }
    }
}

/// What the worker does with one captured frame.
#[derive(Clone, Copy, Debug, PartialEq, Eq, Structural)]
pub enum FrameAction {
    /// Signal `Closed` and end the capture session.
    Close,
    /// Drop the frame: the pipeline is closed, or the frame came too early.
    Skip,
    /// Read the frame's buffer and deliver it.
    Capture,
}

/// The state of the capture worker. It is driven from one place, once per
/// captured frame, and never shared.
#[derive(Clone, Copy, Debug, PartialEq, Eq, Structural)]
pub struct CaptureWorker {
    /// Target width; zero or less means the source's own.
    pub width: i32,
    /// Target height; zero or less means the source's own.
    pub height: i32,
    /// Frames per second at most; zero or less means no limit.
    pub frame_rate: i32,
    /// When the last frame passed the rate limit; `None` until one has.
    pub last_emission: Option<u64>,
    /// Whether `Closed` has been signalled.
    pub closed: bool,
}

impl CaptureWorker {
    /// The state after one command.
    pub open spec fn step(self, cmd: ControlCommand) -> CaptureWorker {
        match cmd {
            ControlCommand::SetFrameRate(r) => CaptureWorker { frame_rate: r, ..self },
            ControlCommand::SetResolution(w, h) => CaptureWorker { width: w, height: h, ..self },
            ControlCommand::SetWidth(w) => CaptureWorker { width: w, ..self },
            ControlCommand::SetHeight(h) => CaptureWorker { height: h, ..self },
            ControlCommand::Stop => CaptureWorker { closed: true, ..self },
        }
    }

    /// The state after `cmds`: each field holds the last value written to it,
    /// and the worker is closed if it was or if a `Stop` is among them.
    pub open spec fn after(self, cmds: Seq<ControlCommand>) -> CaptureWorker {
        CaptureWorker {
            width: settled(cmds, Field::Width, self.width),
            height: settled(cmds, Field::Height, self.height),
            frame_rate: settled(cmds, Field::FrameRate, self.frame_rate),
            last_emission: self.last_emission,
            closed: self.closed || cmds.contains(ControlCommand::Stop),
        }
    }

    /// Whether `cmds` close a worker: it is open and a `Stop` is among them.
    pub open spec fn closes(self, cmds: Seq<ControlCommand>) -> bool {
        !self.closed && cmds.contains(ControlCommand::Stop)
    }

    /// Whether a frame that arrives at `now` passes the rate gate: there is
    /// no limit, or no frame has passed yet, or at least `1 / frame_rate`
    /// seconds went by since the last one passed.
    pub open spec fn gate_open(self, now: u64) -> bool {
        self.frame_rate <= 0 || match self.last_emission {
            None => true,
            Some(last) => apart(last, now, self.frame_rate),
        }
    }

    /// The state after a frame at `now` was put to the rate limit.
    pub open spec fn gated(self, now: u64) -> CaptureWorker {
        if self.frame_rate > 0 && self.gate_open(now) {
            CaptureWorker { last_emission: Some(now), ..self }
        } else {
            self
        }
    }

    /// The timestamps of the frames that are emitted, of frames that arrive
    /// at `times` in this order while the settings stay as they are. A closed
    /// worker emits none.
    pub open spec fn emissions(self, times: Seq<u64>) -> Seq<u64>
        decreases times.len(),
    {
        if times.len() == 0 || self.closed {
            Seq::empty()
        } else {
            let rest = self.gated(times[0]).emissions(times.drop_first());
            if self.gate_open(times[0]) {
                seq![times[0]] + rest
            } else {
                rest
            }
        }
    }

    /// The dimensions to resample a `source_width` by `source_height` frame
    /// to; `None` where it goes out as it came: the target is unset, equals
    /// the source, or the source has no pixels.
    pub open spec fn resample_target(self, source_width: u32, source_height: u32) -> Option<
        (u32, u32),
    > {
        if self.width <= 0 || self.height <= 0 || source_width == 0 || source_height == 0 {
            None
        } else if self.width == source_width && self.height == source_height {
            None
        } else {
            Some((self.width as u32, self.height as u32))
        }
    }

    /// Whether `out` is an answer that the worker may give for `source`.
    /// Where nothing is resampled the answer is the source. Where the
    /// dimensions are beyond the resampler it is `TooLarge`. Otherwise it is a
    /// well-formed frame of the target dimensions, or `Rejected`.
    pub open spec fn delivers(self, source: FrameView, out: Result<FrameView, ResampleError>) -> bool {
        match self.resample_target(source.width, source.height) {
            None => out == Ok::<_, ResampleError>(source),
            Some((w, h)) => if fits_resampler(source.width, source.height, w, h) {
                out == Err::<FrameView, _>(ResampleError::Rejected) || (out matches Ok(f) && f.width
                    == w && f.height == h && f.wf())
            } else {
                out == Err::<FrameView, _>(ResampleError::TooLarge)
            },
        }
    }

    /// What the worker does with a frame that arrives at `now` after `cmds`.
    pub open spec fn decide(self, cmds: Seq<ControlCommand>, now: u64) -> FrameAction {
        if self.closes(cmds) {
            FrameAction::Close
        } else if self.closed {
            FrameAction::Skip
        } else if self.after(cmds).gate_open(now) {
            FrameAction::Capture
        } else {
            FrameAction::Skip
        }
    }

    /// The state after a frame that arrives at `now` after `cmds`.
    pub open spec fn after_frame(self, cmds: Seq<ControlCommand>, now: u64) -> CaptureWorker {
        if self.after(cmds).closed {
            self.after(cmds)
        } else {
            self.after(cmds).gated(now)
        }
    }

    /// An open worker with the given targets, where a missing one is zero,
    /// and no emission on record: its first frame passes the rate limit
    /// whenever it comes.
    pub fn new(width: Option<i32>, height: Option<i32>, frame_rate: Option<i32>) -> (out:
        CaptureWorker)
        ensures
            out == (CaptureWorker {
                width: width.unwrap_or(0),
                height: height.unwrap_or(0),
                frame_rate: frame_rate.unwrap_or(0),
                last_emission: None,
                closed: false,
            }),
            forall|now: u64| out.gate_open(now),
    {
        CaptureWorker {
            width: match width {
                Some(w) => w,
                None => 0,
            },
            height: match height {
                Some(h) => h,
                None => 0,
            },
            frame_rate: match frame_rate {
                Some(r) => r,
                None => 0,
            },
            last_emission: None,
            closed: false,
        }
    }

    /// Applies one command. Returns whether it closed the worker.
    pub fn apply(&mut self, cmd: ControlCommand) -> (close: bool)
        ensures
            *final(self) == old(self).step(cmd),
            close == (!old(self).closed && cmd == ControlCommand::Stop),
    {
        match cmd {
            ControlCommand::SetFrameRate(r) => {
                self.frame_rate = r;
                false
            },
            ControlCommand::SetResolution(w, h) => {
                self.width = w;
                self.height = h;
                false
            },
            ControlCommand::SetWidth(w) => {
                self.width = w;
                false
            },
            ControlCommand::SetHeight(h) => {
                self.height = h;
                false
            },
            ControlCommand::Stop => {
                let was_open = !self.closed;
                self.closed = true;
                was_open
            },
        }
    }

    /// Applies the pending commands in arrival order. Returns whether they
    /// closed the worker, which happens at most once in its life.
    pub fn drain(&mut self, cmds: &Vec<ControlCommand>) -> (close: bool)
        ensures
            *final(self) == old(self).after(cmds@),
            close == old(self).closes(cmds@),
    {
        let mut close = false;
        let mut i: usize = 0;
        proof {
            lemma_after_nothing(*self);
            assert(cmds@.take(0) =~= Seq::empty());
        }
        while i < cmds.len()
            invariant
                i <= cmds.len(),
                *self == old(self).after(cmds@.take(i as int)),
                close == old(self).closes(cmds@.take(i as int)),
            decreases cmds.len() - i,
        {
            proof {
                lemma_after_push(*old(self), cmds@.take(i as int), cmds@[i as int]);
                assert(cmds@.take(i as int).push(cmds@[i as int]) =~= cmds@.take(i + 1));
            }
            let closed_now = self.apply(cmds[i]);
            close = close || closed_now;
            i += 1;
        }
        proof {
            assert(cmds@.take(i as int) =~= cmds@);
        }
        close
    }

    /// Puts a frame that arrives at `now` to the rate gate. A frame that
    /// passes a limited gate becomes the one that the next is measured from.
    pub fn pass_gate(&mut self, now: u64) -> (pass: bool)
        ensures
            pass == old(self).gate_open(now),
            *final(self) == old(self).gated(now),
    {
        if self.frame_rate <= 0 {
            return true;
        }
        let last: u64 = match self.last_emission {
            Some(last) => last,
            None => {
                self.last_emission = Some(now);
                return true;
            },
        };
        if now < last {
            assert((now - last) * self.frame_rate < 0) by (nonlinear_arith)
                requires
                    now - last < 0,
                    self.frame_rate > 0,
            ;
            return false;
        }
        let elapsed: u64 = now - last;
        assert(0 <= elapsed * self.frame_rate <= 0xFFFF_FFFF_FFFF_FFFF * 0x7FFF_FFFF)
            by (nonlinear_arith)
            requires
                0 <= elapsed <= 0xFFFF_FFFF_FFFF_FFFF,
                0 < self.frame_rate <= 0x7FFF_FFFF,
        ;
        let scaled: u128 = (elapsed as u128) * (self.frame_rate as u128);
        if scaled >= NANOS_PER_SECOND as u128 {
            self.last_emission = Some(now);
            true
        } else {
            false
        }
    }

    /// The first half of one invocation: drains `cmds`, then puts the frame
    /// to the rate gate unless the worker is closed. Only on `Capture` is the
    /// frame's buffer to be read.
    pub fn begin_frame(&mut self, cmds: &Vec<ControlCommand>, now: u64) -> (action: FrameAction)
        ensures
            action == old(self).decide(cmds@, now),
            action == FrameAction::Close <==> old(self).signals_closed(
                Invocation::FrameArrived(cmds@),
            ),
            *final(self) == old(self).after_frame(cmds@, now),
            final(self).closed == old(self).invoked(Invocation::FrameArrived(cmds@)).closed,
    {
        let was_closed = self.closed;
        let close = self.drain(cmds);
        if close {
            FrameAction::Close
        } else if was_closed {
            FrameAction::Skip
        } else if self.pass_gate(now) {
            FrameAction::Capture
        } else {
            FrameAction::Skip
        }
    }

    /// The second half: applies the resolution policy to the frame that was
    /// read. The frame goes out as it came where no target is set, where the
    /// target is the source's size, or where the source has no pixels;
    /// otherwise it is resampled to the target.
    pub fn deliver(&self, source: Frame) -> (out: Result<Frame, ResampleError>)
        requires
            source.wf(),
        ensures
            self.delivers(
                source@,
                match out {
                    Ok(f) => Ok(f@),
                    Err(e) => Err(e),
                },
            ),
            out matches Ok(f) ==> f.wf(),
    {
        if self.width <= 0 || self.height <= 0 || source.width == 0 || source.height == 0 {
            return Ok(source);
        }
        let width: u32 = self.width as u32;
        let height: u32 = self.height as u32;
        if width == source.width && height == source.height {
            return Ok(source);
        }
        resample(source, width, height)
    }

    /// One invocation with the frame at hand: the events to send, in order.
    /// `Close` gives the one event `Closed`, `Skip` gives none, `Capture`
    /// gives the delivered frame or the resampler's failure.
    pub fn on_frame_arrived(&mut self, cmds: &Vec<ControlCommand>, now: u64, source: Frame) -> (out:
        Result<Vec<LifecycleEvent>, ResampleError>)
        requires
            source.wf(),
        ensures
            *final(self) == old(self).after_frame(cmds@, now),
            old(self).decide(cmds@, now) == FrameAction::Close ==> (out matches Ok(ev)
                && event_views(ev@) == seq![EventView::Closed]),
            old(self).decide(cmds@, now) == FrameAction::Skip ==> (out matches Ok(ev) && ev@.len()
                == 0),
            old(self).decide(cmds@, now) == FrameAction::Capture ==> match out {
                Ok(ev) => ev@.len() == 1 && (ev@[0] matches LifecycleEvent::FrameDelivered(f)
                    && f.wf() && final(self).delivers(source@, Ok(f@))),
                Err(e) => final(self).delivers(source@, Err(e)),
            },
    {
        let mut events: Vec<LifecycleEvent> = Vec::new();
        match self.begin_frame(cmds, now) {
            FrameAction::Close => {
                events.push(LifecycleEvent::Closed);
                assert(event_views(events@) =~= seq![EventView::Closed]);
                Ok(events)
            },
            FrameAction::Skip => Ok(events),
            FrameAction::Capture => match self.deliver(source) {
                Ok(frame) => {
                    events.push(LifecycleEvent::FrameDelivered(frame));
                    Ok(events)
                },
                Err(e) => Err(e),
            },
        }
    }

    /// The capture session ended. Gives the `Closed` event unless it has been
    /// signalled before, so that it is signalled once whichever came first.
    pub fn on_closed(&mut self) -> (out: Option<LifecycleEvent>)
        ensures
            *final(self) == old(self).invoked(Invocation::SessionEnded),
            out is Some <==> old(self).signals_closed(Invocation::SessionEnded),
            out matches Some(e) ==> e@ == EventView::Closed,
    {
        if self.closed {
            None
        } else {
            self.closed = true;
            Some(LifecycleEvent::Closed)
        }
    }
}

/// Whether a frame at `later` is at least `1 / rate` seconds after one at
/// `earlier`.
pub open spec fn apart(earlier: u64, later: u64, rate: i32) -> bool {
    (later - earlier) * rate >= NANOS_PER_SECOND
}

/// Last write wins: where `cmds[i]` writes to `field` and no later command
/// does, the field ends with what `cmds[i]` wrote, whatever stands before it
/// and whatever commands that do not write to the field stand between.
pub proof fn lemma_last_write_wins(
    cmds: Seq<ControlCommand>,
    field: Field,
    initial: i32,
    i: int,
)
    requires
        0 <= i < cmds.len(),
        written(cmds[i], field) is Some,
        forall|j: int| i < j < cmds.len() ==> written(#[trigger] cmds[j], field) is None,
    ensures
        settled(cmds, field, initial) == written(cmds[i], field).unwrap(),
    decreases cmds.len(),
{
    if i < cmds.len() - 1 {
        lemma_last_write_wins(cmds.drop_last(), field, initial, i);
    }
}

/// A command that does not write to `field` may stand anywhere among the
/// others: the field ends with the same value.
pub proof fn lemma_settled_skips_others(
    cmds: Seq<ControlCommand>,
    field: Field,
    initial: i32,
    at: int,
    cmd: ControlCommand,
)
    requires
        0 <= at <= cmds.len(),
        written(cmd, field) is None,
    ensures
        settled(cmds.insert(at, cmd), field, initial) == settled(cmds, field, initial),
    decreases cmds.len(),
{
    let longer = cmds.insert(at, cmd);
    if at == cmds.len() {
        assert(longer.drop_last() =~= cmds);
        assert(longer.last() == cmd);
    } else {
        assert(longer.drop_last() =~= cmds.drop_last().insert(at, cmd));
        assert(longer.last() == cmds.last());
        lemma_settled_skips_others(cmds.drop_last(), field, initial, at, cmd);
    }
}

/// A field that no command writes to keeps its value.
pub proof fn lemma_unwritten_field_keeps(cmds: Seq<ControlCommand>, field: Field, initial: i32)
    requires
        forall|j: int| 0 <= j < cmds.len() ==> written(#[trigger] cmds[j], field) is None,
    ensures
        settled(cmds, field, initial) == initial,
    decreases cmds.len(),
{
    if cmds.len() > 0 {
        lemma_unwritten_field_keeps(cmds.drop_last(), field, initial);
    }
}

/// With a limit set, each emitted frame comes at least `1 / frame_rate`
/// seconds after the one before it, and the first of them that long after
/// the emission on record, where there is one.
pub proof fn lemma_emissions_apart(w: CaptureWorker, times: Seq<u64>)
    requires
        w.frame_rate > 0,
    ensures
        (w.emissions(times).len() > 0 && w.last_emission is Some) ==> apart(
            w.last_emission.unwrap(),
            w.emissions(times)[0],
            w.frame_rate,
        ),
        forall|k: int|
            0 <= k < w.emissions(times).len() - 1 ==> apart(
                #[trigger] w.emissions(times)[k],
                w.emissions(times)[k + 1],
                w.frame_rate,
            ),
    decreases times.len(),
{
    if times.len() > 0 && !w.closed {
        let next = w.gated(times[0]);
        let rest = next.emissions(times.drop_first());
        lemma_emissions_apart(next, times.drop_first());
        if w.gate_open(times[0]) {
            let all = w.emissions(times);
            assert(all == seq![times[0]] + rest);
            assert(all[0] == times[0]);
            assert forall|k: int| 0 <= k < all.len() - 1 implies apart(
                #[trigger] all[k],
                all[k + 1],
                w.frame_rate,
            ) by {
                assert(all[k + 1] == rest[k]);
                if k > 0 {
                    assert(all[k] == rest[k - 1]);
                }
            }
        }
    }
}

/// Without a limit an open worker emits every frame.
pub proof fn lemma_unlimited_emits_all(w: CaptureWorker, times: Seq<u64>)
    requires
        w.frame_rate <= 0,
        !w.closed,
    ensures
        w.emissions(times) == times,
    decreases times.len(),
{
    if times.len() > 0 {
        lemma_unlimited_emits_all(w, times.drop_first());
        assert(seq![times[0]] + times.drop_first() =~= times);
    }
}

/// Once closed, always closed, and nothing closes a worker again: no later
/// commands and no end of the session give a second `Closed`.
pub proof fn lemma_closed_once(w: CaptureWorker, cmds: Seq<ControlCommand>, now: u64)
    requires
        w.closed,
    ensures
        !w.closes(cmds),
        w.after(cmds).closed,
        w.after_frame(cmds, now).closed,
        w.decide(cmds, now) == FrameAction::Skip,
{
}

/// A `Stop` among the commands closes an open worker with that very drain,
/// and leaves it closed.
pub proof fn lemma_stop_closes(w: CaptureWorker, cmds: Seq<ControlCommand>, now: u64)
    requires
        !w.closed,
        cmds.contains(ControlCommand::Stop),
    ensures
        w.closes(cmds),
        w.decide(cmds, now) == FrameAction::Close,
        w.after_frame(cmds, now).closed,
{
}

/// One call into the worker: a captured frame with the commands that were
/// pending when it came, or the notice that the session has ended.
pub ghost enum Invocation {
    FrameArrived(Seq<ControlCommand>),
    SessionEnded,
}

impl CaptureWorker {
    /// Whether this invocation makes the worker signal `Closed`.
    pub open spec fn signals_closed(self, invocation: Invocation) -> bool {
        match invocation {
            Invocation::FrameArrived(cmds) => self.closes(cmds),
            Invocation::SessionEnded => !self.closed,
        }
    }

    /// The settings and the closed flag after this invocation. When the frame
    /// arrived plays no part in either.
    pub open spec fn invoked(self, invocation: Invocation) -> CaptureWorker {
        match invocation {
            Invocation::FrameArrived(cmds) => self.after(cmds),
            Invocation::SessionEnded => CaptureWorker { closed: true, ..self },
        }
    }
}

/// Whether this invocation closes an open worker: a frame whose commands
/// hold a `Stop`, or the end of the session.
pub open spec fn is_closing(invocation: Invocation) -> bool {
    match invocation {
        Invocation::FrameArrived(cmds) => cmds.contains(ControlCommand::Stop),
        Invocation::SessionEnded => true,
    }
}

/// How often `Closed` is signalled over a run of invocations.
pub open spec fn closes_in_run(w: CaptureWorker, run: Seq<Invocation>) -> nat
    decreases run.len(),
{
    if run.len() == 0 {
        0
    } else {
        let here: nat = if w.signals_closed(run[0]) {
            1
        } else {
            0
        };
        here + closes_in_run(w.invoked(run[0]), run.drop_first())
    }
}

/// `Closed` is signalled at most once over any run, never by a worker that
/// is closed already, and exactly once by an open worker whose run holds a
/// `Stop` or the end of the session, however many of them follow.
pub proof fn lemma_closed_exactly_once(w: CaptureWorker, run: Seq<Invocation>)
    ensures
        closes_in_run(w, run) <= 1,
        w.closed ==> closes_in_run(w, run) == 0,
        (!w.closed && exists|k: int| 0 <= k < run.len() && is_closing(#[trigger] run[k]))
            ==> closes_in_run(w, run) == 1,
    decreases run.len(),
{
    if run.len() > 0 {
        let rest = run.drop_first();
        lemma_closed_exactly_once(w.invoked(run[0]), rest);
        if !w.closed && !is_closing(run[0]) {
            if exists|k: int| 0 <= k < run.len() && is_closing(#[trigger] run[k]) {
                let k = choose|k: int| 0 <= k < run.len() && is_closing(#[trigger] run[k]);
                assert(rest[k - 1] == run[k]);
            }
        }
    }
}

/// The first frame of a worker without an emission on record is emitted
/// whenever it comes, and the next one only `1 / frame_rate` seconds later.
pub proof fn lemma_first_frame_passes(w: CaptureWorker, first: u64, second: u64)
    requires
        !w.closed,
        w.last_emission is None,
    ensures
        w.decide(Seq::empty(), first) == FrameAction::Capture,
        w.frame_rate > 0 ==> w.after_frame(Seq::empty(), first).last_emission == Some(first),
        w.frame_rate > 0 ==> (w.after_frame(Seq::empty(), first).decide(Seq::empty(), second)
            == FrameAction::Capture <==> apart(first, second, w.frame_rate)),
{
    lemma_after_nothing(w);
    lemma_after_nothing(w.after_frame(Seq::empty(), first));
}

/// No commands change nothing.
pub proof fn lemma_after_nothing(w: CaptureWorker)
    ensures
        w.after(Seq::empty()) == w,
        !w.closes(Seq::empty()),
{
}

/// Applying `cmds` and then `cmd` is applying `cmds` with `cmd` at its end.
pub proof fn lemma_after_push(w: CaptureWorker, cmds: Seq<ControlCommand>, cmd: ControlCommand)
    ensures
        w.after(cmds.push(cmd)) == w.after(cmds).step(cmd),
        w.closes(cmds.push(cmd)) == (w.closes(cmds) || (!w.closed && cmd == ControlCommand::Stop)),
{
    let all = cmds.push(cmd);
    assert(all.drop_last() =~= cmds);
    assert(all.last() == cmd);
    assert(all.contains(ControlCommand::Stop) == (cmds.contains(ControlCommand::Stop) || cmd
        == ControlCommand::Stop)) by {
        if cmds.contains(ControlCommand::Stop) {
            let k = choose|k: int| 0 <= k < cmds.len() && cmds[k] == ControlCommand::Stop;
            assert(all[k] == ControlCommand::Stop);
        }
        if cmd == ControlCommand::Stop {
            assert(all[cmds.len() as int] == ControlCommand::Stop);
        }
    }
}

} // verus!
