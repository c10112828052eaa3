use vstd::prelude::*;
use crate::consumer::{ConsumerHandle, ConsumerState};
use crate::frame::empty_frame;
use crate::target::{find_monitor_or_window, found, WindowOrMonitor};
use crate::worker::CaptureWorker;

verus! {

/// What a caller may ask for when it creates a pipeline. A setting that is
/// left out counts as zero: the source's own size, no rate limit.
#[derive(Clone, Copy, Debug, PartialEq, Eq, Structural)]
pub struct CreateOptions {
    pub target: Option<i32>,
    pub width: Option<i32>,
    pub height: Option<i32>,
    pub frame_rate: Option<i32>,
}

/// Why no pipeline was created.
#[derive(Clone, Copy, Debug, PartialEq, Eq, Structural)]
pub enum ConfigError {
    /// The target names neither a monitor nor a window.
    InvalidTarget,
}

impl ConfigError {
    /// The error in words.
    pub fn message(&self) -> (out: &'static str)
        ensures
            out@ == "Invalid target"@,
    {
        "Invalid target"
    }
}

/// The two halves of a new pipeline and the target to capture.
pub struct Pipeline<C> {
    pub target: WindowOrMonitor,
    pub worker: CaptureWorker,
    pub handle: ConsumerHandle<C>,
}

/// The value of a setting, zero where it was left out.
pub open spec fn or_zero(setting: Option<i32>) -> i32 {
    match setting {
        Some(v) => v,
        None => 0,
    }
}

/// The value of a setting, zero where it was left out.
pub fn setting_or_zero(setting: Option<i32>) -> (out: i32)
    ensures
        out == or_zero(setting),
{
    match setting {
        Some(v) => v,
        None => 0,
    }
}

/// Creates a pipeline for the target that `options` names among the given
/// monitors and windows. Fails, and starts nothing, exactly where the target
/// names none of them. The worker and the handle both begin with the
/// settings asked for; the worker has no emission on record, so its first
/// frame is emitted however soon it comes.
pub fn create<C>(options: CreateOptions, monitors: &Vec<usize>, windows: &Vec<i32>) -> (out:
    Result<Pipeline<C>, ConfigError>)
    ensures
        out is Err <==> found(or_zero(options.target), monitors@, windows@, None),
        out matches Err(e) ==> e == ConfigError::InvalidTarget,
        out matches Ok(p) ==> {
            &&& found(or_zero(options.target), monitors@, windows@, Some(p.target))
            &&& p.worker == (CaptureWorker {
                width: or_zero(options.width),
                height: or_zero(options.height),
                frame_rate: or_zero(options.frame_rate),
                last_emission: None,
                closed: false,
            })
            &&& p.handle@ == (ConsumerState {
                width: or_zero(options.width),
                height: or_zero(options.height),
                frame_rate: or_zero(options.frame_rate),
                frame: empty_frame(),
                running: true,
            })
            &&& p.handle.close_callback is None
            &&& forall|now: u64| p.worker.gate_open(now)
        },
{
    let width = setting_or_zero(options.width);
    let height = setting_or_zero(options.height);
    let frame_rate = setting_or_zero(options.frame_rate);
    match find_monitor_or_window(setting_or_zero(options.target), monitors, windows) {
        Some(target) => Ok(
            Pipeline {
                target,
                worker: CaptureWorker::new(Some(width), Some(height), Some(frame_rate)),
                handle: ConsumerHandle::new(width, height, frame_rate),
            },
        ),
        None => Err(ConfigError::InvalidTarget),
    }
}

} // verus!
