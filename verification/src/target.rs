use vstd::prelude::*;

verus! {

/// A capture target that was found, by its place in the list it came from.
#[derive(Clone, Copy, Debug, PartialEq, Eq, Structural)]
pub enum WindowOrMonitor {
    /// The window at this place among the windows.
    Window(usize),
    /// The monitor at this place among the monitors.
    Monitor(usize),
}

/// Whether a monitor with this index is the one that `target` names.
pub open spec fn names_monitor(target: i32, index: usize) -> bool {
    target >= 0 && index == target
}

/// Whether `at` is the first place in `ids` that satisfies `hit`.
pub open spec fn first_hit<T>(ids: Seq<T>, hit: spec_fn(T) -> bool, at: int) -> bool {
    &&& 0 <= at < ids.len()
    &&& hit(ids[at])
    &&& forall|k: int| 0 <= k < at ==> !hit(#[trigger] ids[k])
}

/// The target that `target` names among monitors with the indices
/// `monitors` and windows with the handles `windows`: the first monitor
/// whose index it is, else the first window whose handle it is.
pub open spec fn found(target: i32, monitors: Seq<usize>, windows: Seq<i32>, out: Option<
    WindowOrMonitor,
>) -> bool {
    match out {
        Some(WindowOrMonitor::Monitor(m)) => first_hit(
            monitors,
            |index: usize| names_monitor(target, index),
            m as int,
        ),
        Some(WindowOrMonitor::Window(w)) => {
            &&& forall|k: int|
                0 <= k < monitors.len() ==> !names_monitor(target, #[trigger] monitors[k])
            &&& first_hit(windows, |handle: i32| handle == target, w as int)
        },
        None => {
            &&& forall|k: int|
                0 <= k < monitors.len() ==> !names_monitor(target, #[trigger] monitors[k])
            &&& forall|k: int| 0 <= k < windows.len() ==> #[trigger] windows[k] != target
        },
    }
}

/// Resolves a numeric target against the enumerated monitors and windows.
/// Monitors are looked at first, each list in its order.
pub fn find_monitor_or_window(target: i32, monitors: &Vec<usize>, windows: &Vec<i32>) -> (out:
    Option<WindowOrMonitor>)
    ensures
        found(target, monitors@, windows@, out),
{
    if target >= 0 {
        let wanted: usize = target as usize;
        let mut m: usize = 0;
        while m < monitors.len()
            invariant
                m <= monitors.len(),
                target >= 0,
                wanted == target,
                forall|k: int| 0 <= k < m ==> !names_monitor(target, #[trigger] monitors@[k]),
            decreases monitors.len() - m,
        {
            if monitors[m] == wanted {
                return Some(WindowOrMonitor::Monitor(m));
            }
            m += 1;
        }
    }
    let mut w: usize = 0;
    while w < windows.len()
        invariant
            w <= windows.len(),
            forall|k: int|
                0 <= k < monitors.len() ==> !names_monitor(target, #[trigger] monitors@[k]),
            forall|k: int| 0 <= k < w ==> #[trigger] windows@[k] != target,
        decreases windows.len() - w,
    {
        if windows[w] == target {
            return Some(WindowOrMonitor::Window(w));
        }
        w += 1;
    }
    None
}

/// The answer is unique: two answers for the same lists are the same.
pub proof fn lemma_found_unique(
    target: i32,
    monitors: Seq<usize>,
    windows: Seq<i32>,
    a: Option<WindowOrMonitor>,
    b: Option<WindowOrMonitor>,
)
    requires
        found(target, monitors, windows, a),
        found(target, monitors, windows, b),
    ensures
        a == b,
{
    match (a, b) {
        (Some(WindowOrMonitor::Monitor(x)), Some(WindowOrMonitor::Monitor(y))) => {
            if x < y {
                assert(!names_monitor(target, monitors[x as int]));
            }
            if y < x {
                assert(!names_monitor(target, monitors[y as int]));
            }
        },
        (Some(WindowOrMonitor::Window(x)), Some(WindowOrMonitor::Window(y))) => {
            if x < y {
                assert(windows[x as int] != target);
            }
            if y < x {
                assert(windows[y as int] != target);
            }
        },
        (Some(WindowOrMonitor::Monitor(x)), _) => {
            assert(names_monitor(target, monitors[x as int]));
        },
        (_, Some(WindowOrMonitor::Monitor(y))) => {
            assert(names_monitor(target, monitors[y as int]));
        },
        (Some(WindowOrMonitor::Window(x)), None) => {
            assert(windows[x as int] == target);
        },
        (None, Some(WindowOrMonitor::Window(y))) => {
            assert(windows[y as int] == target);
        },
        (None, None) => {},
    }
}

} // verus!
