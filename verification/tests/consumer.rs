use screencap::command::{ControlCommand, LifecycleEvent};
use screencap::consumer::ConsumerHandle;
use screencap::frame::Frame;
use screencap::pipeline::{create, ConfigError, CreateOptions};
use screencap::target::{find_monitor_or_window, WindowOrMonitor};
use screencap::worker::CaptureWorker;

fn frame_of(width: u32, height: u32, byte: u8) -> Frame {
    Frame::new(vec![byte; (width * height * 4) as usize], width, height).unwrap()
}

#[test]
fn frame_new_checks_the_length() {
    assert!(Frame::new(vec![0; 24], 3, 2).is_some());
    assert!(Frame::new(vec![0; 23], 3, 2).is_none());
    assert!(Frame::new(vec![0; 25], 3, 2).is_none());
    assert!(Frame::new(Vec::new(), 0, 9).is_some());
    assert!(Frame::new(vec![0; 4], 0, 0).is_none());
}

#[test]
fn empty_frame_is_the_sentinel() {
    let f = Frame::empty();
    assert!(f.is_empty());
    assert_eq!((f.data.len(), f.width, f.height), (0, 0, 0));
}

#[test]
fn channel_reads_row_major_rgba() {
    let f = Frame::new((0u8..24).collect(), 3, 2).unwrap();
    assert_eq!(f.channel(0, 0, 0), 0);
    assert_eq!(f.channel(2, 0, 3), 11);
    assert_eq!(f.channel(0, 1, 0), 12);
    assert_eq!(f.channel(1, 1, 2), 18);
    assert_eq!(f.channel(2, 1, 3), 23);
}

#[test]
fn frame_clone_copies_everything() {
    let f = Frame::new((0u8..16).collect(), 2, 2).unwrap();
    let g = f.clone();
    assert_eq!(g.data, f.data);
    assert_eq!((g.width, g.height), (2, 2));
}

#[test]
fn setters_mirror_and_return_the_command() {
    let mut h: ConsumerHandle<u8> = ConsumerHandle::new(1, 2, 3);
    assert_eq!(h.get_resolution(), (1, 2));
    assert_eq!(h.get_frame_rate(), 3);
    assert_eq!(h.set_frame_rate(25), ControlCommand::SetFrameRate(25));
    assert_eq!(h.get_frame_rate(), 25);
    assert_eq!(h.set_resolution(800, 600), ControlCommand::SetResolution(800, 600));
    assert_eq!(h.get_resolution(), (800, 600));
    assert_eq!(h.set_width(-4), ControlCommand::SetWidth(-4));
    assert_eq!(h.get_width(), -4);
    assert_eq!(h.get_height(), 600);
    assert_eq!(h.set_height(7), ControlCommand::SetHeight(7));
    assert_eq!(h.get_height(), 7);
    assert_eq!(h.stop(), ControlCommand::Stop);
    assert!(h.is_running());
}

#[test]
fn on_close_replaces_the_callback() {
    let mut h: ConsumerHandle<&str> = ConsumerHandle::new(0, 0, 0);
    assert!(h.close_callback.is_none());
    h.on_close("first");
    h.on_close("second");
    assert_eq!(h.close_callback, Some("second"));
}

#[test]
fn refresh_keeps_the_latest_frame() {
    let mut h: ConsumerHandle<u8> = ConsumerHandle::new(0, 0, 0);
    let out = h.refresh(
        vec![
            LifecycleEvent::FrameDelivered(frame_of(1, 1, 7)),
            LifecycleEvent::FrameDelivered(frame_of(2, 1, 9)),
        ],
        false,
    );
    assert_eq!(out.closed_events, 0);
    assert_eq!((out.frame.width, out.frame.height), (2, 1));
    assert_eq!(out.frame.data, vec![9; 8]);
    let held = h.get_frame();
    assert_eq!(held.data, vec![9; 8]);
    assert!(h.is_running());
}

#[test]
fn refresh_suppressed_returns_empty_but_keeps_frame() {
    let mut h: ConsumerHandle<u8> = ConsumerHandle::new(0, 0, 0);
    let out = h.refresh(vec![LifecycleEvent::FrameDelivered(frame_of(1, 2, 3))], true);
    assert!(out.frame.is_empty());
    assert_eq!((out.frame.width, out.frame.height), (0, 0));
    let held = h.get_frame();
    assert_eq!((held.width, held.height, held.data.len()), (1, 2, 8));
}

#[test]
fn refresh_without_events_is_idempotent() {
    let mut h: ConsumerHandle<u8> = ConsumerHandle::new(0, 0, 0);
    h.refresh(vec![LifecycleEvent::FrameDelivered(frame_of(2, 2, 1))], true);
    for _ in 0..5 {
        let out = h.refresh(Vec::new(), true);
        assert_eq!(out.closed_events, 0);
        assert!(h.is_running());
        let held = h.get_frame();
        assert_eq!((held.width, held.height), (2, 2));
        assert_eq!(held.data, vec![1; 16]);
    }
}

#[test]
fn closed_stops_the_handle_and_ignores_later_frames() {
    let mut h: ConsumerHandle<u8> = ConsumerHandle::new(0, 0, 0);
    let out = h.refresh(
        vec![
            LifecycleEvent::FrameDelivered(frame_of(1, 1, 7)),
            LifecycleEvent::Closed,
            LifecycleEvent::FrameDelivered(frame_of(1, 1, 8)),
        ],
        false,
    );
    assert_eq!(out.closed_events, 1);
    assert!(out.frame.is_empty());
    assert!(!h.is_running());
    assert!(h.get_frame().is_empty());
    let again = h.refresh(vec![LifecycleEvent::FrameDelivered(frame_of(1, 1, 8))], false);
    assert_eq!(again.closed_events, 0);
    assert!(again.frame.is_empty());
    assert!(!h.is_running());
}

#[test]
fn each_closed_event_is_counted() {
    let mut h: ConsumerHandle<u8> = ConsumerHandle::new(0, 0, 0);
    let out = h.refresh(vec![LifecycleEvent::Closed, LifecycleEvent::Closed], true);
    assert_eq!(out.closed_events, 2);
    assert!(!h.is_running());
}

#[test]
fn absorb_reports_closed() {
    let mut h: ConsumerHandle<u8> = ConsumerHandle::new(0, 0, 0);
    assert!(!h.absorb(LifecycleEvent::FrameDelivered(frame_of(1, 1, 2))));
    assert_eq!(h.get_frame().data, vec![2; 4]);
    assert!(h.absorb(LifecycleEvent::Closed));
    assert!(!h.is_running());
    assert!(h.get_frame().is_empty());
}

#[test]
fn full_hd_source_at_native_resolution() {
    let options = CreateOptions { target: Some(1), width: Some(0), height: Some(0), frame_rate: Some(0) };
    let mut p = create::<u8>(options, &vec![1], &Vec::new()).unwrap();
    let source = frame_of(1920, 1080, 42);
    let events = p.worker.on_frame_arrived(&Vec::new(), 1, source).unwrap();
    p.handle.refresh(events, true);
    let held = p.handle.get_frame();
    assert_eq!((held.width, held.height), (1920, 1080));
    assert_eq!(held.data.len(), 1920 * 1080 * 4);
}

#[test]
fn set_resolution_then_stop_before_refresh() {
    let mut worker = CaptureWorker::new(None, None, None);
    let mut handle: ConsumerHandle<u8> = ConsumerHandle::new(0, 0, 0);
    let cmds = vec![handle.set_resolution(100, 100), handle.stop()];
    let events = worker.on_frame_arrived(&cmds, 1, frame_of(4, 4, 1)).unwrap();
    assert_eq!((worker.width, worker.height), (100, 100));
    let out = handle.refresh(events, false);
    assert_eq!(out.closed_events, 1);
    assert!(!handle.is_running());
    let held = handle.get_frame();
    assert_eq!((held.data.len(), held.width, held.height), (0, 0, 0));
    assert_eq!(handle.get_resolution(), (100, 100));
}

#[test]
fn stop_then_session_end_closes_once() {
    let mut worker = CaptureWorker::new(None, None, None);
    let mut handle: ConsumerHandle<u8> = ConsumerHandle::new(0, 0, 0);
    let mut events = worker.on_frame_arrived(&vec![handle.stop()], 1, frame_of(1, 1, 0)).unwrap();
    events.extend(worker.on_closed());
    events.extend(worker.on_frame_arrived(&vec![handle.stop()], 2, frame_of(1, 1, 0)).unwrap());
    let out = handle.refresh(events, true);
    assert_eq!(out.closed_events, 1);
    assert!(!handle.is_running());
}

#[test]
fn find_prefers_monitors_and_takes_the_first() {
    assert_eq!(find_monitor_or_window(2, &vec![1, 2, 2], &vec![2]), Some(WindowOrMonitor::Monitor(1)));
    assert_eq!(find_monitor_or_window(7, &vec![1, 2], &vec![5, 7, 7]), Some(WindowOrMonitor::Window(1)));
    assert_eq!(find_monitor_or_window(9, &vec![1, 2], &vec![5, 7]), None);
    assert_eq!(find_monitor_or_window(0, &Vec::new(), &Vec::new()), None);
}

#[test]
fn find_negative_target_names_no_monitor() {
    assert_eq!(find_monitor_or_window(-1, &vec![usize::MAX], &vec![-1]), Some(WindowOrMonitor::Window(0)));
    assert_eq!(find_monitor_or_window(-1, &vec![usize::MAX], &Vec::new()), None);
}

#[test]
fn create_fails_on_unknown_target() {
    let options = CreateOptions { target: Some(5), width: None, height: None, frame_rate: None };
    let out = create::<u8>(options, &vec![1, 2], &vec![100]);
    match out {
        Err(e) => {
            assert_eq!(e, ConfigError::InvalidTarget);
            assert_eq!(e.message(), "Invalid target");
        }
        Ok(_) => panic!("expected an error"),
    }
}

#[test]
fn create_defaults_missing_settings() {
    let options = CreateOptions { target: None, width: Some(640), height: None, frame_rate: Some(30) };
    let p = create::<u8>(options, &vec![0], &Vec::new()).unwrap();
    assert_eq!(p.target, WindowOrMonitor::Monitor(0));
    assert_eq!((p.worker.width, p.worker.height, p.worker.frame_rate), (640, 0, 30));
    assert_eq!(p.worker.last_emission, None);
    assert!(!p.worker.closed);
    assert_eq!(p.handle.get_resolution(), (640, 0));
    assert_eq!(p.handle.get_frame_rate(), 30);
    assert!(p.handle.is_running());
    assert!(p.handle.get_frame().is_empty());
    assert!(p.handle.close_callback.is_none());
}

#[test]
fn created_pipeline_emits_its_first_frame_at_once() {
    let options =
        CreateOptions { target: Some(1), width: Some(640), height: Some(360), frame_rate: Some(30) };
    let mut p = create::<u8>(options, &vec![1], &Vec::new()).unwrap();
    assert_eq!(p.handle.get_resolution(), (640, 360));
    assert_eq!(p.handle.get_frame_rate(), 30);
    let early = 1_000;
    let first = p.worker.on_frame_arrived(&Vec::new(), early, frame_of(64, 36, 5)).unwrap();
    assert_eq!(first.len(), 1);
    let second =
        p.worker.on_frame_arrived(&Vec::new(), early + 10_000_000, frame_of(64, 36, 5)).unwrap();
    assert!(second.is_empty());
    let out = p.handle.refresh(first, false);
    assert_eq!((out.frame.width, out.frame.height), (640, 360));
    assert_eq!(out.frame.data.len(), 640 * 360 * 4);
}
