use cursor_analyzer::detect::MarkerPos;
use cursor_analyzer::worker::{Command, CommandPlan, Event, Worker};

fn probe_text(width: u32, height: u32) -> Vec<u8> {
    format!("Duration: 00:01:30.50 ... Video: h264 {}x{}", width, height).into_bytes()
}

/// A black frame with a fourteen-row bright column whose top sits at (x, y).
fn frame_with_marker(width: usize, height: usize, x: usize, y: usize) -> Vec<u8> {
    let mut buf = vec![0u8; width * height * 4];
    for row in 0..14 {
        let i = ((y + row) * width + x) * 4;
        buf[i] = 255;
        buf[i + 1] = 255;
        buf[i + 2] = 255;
    }
    buf
}

#[test]
fn plan_for_each_command() {
    assert!(matches!(
        Worker::plan_for(Command::LoadFile { path: "a.mp4".to_owned() }),
        CommandPlan::Load { path } if path == "a.mp4"
    ));
    assert!(matches!(
        Worker::plan_for(Command::Seek { start_ms: 1500 }),
        CommandPlan::Restart { start_ms: 1500 }
    ));
    assert!(matches!(Worker::plan_for(Command::Step), CommandPlan::Read));
    assert!(matches!(Worker::plan_for(Command::Play), CommandPlan::Idle));
    assert!(matches!(Worker::plan_for(Command::Pause), CommandPlan::Idle));
}

#[test]
fn load_updates_session_and_reports_metadata() {
    let mut w = Worker::new();
    let ev = w.apply_probe("clip.mp4".to_owned(), Ok(probe_text(640, 480)));
    match ev {
        Event::Metadata { duration, width, height } => {
            assert_eq!(width, 640);
            assert_eq!(height, 480);
            let dur = duration.unwrap();
            assert_eq!((dur.hours, dur.minutes, dur.seconds), (0, 1, 30));
            assert_eq!(dur.frac, vec![5, 0]);
        }
        other => panic!("expected metadata, got {:?}", other),
    }
    assert_eq!(w.width, 640);
    assert_eq!(w.height, 480);
    assert_eq!(w.current_file.as_deref(), Some("clip.mp4"));
    assert!(!w.stream_live);
}

#[test]
fn failed_probe_keeps_session() {
    let mut w = Worker::new();
    let _ = w.apply_probe("good.mp4".to_owned(), Ok(probe_text(640, 480)));
    let ev = w.apply_probe("bad.mp4".to_owned(), Ok(b"no streams here".to_vec()));
    match ev {
        Event::Error { message } => assert_eq!(message, "Could not parse video metadata"),
        other => panic!("expected error, got {:?}", other),
    }
    // The old session stays untouched.
    assert_eq!(w.width, 640);
    assert_eq!(w.current_file.as_deref(), Some("good.mp4"));
}

#[test]
fn probe_process_failure_is_reported() {
    let mut w = Worker::new();
    let ev = w.apply_probe("clip.mp4".to_owned(), Err("exec failed".to_owned()));
    match ev {
        Event::Error { message } => assert_eq!(message, "exec failed"),
        other => panic!("expected error, got {:?}", other),
    }
    assert!(w.current_file.is_none());
}

#[test]
fn start_plan_terminates_live_stream_first() {
    let mut w = Worker::new();
    let _ = w.apply_probe("clip.mp4".to_owned(), Ok(probe_text(640, 480)));
    let plan = w.start_stream(0);
    assert!(!plan.terminate_old);
    let req = plan.spawn.unwrap();
    assert_eq!(req.path, "clip.mp4");
    assert_eq!(req.seek_ms, None);
    assert!(w.stream_started(Ok(())).is_none());
    assert!(w.stream_live);
    // A second start while the stream is live demands termination first.
    let plan2 = w.start_stream(2500);
    assert!(plan2.terminate_old);
    assert!(!w.stream_live);
    assert_eq!(plan2.spawn.unwrap().seek_ms, Some(2500));
}

#[test]
fn start_without_file_spawns_nothing() {
    let mut w = Worker::new();
    let plan = w.start_stream(0);
    assert!(!plan.terminate_old);
    assert!(plan.spawn.is_none());
}

#[test]
fn spawn_failure_reports_and_disables_reads() {
    let mut w = Worker::new();
    let _ = w.apply_probe("clip.mp4".to_owned(), Ok(probe_text(640, 480)));
    let _ = w.start_stream(0);
    let ev = w.stream_started(Err("FFmpeg spawn error: not found".to_owned()));
    match ev {
        Some(Event::Error { message }) => {
            assert_eq!(message, "FFmpeg spawn error: not found");
        }
        other => panic!("expected error, got {:?}", other),
    }
    assert!(!w.stream_live);
    // Subsequent steps become silent no-ops.
    assert_eq!(w.frame_request(), None);
    assert!(w.frame_event(None).is_none());
}

#[test]
fn frame_request_is_exact_byte_count() {
    let mut w = Worker::new();
    let _ = w.apply_probe("clip.mp4".to_owned(), Ok(probe_text(640, 480)));
    assert_eq!(w.frame_request(), None);
    let _ = w.start_stream(0);
    let _ = w.stream_started(Ok(()));
    assert_eq!(w.frame_request(), Some(640 * 480 * 4));
}

#[test]
fn frame_event_detects_marker() {
    let mut w = Worker::new();
    let _ = w.apply_probe("clip.mp4".to_owned(), Ok(probe_text(100, 100)));
    let _ = w.start_stream(0);
    let _ = w.stream_started(Ok(()));
    let buf = frame_with_marker(100, 100, 10, 2);
    match w.frame_event(Some(buf.clone())) {
        Some(Event::FrameReady { frame, width, height, position }) => {
            assert_eq!(width, 100);
            assert_eq!(height, 100);
            assert_eq!(position, Some(MarkerPos { x: 10, y: 2 }));
            assert_eq!(frame.into_raw(), buf);
        }
        other => panic!("expected frame, got {:?}", other),
    }
}

#[test]
fn mismatched_frame_bytes_are_dropped() {
    let mut w = Worker::new();
    let _ = w.apply_probe("clip.mp4".to_owned(), Ok(probe_text(100, 100)));
    let _ = w.start_stream(0);
    let _ = w.stream_started(Ok(()));
    assert!(w.frame_event(Some(vec![0u8; 123])).is_none());
}

#[test]
fn scenario_seek_past_the_end() {
    // Seeking beyond the clip just stops producing frames: no event, no
    // error, however often the control side steps.
    let mut w = Worker::new();
    let _ = w.apply_probe("clip.mp4".to_owned(), Ok(probe_text(640, 480)));
    let plan = w.start_stream(600_000);
    assert_eq!(plan.spawn.unwrap().seek_ms, Some(600_000));
    let _ = w.stream_started(Ok(()));
    assert!(w.frame_event(None).is_none());
    assert!(w.frame_event(None).is_none());
    assert!(w.frame_event(None).is_none());
}

#[test]
fn scenario_two_sequential_loads() {
    // Each load yields exactly one Metadata event and one frame, and the
    // second start plan terminates the first stream before spawning.
    let mut w = Worker::new();
    let mut metadata_events = 0;
    let mut frame_events = 0;

    let ev1 = w.apply_probe("one.mp4".to_owned(), Ok(probe_text(100, 100)));
    if matches!(ev1, Event::Metadata { .. }) {
        metadata_events += 1;
    }
    let plan1 = w.start_stream(0);
    assert!(!plan1.terminate_old);
    let _ = w.stream_started(Ok(()));
    if matches!(
        w.frame_event(Some(frame_with_marker(100, 100, 10, 0))),
        Some(Event::FrameReady { .. })
    ) {
        frame_events += 1;
    }

    let ev2 = w.apply_probe("two.mp4".to_owned(), Ok(probe_text(200, 100)));
    if matches!(ev2, Event::Metadata { .. }) {
        metadata_events += 1;
    }
    let plan2 = w.start_stream(0);
    // The first load's stream is still live, so it must be reaped first.
    assert!(plan2.terminate_old);
    assert!(!w.stream_live);
    let _ = w.stream_started(Ok(()));
    if matches!(
        w.frame_event(Some(frame_with_marker(200, 100, 10, 0))),
        Some(Event::FrameReady { .. })
    ) {
        frame_events += 1;
    }

    assert_eq!(metadata_events, 2);
    assert_eq!(frame_events, 2);
    assert_eq!(w.current_file.as_deref(), Some("two.mp4"));
    assert_eq!(w.width, 200);
}
