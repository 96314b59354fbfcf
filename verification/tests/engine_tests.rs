use bagimages::common::error::AppError;
use bagimages::config::Config;
use bagimages::extract::{Engine, ExportJob, RawRecord, Step};
use bagimages::view::View;

fn push_chunk(out: &mut Vec<u8>, body: &[u8]) {
    out.extend_from_slice(&(body.len() as u32).to_le_bytes());
    out.extend_from_slice(body);
}

fn image_payload(height: u32, width: u32, step: u32, pixels: &[u8]) -> Vec<u8> {
    let mut out = Vec::new();
    out.extend_from_slice(&1u32.to_le_bytes());
    out.extend_from_slice(&0u32.to_le_bytes());
    out.extend_from_slice(&0u32.to_le_bytes());
    push_chunk(&mut out, b"cam");
    out.extend_from_slice(&height.to_le_bytes());
    out.extend_from_slice(&width.to_le_bytes());
    push_chunk(&mut out, b"rgb8");
    out.push(0);
    out.extend_from_slice(&step.to_le_bytes());
    out.extend_from_slice(&(height * step).to_le_bytes());
    out.extend_from_slice(pixels);
    out
}

fn config(topics: &[&str]) -> Config {
    Config {
        output_dir: "out".to_string(),
        topics: topics.iter().map(|t| t.to_string()).collect(),
        regex: false,
        start_ns: 0,
        end_ns: None,
        number: None,
        step: 1,
        invert_channels: false,
    }
}

fn connection(id: u32, topic: &str) -> RawRecord {
    RawRecord::Connection {
        id,
        topic: topic.to_string(),
        message_type: "sensor_msgs/Image".to_string(),
    }
}

fn message(conn_id: u32, time: u64) -> RawRecord {
    RawRecord::MessageData { conn_id, time, payload: image_payload(1, 1, 3, &[10, 20, 30]) }
}

/// Runs the 1 Hz, 10 s single-topic stream and returns the export jobs.
fn run_cam_stream(cfg: Config) -> (Engine, Vec<ExportJob>) {
    let mut engine = Engine::new(cfg).unwrap();
    let mut jobs = Vec::new();
    let records: Vec<RawRecord> = std::iter::once(connection(1, "/cam/image"))
        .chain((0..10u64).map(|t| message(1, t * 1_000_000_000)))
        .collect();
    for record in &records {
        if engine.should_stop() {
            break;
        }
        match engine.process_record(record).unwrap() {
            Step::Export(job) => jobs.push(job),
            _ => {},
        }
    }
    (engine, jobs)
}

#[test]
fn scenario_every_frame_is_exported() {
    let (_, jobs) = run_cam_stream(config(&["/cam/image"]));
    assert_eq!(jobs.len(), 10);
    for (i, job) in jobs.iter().enumerate() {
        assert_eq!(job.path, format!("out/cam_image_{}.png", i + 1));
        assert_eq!(job.width, 1);
        assert_eq!(job.height, 1);
        assert_eq!(job.pixels, vec![10, 20, 30]);
    }
}

#[test]
fn scenario_step_three_exports_every_third_frame() {
    let mut cfg = config(&["/cam/image"]);
    cfg.step = 3;
    let (_, jobs) = run_cam_stream(cfg);
    // Observed positions 0, 3, 6, 9.
    assert_eq!(jobs.len(), 4);
    assert_eq!(jobs[3].path, "out/cam_image_4.png");
}

#[test]
fn scenario_max_two_frames_then_done() {
    let mut cfg = config(&["/cam/image"]);
    cfg.number = Some(2);
    let (engine, jobs) = run_cam_stream(cfg);
    assert_eq!(jobs.len(), 2);
    assert_eq!(jobs[0].path, "out/cam_image_1.png");
    assert_eq!(jobs[1].path, "out/cam_image_2.png");
    assert!(engine.states[0].1.done);
    assert_eq!(engine.states[0].1.extracted, 2);
}

#[test]
fn scenario_time_window_five_to_eight_seconds() {
    let mut cfg = config(&["/cam/image"]);
    cfg.start_ns = 5_000_000_000;
    cfg.end_ns = Some(8_000_000_000);
    let (engine, jobs) = run_cam_stream(cfg);
    // Messages at 5, 6, 7 and 8 seconds lie inside [5, 8].
    assert_eq!(jobs.len(), 4);
    // The message at 9 seconds turned the connection done without export.
    assert!(engine.states[0].1.done);
}

#[test]
fn early_messages_leave_done_and_extracted_untouched() {
    let mut cfg = config(&["/cam/image"]);
    cfg.start_ns = 20_000_000_000;
    let (engine, jobs) = run_cam_stream(cfg);
    assert_eq!(jobs.len(), 0);
    assert!(!engine.states[0].1.done);
    assert_eq!(engine.states[0].1.extracted, 0);
}

#[test]
fn wrong_message_type_is_reported_and_never_tracked() {
    let mut engine = Engine::new(config(&["/cam/image"])).unwrap();
    let conn = RawRecord::Connection {
        id: 1,
        topic: "/cam/image".to_string(),
        message_type: "sensor_msgs/CompressedImage".to_string(),
    };
    match engine.process_record(&conn).unwrap() {
        Step::TypeMismatch { topic, found, expected } => {
            assert_eq!(topic, "/cam/image");
            assert_eq!(found, "sensor_msgs/CompressedImage");
            assert_eq!(expected, "sensor_msgs/Image");
        },
        other => panic!("expected a type mismatch, got {:?}", other),
    }
    assert_eq!(engine.states.len(), 0);
    // Messages on the unannounced id are inert.
    let step = engine.process_record(&message(1, 0)).unwrap();
    assert!(matches!(step, Step::Nothing));
    assert_eq!(engine.states.len(), 0);
}

#[test]
fn unknown_connection_id_is_inert_but_fixes_the_anchor() {
    let mut cfg = config(&["/cam/image"]);
    cfg.start_ns = 5_000_000_000;
    let mut engine = Engine::new(cfg).unwrap();
    engine.process_record(&connection(1, "/cam/image")).unwrap();
    // The first message of the run, on an unknown id, fixes the anchor at 0.
    assert!(matches!(engine.process_record(&message(99, 0)).unwrap(), Step::Nothing));
    // Five seconds after the anchor, this frame lies inside the window.
    let step = engine.process_record(&message(1, 5_000_000_000)).unwrap();
    assert!(matches!(step, Step::Export(_)));
}

#[test]
fn connection_is_tracked_once() {
    let mut engine = Engine::new(config(&["/cam/image"])).unwrap();
    assert!(matches!(
        engine.process_record(&connection(1, "/cam/image")).unwrap(),
        Step::Found { conn_id: 1 }
    ));
    engine.process_record(&message(1, 0)).unwrap();
    // A repeated announcement of the same id does not reset the state.
    assert!(matches!(engine.process_record(&connection(1, "/cam/image")).unwrap(), Step::Nothing));
    assert_eq!(engine.states.len(), 1);
    assert_eq!(engine.states[0].1.counter, 1);
}

#[test]
fn regex_selector_attaches_to_every_matching_connection() {
    let mut cfg = config(&["^/cam/.*"]);
    cfg.regex = true;
    let mut engine = Engine::new(cfg).unwrap();
    assert!(matches!(
        engine.process_record(&connection(1, "/cam/image")).unwrap(),
        Step::Found { conn_id: 1 }
    ));
    assert!(matches!(
        engine.process_record(&connection(2, "/cam/depth")).unwrap(),
        Step::Found { conn_id: 2 }
    ));
    assert!(matches!(engine.process_record(&connection(3, "/lidar/points")).unwrap(), Step::Nothing));
    assert_eq!(engine.states.len(), 2);
    assert!(matches!(engine.process_record(&message(1, 0)).unwrap(), Step::Export(_)));
    assert!(matches!(engine.process_record(&message(2, 0)).unwrap(), Step::Export(_)));
    let depth_job = match engine.process_record(&message(2, 1_000_000_000)).unwrap() {
        Step::Export(job) => job,
        other => panic!("expected an export, got {:?}", other),
    };
    assert_eq!(depth_job.path, "out/cam_depth_2.png");
}

#[test]
fn inverted_channels_swap_first_and_third_bytes() {
    let mut cfg = config(&["/cam/image"]);
    cfg.invert_channels = true;
    let mut engine = Engine::new(cfg).unwrap();
    engine.process_record(&connection(1, "/cam/image")).unwrap();
    let payload = image_payload(1, 2, 6, &[1, 2, 3, 4, 5, 6]);
    let rec = RawRecord::MessageData { conn_id: 1, time: 0, payload };
    match engine.process_record(&rec).unwrap() {
        Step::Export(job) => assert_eq!(job.pixels, vec![3, 2, 1, 6, 5, 4]),
        other => panic!("expected an export, got {:?}", other),
    }
}

#[test]
fn pixel_buffer_not_three_bytes_per_pixel_fails() {
    let mut engine = Engine::new(config(&["/cam/image"])).unwrap();
    engine.process_record(&connection(1, "/cam/image")).unwrap();
    // 1x1 frame whose matrix holds 4 bytes instead of 3.
    let payload = image_payload(1, 1, 4, &[1, 2, 3, 4]);
    let rec = RawRecord::MessageData { conn_id: 1, time: 0, payload };
    let r = engine.process_record(&rec);
    assert!(matches!(r, Err(AppError::InvalidImageEncoding(e)) if e == "rgb8"));
}

#[test]
fn truncated_payload_fails_out_of_bounds() {
    let mut engine = Engine::new(config(&["/cam/image"])).unwrap();
    engine.process_record(&connection(1, "/cam/image")).unwrap();
    let mut payload = image_payload(1, 1, 3, &[1, 2, 3]);
    payload.truncate(payload.len() - 2);
    let rec = RawRecord::MessageData { conn_id: 1, time: 0, payload };
    assert!(matches!(engine.process_record(&rec), Err(AppError::OutOfBounds)));
}

#[test]
fn stop_criterion_needs_all_done_and_all_selectors_found() {
    let mut cfg = config(&["/cam/image"]);
    cfg.number = Some(1);
    let mut engine = Engine::new(cfg).unwrap();
    assert!(!engine.should_stop());
    engine.process_record(&connection(1, "/cam/image")).unwrap();
    assert!(!engine.should_stop());
    engine.process_record(&message(1, 0)).unwrap();
    assert!(!engine.should_stop());
    // The frame after the first export trips the maximum and turns done.
    engine.process_record(&message(1, 1_000_000_000)).unwrap();
    assert!(engine.should_stop());
}

#[test]
fn stop_criterion_never_fires_in_regex_mode() {
    let mut cfg = config(&["^/cam/.*"]);
    cfg.regex = true;
    cfg.number = Some(1);
    let mut engine = Engine::new(cfg).unwrap();
    engine.process_record(&connection(1, "/cam/image")).unwrap();
    engine.process_record(&message(1, 0)).unwrap();
    engine.process_record(&message(1, 1_000_000_000)).unwrap();
    assert!(!engine.should_stop());
}

#[test]
fn selectors_without_messages_are_reported() {
    let mut engine = Engine::new(config(&["/cam/image", "/cam/depth"])).unwrap();
    engine.process_record(&connection(1, "/cam/image")).unwrap();
    engine.process_record(&message(1, 0)).unwrap();
    let views = engine.check_for_empty_topics();
    assert_eq!(views.len(), 1);
    match &views[0] {
        View::NoMessages(topic, regex) => {
            assert_eq!(topic, "/cam/depth");
            assert!(!regex);
        },
        other => panic!("expected a no-messages report, got {:?}", other),
    }
}

#[test]
fn tracked_topic_without_messages_is_reported_too() {
    let mut engine = Engine::new(config(&["/cam/image"])).unwrap();
    engine.process_record(&connection(1, "/cam/image")).unwrap();
    let views = engine.check_for_empty_topics();
    assert_eq!(views.len(), 1);
    assert!(matches!(&views[0], View::NoMessages(t, false) if t == "/cam/image"));
}

#[test]
fn configuration_bounds_are_checked() {
    let empty = config(&[]);
    assert!(matches!(Engine::new(empty), Err(AppError::ArgsEmptyTopics)));

    let mut bad_end = config(&["/cam/image"]);
    bad_end.start_ns = 5_000_000_000;
    bad_end.end_ns = Some(5_000_000_000);
    assert!(matches!(
        Engine::new(bad_end),
        Err(AppError::ArgsEndBeforeStart(5_000_000_000, 5_000_000_000))
    ));

    let mut bad_step = config(&["/cam/image"]);
    bad_step.step = 0;
    assert!(matches!(Engine::new(bad_step), Err(AppError::ArgsNegativeStep(0))));

    let mut bad_number = config(&["/cam/image"]);
    bad_number.number = Some(0);
    assert!(matches!(Engine::new(bad_number), Err(AppError::ArgsNegativeNumber(0))));

    let mut bad_regex = config(&["foo(bar"]);
    bad_regex.regex = true;
    assert!(matches!(Engine::new(bad_regex), Err(AppError::ArgsInvalidRegex(p)) if p == "foo(bar"));
}
