use ffsub::ffmpeg::runner::{
    event_name, exit_event, format_from_candidates, format_from_names, line_segments,
    monitor_line, monitor_segment, probe_duration, probe_video_info, reconcile,
    state_failed_event, video_info_from_report, wait_failed_event, JobEnd, MonitorEvent,
    ProbeReport, ProcessExit, ProgressThrottle, StreamSize, PROGRESS_INTERVAL_MS,
};
use ffsub::state::AppState;

const PROGRESS: &str = "frame=  120 fps= 30.0 q=28.0 size=    1024kB time=00:00:04.00 bitrate=2097.2kbits/s speed=1.5x";

fn log_text(event: &MonitorEvent) -> Option<&str> {
    match event {
        MonitorEvent::Log(text) => Some(text.as_str()),
        _ => None,
    }
}

fn frame_of(event: &MonitorEvent) -> Option<u64> {
    match event {
        MonitorEvent::Progress(progress) => Some(progress.frame),
        _ => None,
    }
}

#[test]
fn duration_is_read_from_a_bare_number() {
    assert_eq!(probe_duration("123.456000\n"), Ok(123_456_000));
    assert_eq!(probe_duration("  7 \r\n"), Ok(7_000_000));
    assert_eq!(probe_duration("0.5"), Ok(500_000));
    assert_eq!(probe_duration("5."), Ok(5_000_000));
    assert_eq!(probe_duration(".25"), Ok(250_000));
}

#[test]
fn unreadable_duration_is_an_error() {
    for text in ["", "N/A", "1 2", "1.2.3", "-1", "abc", ".", "1e3"] {
        assert_eq!(probe_duration(text), Err("无法解析视频时长".to_string()));
    }
}

#[test]
fn video_info_prefers_the_extension() {
    let json = "{\"streams\":[{\"width\":1920,\"height\":1080}],\"format\":{\"format_name\":\"matroska,webm\",\"duration\":\"5400.040000\"}}";
    let info = probe_video_info("/videos/Movie.MKV", json).unwrap();
    assert_eq!(info.format, "mkv");
    assert_eq!(info.duration, "01:30:00");
    assert_eq!(info.resolution, "1920x1080");
}

#[test]
fn video_info_falls_back_to_the_format_names() {
    let json = "{\"streams\":[{\"width\":640,\"height\":360},{\"width\":1,\"height\":2}],\"format\":{\"format_name\":\"mov,mp4,m4a,3gp,3g2,mj2\",\"duration\":\"59.9\"}}";
    let info = probe_video_info("/videos/noext", json).unwrap();
    assert_eq!(info.format, "mp4");
    assert_eq!(info.duration, "00:00:59");
    assert_eq!(info.resolution, "640x360");
}

#[test]
fn video_info_with_nothing_to_read() {
    let info = probe_video_info("noext", "{}").unwrap();
    assert_eq!(info.format, "unknown");
    assert_eq!(info.duration, "-");
    assert_eq!(info.resolution, "-");
    let info = probe_video_info("noext", "{\"streams\":[],\"format\":{\"duration\":12}}").unwrap();
    assert_eq!(info.duration, "-");
    assert_eq!(info.resolution, "-");
    let info = probe_video_info("noext", "{\"streams\":[{\"width\":\"w\"}]}").unwrap();
    assert_eq!(info.resolution, "0x0");
    let info = probe_video_info("noext", "[1, 2]").unwrap();
    assert_eq!(info.format, "unknown");
}

#[test]
fn video_info_of_bad_json_is_an_error() {
    for text in ["", "not json", "{\"format\":", "{} trailing"] {
        let error = probe_video_info("a.mp4", text).unwrap_err();
        assert!(error.starts_with("解析 ffprobe 输出失败: "));
        assert!(error.len() > "解析 ffprobe 输出失败: ".len());
    }
}

#[test]
fn format_names_are_ranked() {
    assert_eq!(format_from_names("matroska,webm"), "webm");
    assert_eq!(format_from_names("mov,mp4,m4a,3gp,3g2,mj2"), "mp4");
    assert_eq!(format_from_names(" AVI , flv "), "avi");
    assert_eq!(format_from_names("wmv,flv"), "flv");
    assert_eq!(format_from_names("mpegts"), "mpegts");
    assert_eq!(format_from_names(" , ,OGG,mp3"), "ogg");
    assert_eq!(format_from_names(""), "unknown");
    assert_eq!(format_from_names(" , "), "unknown");
}

#[test]
fn video_info_from_plain_values() {
    let report = ProbeReport {
        format_name: Some("asf".to_string()),
        duration: Some("3661.999".to_string()),
        first_stream: Some(StreamSize { width: Some(1280), height: None }),
    };
    let info = video_info_from_report(Some("WMV"), &report);
    assert_eq!(info.format, "wmv");
    assert_eq!(info.duration, "01:01:01");
    assert_eq!(info.resolution, "1280x0");
    let info = video_info_from_report(None, &report);
    assert_eq!(info.format, "asf");
    let report = ProbeReport {
        format_name: None,
        duration: Some("360000".to_string()),
        first_stream: None,
    };
    let info = video_info_from_report(None, &report);
    assert_eq!(info.format, "unknown");
    assert_eq!(info.duration, "100:00:00");
    assert_eq!(info.resolution, "-");
}

#[test]
fn throttle_spaces_progress_events() {
    assert_eq!(PROGRESS_INTERVAL_MS, 200);
    let mut throttle = ProgressThrottle::new(1_000);
    assert!(!throttle.allow(1_000));
    assert!(!throttle.allow(1_199));
    assert_eq!(throttle.last_emit_ms, 1_000);
    assert!(throttle.allow(1_200));
    assert_eq!(throttle.last_emit_ms, 1_200);
    assert!(!throttle.allow(1_399));
    assert!(!throttle.allow(500));
    assert_eq!(throttle.last_emit_ms, 1_200);
    assert!(throttle.allow(u64::MAX));
}

#[test]
fn progress_segment_passes_when_due() {
    let mut throttle = ProgressThrottle::new(0);
    let event = monitor_segment(PROGRESS, 10_000_000, &mut throttle, 200).unwrap();
    match event {
        MonitorEvent::Progress(progress) => {
            assert_eq!(progress.frame, 120);
            assert_eq!(progress.fps_micros, 30_000_000);
            assert_eq!(progress.time, "00:00:04.00");
            assert_eq!(progress.speed, "1.5x");
            assert_eq!(progress.percentage_tenths, 400);
        }
        other => panic!("expected progress, got {:?}", other),
    }
    assert_eq!(throttle.last_emit_ms, 200);
}

#[test]
fn progress_segment_is_dropped_when_early() {
    let mut throttle = ProgressThrottle::new(0);
    assert!(monitor_segment(PROGRESS, 10_000_000, &mut throttle, 199).is_none());
    assert_eq!(throttle.last_emit_ms, 0);
}

#[test]
fn other_text_is_logged_trimmed() {
    let mut throttle = ProgressThrottle::new(0);
    let event = monitor_segment("  Stream #0:0: Video: h264 \n", 0, &mut throttle, 0).unwrap();
    assert_eq!(log_text(&event), Some("Stream #0:0: Video: h264"));
    assert_eq!(throttle.last_emit_ms, 0);
    assert!(monitor_segment(" \t\n", 0, &mut throttle, 5_000).is_none());
    assert!(monitor_segment("", 0, &mut throttle, 5_000).is_none());
    assert_eq!(throttle.last_emit_ms, 0);
}

#[test]
fn line_falls_into_segments_at_carriage_returns() {
    let line = format!("Input #0, matroska\r{}\r  \r{}\rdone\n", PROGRESS, PROGRESS);
    let mut throttle = ProgressThrottle::new(0);
    let events = monitor_line(&line, 10_000_000, &mut throttle, 1_000);
    assert_eq!(events.len(), 3);
    assert_eq!(log_text(&events[0]), Some("Input #0, matroska"));
    assert_eq!(frame_of(&events[1]), Some(120));
    assert_eq!(log_text(&events[2]), Some("done"));
    assert_eq!(throttle.last_emit_ms, 1_000);
}

#[test]
fn logs_pass_while_progress_is_held_back() {
    let line = format!("{}\rwarning: something\r{}\n", PROGRESS, PROGRESS);
    let mut throttle = ProgressThrottle::new(900);
    let events = monitor_line(&line, 10_000_000, &mut throttle, 1_000);
    assert_eq!(events.len(), 1);
    assert_eq!(log_text(&events[0]), Some("warning: something"));
    assert_eq!(throttle.last_emit_ms, 900);
    assert!(monitor_line("\r\n", 0, &mut throttle, 5_000).is_empty());
    assert!(monitor_line("", 0, &mut throttle, 5_000).is_empty());
}

#[test]
fn job_ends_complete_or_failed() {
    let done = exit_event(Some(ProcessExit { success: true, code: Some(0) }), "/out/a.mp4");
    assert!(matches!(&done, MonitorEvent::Complete(path) if path == "/out/a.mp4"));
    let stopped = exit_event(None, "/out/a.mp4");
    assert!(matches!(&stopped, MonitorEvent::Complete(path) if path == "/out/a.mp4"));
    let failed = exit_event(Some(ProcessExit { success: false, code: Some(1) }), "/out/a.mp4");
    assert!(
        matches!(&failed, MonitorEvent::Error(text) if text == "FFmpeg 进程异常退出: code=Some(1)")
    );
    let failed = exit_event(Some(ProcessExit { success: false, code: Some(-9) }), "/out/a.mp4");
    assert!(
        matches!(&failed, MonitorEvent::Error(text) if text == "FFmpeg 进程异常退出: code=Some(-9)")
    );
    let killed = exit_event(Some(ProcessExit { success: false, code: None }), "/out/a.mp4");
    assert!(
        matches!(&killed, MonitorEvent::Error(text) if text == "FFmpeg 进程异常退出: code=None")
    );
    let lost = wait_failed_event("no child");
    assert!(matches!(&lost, MonitorEvent::Error(text) if text == "等待 FFmpeg 退出失败: no child"));
}

#[test]
fn events_have_their_names() {
    let mut throttle = ProgressThrottle::new(0);
    let progress = monitor_segment(PROGRESS, 0, &mut throttle, 1_000).unwrap();
    assert_eq!(event_name(&progress), "encode-progress");
    assert_eq!(event_name(&MonitorEvent::Log("x".to_string())), "encode-log");
    assert_eq!(event_name(&MonitorEvent::Complete("x".to_string())), "encode-complete");
    assert_eq!(event_name(&MonitorEvent::Error("x".to_string())), "encode-error");
}

#[test]
fn video_info_reads_only_texts_and_whole_numbers() {
    let json = "{\"streams\":[{\"width\":-640,\"height\":360.5}],\"format\":{\"format_name\":7,\"duration\":\"61\"}}";
    let info = probe_video_info("noext", json).unwrap();
    assert_eq!(info.format, "unknown");
    assert_eq!(info.duration, "00:01:01");
    assert_eq!(info.resolution, "0x0");
    let json = "{\"streams\":{\"width\":1},\"format\":\"mp4\",\"duration\":\"61\"}";
    let info = probe_video_info("noext", json).unwrap();
    assert_eq!(info.format, "unknown");
    assert_eq!(info.duration, "-");
    assert_eq!(info.resolution, "-");
    let json = "{\"streams\":[null,{\"width\":3,\"height\":4}],\"format\":{\"format_name\":\"avi\"}}";
    let info = probe_video_info("noext", json).unwrap();
    assert_eq!(info.format, "avi");
    assert_eq!(info.resolution, "0x0");
    let json = "{\"streams\":[{\"width\":18446744073709551615,\"height\":0}]}";
    let info = probe_video_info("noext", json).unwrap();
    assert_eq!(info.resolution, "18446744073709551615x0");
}

fn names(items: &[&str]) -> Vec<String> {
    items.iter().map(|s| s.to_string()).collect()
}

#[test]
fn candidates_are_ranked_as_they_stand() {
    assert_eq!(format_from_candidates(&names(&["mov", "mp4", "m4a", "3gp", "3g2", "mj2"])), "mp4");
    assert_eq!(format_from_candidates(&names(&["matroska", "webm"])), "webm");
    assert_eq!(format_from_candidates(&names(&["wmv", "flv", "avi"])), "avi");
    assert_eq!(format_from_candidates(&names(&["mkv", "mp4"])), "mp4");
    assert_eq!(format_from_candidates(&names(&["wmv"])), "wmv");
    assert_eq!(format_from_candidates(&names(&["ogg", "mp3"])), "ogg");
    assert_eq!(format_from_candidates(&names(&["MP4", "ogg"])), "MP4");
    assert_eq!(format_from_candidates(&names(&[" mp4", "ogg"])), " mp4");
    assert_eq!(format_from_candidates(&names(&[])), "unknown");
}

#[test]
fn segments_stand_between_carriage_returns() {
    assert_eq!(line_segments("a\rb\r\n"), names(&["a", "b", "\n"]));
    assert_eq!(line_segments("\r"), names(&["", ""]));
    assert_eq!(line_segments(""), names(&[""]));
    assert_eq!(line_segments("no return\n"), names(&["no return\n"]));
    for line in ["a\rb\r\n", "", "\r\r", "x", "frame=1\rframe=2"] {
        let expected: Vec<String> = line.split('\r').map(|s| s.to_string()).collect();
        assert_eq!(line_segments(line), expected);
    }
}

#[test]
fn reconciling_takes_the_flag_down_and_gives_the_event() {
    let ends = [
        (JobEnd::Stopped, "encode-complete", "/out/a.mp4"),
        (
            JobEnd::Exited(ProcessExit { success: true, code: Some(0) }),
            "encode-complete",
            "/out/a.mp4",
        ),
        (
            JobEnd::Exited(ProcessExit { success: false, code: Some(2) }),
            "encode-error",
            "FFmpeg 进程异常退出: code=Some(2)",
        ),
        (
            JobEnd::Exited(ProcessExit { success: false, code: None }),
            "encode-error",
            "FFmpeg 进程异常退出: code=None",
        ),
        (JobEnd::WaitFailed("gone".to_string()), "encode-error", "等待 FFmpeg 退出失败: gone"),
    ];
    for (end, name, text) in ends {
        let mut state: AppState<u32> = AppState::new();
        state.set_running(true);
        state.set_total_duration(9);
        let event = reconcile(&mut state, end, "/out/a.mp4");
        assert!(!state.is_running());
        assert!(state.child.is_none());
        assert_eq!(state.get_total_duration(), 9);
        assert_eq!(event_name(&event), name);
        match event {
            MonitorEvent::Complete(found) | MonitorEvent::Error(found) => assert_eq!(found, text),
            other => panic!("no terminal event: {:?}", other),
        }
    }
}

#[test]
fn unreachable_state_is_an_error_event() {
    let event = state_failed_event("锁竞争错误: poisoned");
    assert!(
        matches!(&event, MonitorEvent::Error(text) if text == "获取子进程失败: 锁竞争错误: poisoned")
    );
    assert_eq!(event_name(&event), "encode-error");
}
