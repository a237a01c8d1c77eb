use ffsub::commands::encode::{
    check_start, spawn_failed, spawn_succeeded, start_encode, start_error_message,
    started_message, stop_encode, PathChecks, StartError,
};
use ffsub::state::AppState;
use ffsub::types::EncodeParams;

fn params() -> EncodeParams {
    EncodeParams {
        video_path: "/videos/movie.mkv".to_string(),
        subtitle_path: "/subs/movie.ass".to_string(),
        output_dir: "/out".to_string(),
        output_format: "mp4".to_string(),
        video_codec: "libx264".to_string(),
        crf: 23,
        subtitle_encoding: "utf8".to_string(),
        subtitle_style: "default".to_string(),
        subtitle_style_name: None,
    }
}

fn all_fine() -> PathChecks {
    PathChecks { video_exists: true, subtitle_exists: true, output_dir_is_dir: true }
}

#[test]
fn new_state_is_idle() {
    let state: AppState<u32> = AppState::new();
    assert!(!state.is_running());
    assert!(state.child.is_none());
    assert_eq!(state.get_total_duration(), 0);
}

#[test]
fn state_operations() {
    let mut state: AppState<u32> = AppState::new();
    state.set_running(true);
    assert!(state.is_running());
    state.set_total_duration(12_500_000);
    assert_eq!(state.get_total_duration(), 12_500_000);
    state.store_child(7);
    state.store_child(8);
    assert!(state.is_running());
    assert_eq!(state.take_child(), Some(8));
    assert_eq!(state.take_child(), None);
    assert_eq!(state.take_child(), None);
    assert!(state.is_running());
    assert_eq!(state.get_total_duration(), 12_500_000);
    state.set_running(false);
    assert!(!state.is_running());
}

#[test]
fn start_is_refused_for_each_bad_path() {
    let cases = [
        (
            PathChecks { video_exists: false, subtitle_exists: true, output_dir_is_dir: true },
            StartError::VideoNotFound,
        ),
        (
            PathChecks { video_exists: true, subtitle_exists: false, output_dir_is_dir: true },
            StartError::SubtitleNotFound,
        ),
        (
            PathChecks { video_exists: true, subtitle_exists: true, output_dir_is_dir: false },
            StartError::InvalidOutputDir,
        ),
        (
            PathChecks { video_exists: false, subtitle_exists: false, output_dir_is_dir: false },
            StartError::VideoNotFound,
        ),
        (
            PathChecks { video_exists: true, subtitle_exists: false, output_dir_is_dir: false },
            StartError::SubtitleNotFound,
        ),
    ];
    for (checks, expected) in cases {
        let mut state: AppState<u32> = AppState::new();
        state.set_total_duration(5);
        assert_eq!(check_start(&state, checks), Err(expected));
        assert_eq!(start_encode(&mut state, &params(), checks, Some(9)), Err(expected));
        assert!(!state.is_running());
        assert!(state.child.is_none());
        assert_eq!(state.get_total_duration(), 5);
    }
}

#[test]
fn accepted_start_marks_the_job_as_running() {
    let mut state: AppState<u32> = AppState::new();
    assert_eq!(check_start(&state, all_fine()), Ok(()));
    let started = start_encode(&mut state, &params(), all_fine(), Some(90_500_000));
    assert_eq!(started, Ok("/out/movie_sub.mp4".to_string()));
    assert!(state.is_running());
    assert!(state.child.is_none());
    assert_eq!(state.get_total_duration(), 90_500_000);
}

#[test]
fn failed_probe_leaves_the_duration_unknown() {
    let mut state: AppState<u32> = AppState::new();
    state.set_total_duration(77);
    assert!(start_encode(&mut state, &params(), all_fine(), None).is_ok());
    assert!(state.is_running());
    assert_eq!(state.get_total_duration(), 0);
}

#[test]
fn second_start_is_refused_while_running() {
    let mut state: AppState<u32> = AppState::new();
    assert!(start_encode(&mut state, &params(), all_fine(), Some(1)).is_ok());
    assert_eq!(
        start_encode(&mut state, &params(), all_fine(), Some(2)),
        Err(StartError::AlreadyRunning)
    );
    spawn_succeeded(&mut state, 42);
    let bad = PathChecks { video_exists: false, subtitle_exists: false, output_dir_is_dir: false };
    assert_eq!(start_encode(&mut state, &params(), bad, None), Err(StartError::AlreadyRunning));
    assert_eq!(state.get_total_duration(), 1);
    assert_eq!(state.child, Some(42));
    assert!(state.is_running());
}

#[test]
fn failed_spawn_frees_the_guard() {
    let mut state: AppState<u32> = AppState::new();
    assert!(start_encode(&mut state, &params(), all_fine(), Some(1)).is_ok());
    spawn_failed(&mut state);
    assert!(!state.is_running());
    assert!(state.child.is_none());
    assert!(start_encode(&mut state, &params(), all_fine(), Some(2)).is_ok());
}

#[test]
fn natural_end_leaves_the_state_idle() {
    let mut state: AppState<u32> = AppState::new();
    assert!(start_encode(&mut state, &params(), all_fine(), Some(1)).is_ok());
    spawn_succeeded(&mut state, 42);
    assert_eq!(state.take_child(), Some(42));
    state.set_running(false);
    assert!(!state.is_running());
    assert!(state.child.is_none());
    assert!(start_encode(&mut state, &params(), all_fine(), Some(2)).is_ok());
}

#[test]
fn stop_takes_the_handle_and_frees_the_guard() {
    let mut state: AppState<u32> = AppState::new();
    assert!(start_encode(&mut state, &params(), all_fine(), Some(1)).is_ok());
    spawn_succeeded(&mut state, 42);
    assert_eq!(stop_encode(&mut state), Some(42));
    assert!(!state.is_running());
    assert!(state.child.is_none());
    assert_eq!(state.take_child(), None);
    state.set_running(false);
    assert!(!state.is_running());
    assert!(state.child.is_none());
}

#[test]
fn stop_without_a_job_changes_nothing_but_the_flag() {
    let mut state: AppState<u32> = AppState::new();
    assert_eq!(stop_encode(&mut state), None);
    assert!(!state.is_running());
    state.set_running(true);
    state.set_total_duration(3);
    assert_eq!(stop_encode(&mut state), None);
    assert!(!state.is_running());
    assert_eq!(state.get_total_duration(), 3);
}

#[test]
fn refusals_are_worded() {
    let p = params();
    assert_eq!(start_error_message(StartError::AlreadyRunning, &p), "已有编码任务在运行");
    assert_eq!(
        start_error_message(StartError::VideoNotFound, &p),
        "视频文件不存在: /videos/movie.mkv"
    );
    assert_eq!(
        start_error_message(StartError::SubtitleNotFound, &p),
        "字幕文件不存在: /subs/movie.ass"
    );
    assert_eq!(start_error_message(StartError::InvalidOutputDir, &p), "输出目录无效: /out");
    assert_eq!(started_message("/out/movie_sub.mp4"), "编码已开始，输出文件: /out/movie_sub.mp4");
}
