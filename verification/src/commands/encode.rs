//! Starting and stopping the one job that may run at a time. The functions
//! here decide; whoever calls them looks at the file system, probes the
//! input, spawns the process and kills it.
use crate::ffmpeg::args::{build_output_path, is_output_path};
use crate::state::{after_step, after_steps, AppState, JobStep};
use crate::types::EncodeParams;
use vstd::prelude::*;

verus! {

/// Why a job was not started.
#[derive(Clone, Copy, Debug, PartialEq, Eq, Structural)]
pub enum StartError {
    /// Another job is running.
    AlreadyRunning,
    /// The video file does not exist.
    VideoNotFound,
    /// The subtitle file does not exist.
    SubtitleNotFound,
    /// The output directory is no directory.
    InvalidOutputDir,
}

/// What the file system says of a job's three paths.
#[derive(Clone, Copy, Debug)]
pub struct PathChecks {
    pub video_exists: bool,
    pub subtitle_exists: bool,
    pub output_dir_is_dir: bool,
}

/// Why a job cannot start, if it cannot. A running job comes first, then the
/// video file, the subtitle file and the output directory.
pub open spec fn start_error<H>(state: AppState<H>, checks: PathChecks) -> Option<StartError> {
    if state.running {
        Some(StartError::AlreadyRunning)
    } else if !checks.video_exists {
        Some(StartError::VideoNotFound)
    } else if !checks.subtitle_exists {
        Some(StartError::SubtitleNotFound)
    } else if !checks.output_dir_is_dir {
        Some(StartError::InvalidOutputDir)
    } else {
        None
    }
}

/// The duration to work with: the probed one, or 0 where the probe failed.
pub open spec fn known_duration(probed: Option<u64>) -> u64 {
    match probed {
        Some(micros) => micros,
        None => 0,
    }
}

/// The state once a job is accepted: its duration is set, and it is running.
pub open spec fn accepted<H>(state: AppState<H>, probed: Option<u64>) -> AppState<H> {
    after_steps(
        state,
        seq![JobStep::DurationSet(known_duration(probed)), JobStep::RunningSet(true)],
    )
}

/// The state once a job is stopped: no handle, not running.
pub open spec fn stopped<H>(state: AppState<H>) -> AppState<H> {
    after_steps(state, seq![JobStep::ChildTaken, JobStep::RunningSet(false)])
}

/// What a refused start is answered with.
pub open spec fn start_error_text(error: StartError, params: EncodeParams) -> Seq<char> {
    match error {
        StartError::AlreadyRunning => "已有编码任务在运行"@,
        StartError::VideoNotFound => "视频文件不存在: "@ + params.video_path@,
        StartError::SubtitleNotFound => "字幕文件不存在: "@ + params.subtitle_path@,
        StartError::InvalidOutputDir => "输出目录无效: "@ + params.output_dir@,
    }
}

proof fn lemma_accepted<H>(state: AppState<H>, probed: Option<u64>)
    ensures
        accepted(state, probed) == (AppState::<H> {
            running: true,
            total_duration: known_duration(probed),
            child: state.child,
        }),
{
    let steps = seq![JobStep::<H>::DurationSet(known_duration(probed)), JobStep::RunningSet(true)];
    assert(steps.drop_last() =~= seq![JobStep::<H>::DurationSet(known_duration(probed))]);
    assert(steps.drop_last().drop_last() =~= Seq::<JobStep<H>>::empty());
    reveal_with_fuel(after_steps, 3);
}

proof fn lemma_stopped<H>(state: AppState<H>)
    ensures
        stopped(state) == (AppState::<H> {
            running: false,
            total_duration: state.total_duration,
            child: None,
        }),
{
    let steps = seq![JobStep::<H>::ChildTaken, JobStep::RunningSet(false)];
    assert(steps.drop_last() =~= seq![JobStep::<H>::ChildTaken]);
    assert(steps.drop_last().drop_last() =~= Seq::<JobStep<H>>::empty());
    reveal_with_fuel(after_steps, 3);
}

/// Whether a job could start now. Nothing is changed.
pub fn check_start<H>(state: &AppState<H>, checks: PathChecks) -> (r: Result<(), StartError>)
    ensures
        r == match start_error(*state, checks) {
            Some(error) => Err::<(), StartError>(error),
            None => Ok(()),
        },
{
    if state.running {
        Err(StartError::AlreadyRunning)
    } else if !checks.video_exists {
        Err(StartError::VideoNotFound)
    } else if !checks.subtitle_exists {
        Err(StartError::SubtitleNotFound)
    } else if !checks.output_dir_is_dir {
        Err(StartError::InvalidOutputDir)
    } else {
        Ok(())
    }
}

/// Accepts or refuses a job. A refusal changes nothing. An accepted job is
/// marked as running, with the probed duration (0 where the probe failed),
/// and its output file is returned; the caller then spawns the process.
pub fn start_encode<H>(
    state: &mut AppState<H>,
    params: &EncodeParams,
    checks: PathChecks,
    probed_duration: Option<u64>,
) -> (r: Result<String, StartError>)
    ensures
        match start_error(*old(state), checks) {
            Some(error) => r == Err::<String, StartError>(error) && *final(state) == *old(state),
            None => r is Ok && is_output_path(*params, r->Ok_0@) && *final(state) == accepted(
                *old(state),
                probed_duration,
            ),
        },
{
    match check_start(state, checks) {
        Err(error) => Err(error),
        Ok(()) => {
            let duration = match probed_duration {
                Some(micros) => micros,
                None => 0,
            };
            state.set_total_duration(duration);
            state.set_running(true);
            proof {
                lemma_accepted(*old(state), probed_duration);
            }
            Ok(build_output_path(params))
        },
    }
}

/// Takes note that the process of an accepted job was spawned.
pub fn spawn_succeeded<H>(state: &mut AppState<H>, child: H)
    ensures
        *final(state) == after_step(*old(state), JobStep::ChildStored(child)),
{
    state.store_child(child);
}

/// Takes note that the process of an accepted job could not be spawned: the
/// job is no longer running, so that another can start.
pub fn spawn_failed<H>(state: &mut AppState<H>)
    ensures
        *final(state) == after_step(*old(state), JobStep::RunningSet(false)),
{
    state.set_running(false);
}

/// Stops the job, if one is running: the handle is taken out and returned,
/// for the caller to kill the process, and the job is no longer running.
/// Without a handle nothing is returned, and the state is idle all the same.
pub fn stop_encode<H>(state: &mut AppState<H>) -> (child: Option<H>)
    ensures
        child == old(state).child,
        *final(state) == stopped(*old(state)),
        !final(state).running,
        final(state).child is None,
{
    let child = state.take_child();
    state.set_running(false);
    proof {
        lemma_stopped(*old(state));
    }
    child
}

/// What a refused start is answered with.
pub fn start_error_message(error: StartError, params: &EncodeParams) -> (r: String)
    ensures
        r@ == start_error_text(error, *params),
{
    match error {
        StartError::AlreadyRunning => "已有编码任务在运行".to_string(),
        StartError::VideoNotFound => {
            let mut text = "视频文件不存在: ".to_string();
            text.append(params.video_path.as_str());
            text
        },
        StartError::SubtitleNotFound => {
            let mut text = "字幕文件不存在: ".to_string();
            text.append(params.subtitle_path.as_str());
            text
        },
        StartError::InvalidOutputDir => {
            let mut text = "输出目录无效: ".to_string();
            text.append(params.output_dir.as_str());
            text
        },
    }
}

/// What an accepted start is answered with once the process runs.
pub fn started_message(output_path: &str) -> (r: String)
    ensures
        r@ == "编码已开始，输出文件: "@ + output_path@,
{
    let mut text = "编码已开始，输出文件: ".to_string();
    text.append(output_path);
    text
}

/// While a job is running, the running flag stays up through every step
/// that does not take it down.
pub proof fn lemma_running_until_cleared<H>(state: AppState<H>, steps: Seq<JobStep<H>>)
    requires
        state.running,
        forall|i: int| 0 <= i < steps.len() ==> steps[i] != JobStep::<H>::RunningSet(false),
    ensures
        after_steps(state, steps).running,
    decreases steps.len(),
{
    if steps.len() > 0 {
        assert forall|i: int| 0 <= i < steps.drop_last().len() implies steps.drop_last()[i]
            != JobStep::<H>::RunningSet(false) by {
            assert(steps.drop_last()[i] == steps[i]);
        }
        lemma_running_until_cleared(state, steps.drop_last());
        assert(steps.last() == steps[steps.len() - 1]);
    }
}

/// Once a start was accepted, every further start is refused as already
/// running, whatever was done in between, until the running flag is taken
/// down: by the monitor when the job has ended, by a stop, or because the
/// process could not be spawned.
pub proof fn lemma_second_start_is_refused<H>(
    state: AppState<H>,
    first: PathChecks,
    probed: Option<u64>,
    between: Seq<JobStep<H>>,
    second: PathChecks,
)
    requires
        start_error(state, first) is None,
        forall|i: int| 0 <= i < between.len() ==> between[i] != JobStep::<H>::RunningSet(false),
    ensures
        start_error(after_steps(accepted(state, probed), between), second) == Some(
            StartError::AlreadyRunning,
        ),
{
    lemma_accepted(state, probed);
    lemma_running_until_cleared(accepted(state, probed), between);
}

/// Once the running flag is down it stays down, and a start with sound paths
/// is accepted, whatever is done in between, until a start puts the flag up.
pub proof fn lemma_idle_until_started<H>(
    state: AppState<H>,
    steps: Seq<JobStep<H>>,
    checks: PathChecks,
)
    requires
        !state.running,
        forall|i: int| 0 <= i < steps.len() ==> steps[i] != JobStep::<H>::RunningSet(true),
    ensures
        !after_steps(state, steps).running,
        checks.video_exists && checks.subtitle_exists && checks.output_dir_is_dir ==> start_error(
            after_steps(state, steps),
            checks,
        ) is None,
    decreases steps.len(),
{
    if steps.len() > 0 {
        assert forall|i: int| 0 <= i < steps.drop_last().len() implies steps.drop_last()[i]
            != JobStep::<H>::RunningSet(true) by {
            assert(steps.drop_last()[i] == steps[i]);
        }
        lemma_idle_until_started(state, steps.drop_last(), checks);
        assert(steps.last() == steps[steps.len() - 1]);
    }
}

/// While no new job is started, no handle comes into a state that has none.
pub proof fn lemma_no_child_until_stored<H>(state: AppState<H>, steps: Seq<JobStep<H>>)
    requires
        state.child is None,
        forall|i: int| 0 <= i < steps.len() ==> !(steps[i] is ChildStored),
    ensures
        after_steps(state, steps).child is None,
    decreases steps.len(),
{
    if steps.len() > 0 {
        assert forall|i: int| 0 <= i < steps.drop_last().len() implies !(
        steps.drop_last()[i] is ChildStored) by {
            assert(steps.drop_last()[i] == steps[i]);
        }
        lemma_no_child_until_stored(state, steps.drop_last());
        assert(steps.last() == steps[steps.len() - 1]);
    }
}

/// When a job has ended, the state is idle: the monitor takes the handle
/// out, reports the end, and takes the running flag down, and wherever the
/// job was stopped before that or in between, the state is then not running
/// and holds no handle. This holds as long as no new process is stored
/// before the monitor is done.
pub proof fn lemma_idle_after_job_ends<H>(
    state: AppState<H>,
    between: Seq<JobStep<H>>,
)
    requires
        forall|i: int| 0 <= i < between.len() ==> !(between[i] is ChildStored),
    ensures
        ({
            let taken = after_step(state, JobStep::ChildTaken);
            let end = after_step(after_steps(taken, between), JobStep::RunningSet(false));
            !end.running && end.child is None
        }),
{
    lemma_no_child_until_stored(after_step(state, JobStep::ChildTaken), between);
}

/// From the event that ends a job on, the state is idle until the next
/// start is accepted: the monitor takes the handle out, the flag is taken
/// down before the event is given, and whatever is done before and after
/// that, short of storing a new process or putting the flag up, the state is
/// not running and holds no handle.
pub proof fn lemma_idle_from_terminal_event<H>(
    state: AppState<H>,
    between: Seq<JobStep<H>>,
    after: Seq<JobStep<H>>,
)
    requires
        forall|i: int| 0 <= i < between.len() ==> !(between[i] is ChildStored),
        forall|i: int| 0 <= i < after.len() ==> !(after[i] is ChildStored),
        forall|i: int| 0 <= i < after.len() ==> after[i] != JobStep::<H>::RunningSet(true),
    ensures
        ({
            let taken = after_step(state, JobStep::ChildTaken);
            let reconciled = after_step(after_steps(taken, between), JobStep::RunningSet(false));
            let later = after_steps(reconciled, after);
            !reconciled.running && reconciled.child is None && !later.running && later.child
                is None
        }),
{
    let taken = after_step(state, JobStep::ChildTaken);
    let reconciled = after_step(after_steps(taken, between), JobStep::RunningSet(false));
    lemma_idle_after_job_ends(state, between);
    lemma_no_child_until_stored(reconciled, after);
    lemma_idle_until_started(
        reconciled,
        after,
        PathChecks { video_exists: true, subtitle_exists: true, output_dir_is_dir: true },
    );
}

} // verus!
