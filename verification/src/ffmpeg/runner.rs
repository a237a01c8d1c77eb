//! What follows from what the tools write: the duration and description of a
//! video file from the probing tool, and the events of a running job from
//! the encoding tool's output and from how its process ended.
use crate::ffmpeg::progress::{parse_progress_line, progress_of};
use crate::json::{
    array_len_at, error_text, json_contents, lemma_leaf_under, member, number_at, parse,
    parsed_json, text_at, under, JsonLeaf, JsonStep,
};
use crate::number::{
    decimal_digits, decimal_text, duration_text, format_duration, i32_to_string, parse_micros,
    parsed_micros, push_decimal,
};
use crate::paths::{extension, is_part_of, lowercase_of, to_lowercase};
use crate::state::{after_step, AppState, JobStep};
use crate::text::{
    chars_of, same_text, split, split_on, text_of, trim, trim_bounds, trimmed, views_of,
};
use crate::types::{EncodeProgress, ProgressRecord, VideoInfo, VideoInfoRecord};
use vstd::prelude::*;

verus! {

/// The width and height that the probing tool reports of a video stream,
/// each as far as it is a whole number.
#[derive(Clone, Copy, Debug)]
pub struct StreamSize {
    pub width: Option<u64>,
    pub height: Option<u64>,
}

/// What is read out of the probing tool's description of a file: the names
/// of its format, its duration as the tool wrote it, and the size of its
/// first video stream, each as far as it is there.
#[derive(Clone, Debug)]
pub struct ProbeReport {
    pub format_name: Option<String>,
    pub duration: Option<String>,
    pub first_stream: Option<StreamSize>,
}

/// What a `ProbeReport` holds, as mathematical values.
pub struct ProbeFields {
    pub format_name: Option<Seq<char>>,
    pub duration: Option<Seq<char>>,
    pub first_stream: Option<StreamSize>,
}

impl View for ProbeReport {
    type V = ProbeFields;

    open spec fn view(&self) -> ProbeFields {
        ProbeFields {
            format_name: match self.format_name {
                Some(name) => Some(name@),
                None => None,
            },
            duration: match self.duration {
                Some(text) => Some(text@),
                None => None,
            },
            first_stream: self.first_stream,
        }
    }
}

/// The formats that are preferred among the names the tool gives, best first.
pub open spec fn preferred_formats() -> Seq<Seq<char>> {
    seq!["mp4"@, "mkv"@, "mov"@, "webm"@, "avi"@, "flv"@, "wmv"@]
}

/// The names among `pieces`, each trimmed and in lowercase, empty ones left
/// out.
pub open spec fn format_candidates(pieces: Seq<Seq<char>>) -> Seq<Seq<char>>
    decreases pieces.len(),
{
    if pieces.len() == 0 {
        Seq::empty()
    } else {
        let name = lowercase_of(trimmed(pieces.last()));
        if name.len() > 0 {
            format_candidates(pieces.drop_last()).push(name)
        } else {
            format_candidates(pieces.drop_last())
        }
    }
}

/// The first preferred format, from position `from` on, that is among
/// `candidates`.
pub open spec fn first_preferred(candidates: Seq<Seq<char>>, from: int) -> Option<Seq<char>>
    decreases preferred_formats().len() - from,
{
    if from < 0 || from >= preferred_formats().len() {
        None
    } else if candidates.contains(preferred_formats()[from]) {
        Some(preferred_formats()[from])
    } else {
        first_preferred(candidates, from + 1)
    }
}

/// The format that a list of candidates stands for: the first preferred
/// format that is among them; failing that, the first of them; and `unknown`
/// where there is none.
pub open spec fn format_of_candidates(candidates: Seq<Seq<char>>) -> Seq<char> {
    match first_preferred(candidates, 0) {
        Some(format) => format,
        None => if candidates.len() > 0 {
            candidates[0]
        } else {
            "unknown"@
        },
    }
}

/// The format that a list of format names, separated by commas, stands for:
/// what its candidates stand for, which are the names, each trimmed and in
/// lowercase, empty ones left out.
pub open spec fn format_of_names(names: Seq<char>) -> Seq<char> {
    format_of_candidates(format_candidates(split_on(names, ',')))
}

/// The format to show: the file's extension in lowercase where it has one,
/// else what the tool's format names stand for.
pub open spec fn format_label(extension: Option<Seq<char>>, format_name: Option<Seq<char>>) -> Seq<
    char,
> {
    match extension {
        Some(ext) => lowercase_of(ext),
        None => format_of_names(
            match format_name {
                Some(names) => names,
                None => "unknown"@,
            },
        ),
    }
}

/// The duration to show: `HH:MM:SS` where the tool gave a decimal number of
/// seconds, `-` otherwise.
pub open spec fn duration_label(duration: Option<Seq<char>>) -> Seq<char> {
    match duration {
        Some(text) => match parsed_micros(text) {
            Some(micros) => duration_text(micros as nat),
            None => "-"@,
        },
        None => "-"@,
    }
}

/// A count, 0 where there is none.
pub open spec fn count_or_zero(count: Option<u64>) -> nat {
    match count {
        Some(n) => n as nat,
        None => 0,
    }
}

/// The resolution to show: width, `x`, height where there is a video stream,
/// `-` otherwise.
pub open spec fn resolution_label(stream: Option<StreamSize>) -> Seq<char> {
    match stream {
        Some(size) => decimal_digits(count_or_zero(size.width)) + "x"@ + decimal_digits(
            count_or_zero(size.height),
        ),
        None => "-"@,
    }
}

/// What is shown of a video file with the given extension and probe report.
pub open spec fn video_info_of(extension: Option<Seq<char>>, fields: ProbeFields) -> VideoInfoRecord {
    VideoInfoRecord {
        format: format_label(extension, fields.format_name),
        duration: duration_label(fields.duration),
        resolution: resolution_label(fields.first_stream),
    }
}

/// The views of a list of strings.
pub open spec fn texts_of(strings: Seq<String>) -> Seq<Seq<char>> {
    strings.map_values(|s: String| s@)
}

/// The preferred format at position `at`.
fn preferred_format(at: usize) -> (r: &'static str)
    requires
        at < 7,
    ensures
        preferred_formats().len() == 7,
        r@ == preferred_formats()[at as int],
{
    if at == 0 {
        "mp4"
    } else if at == 1 {
        "mkv"
    } else if at == 2 {
        "mov"
    } else if at == 3 {
        "webm"
    } else if at == 4 {
        "avi"
    } else if at == 5 {
        "flv"
    } else {
        "wmv"
    }
}

/// Whether `name` is among `names`.
fn is_among(names: &Vec<String>, name: &str) -> (r: bool)
    ensures
        r == texts_of(names@).contains(name@),
{
    let mut i: usize = 0;
    while i < names.len()
        invariant
            i <= names.len(),
            forall|j: int| 0 <= j < i ==> texts_of(names@)[j] != name@,
        decreases names.len() - i,
    {
        if same_text(names[i].as_str(), name) {
            assert(texts_of(names@)[i as int] == name@);
            return true;
        }
        i += 1;
    }
    false
}

/// The format that a list of candidates stands for: the first preferred
/// format that is among them; failing that, the first of them; and `unknown`
/// where there is none.
pub fn format_from_candidates(candidates: &Vec<String>) -> (r: String)
    ensures
        r@ == format_of_candidates(texts_of(candidates@)),
{
    let mut at: usize = 0;
    while at < 7
        invariant
            at <= 7,
            preferred_formats().len() == 7,
            first_preferred(texts_of(candidates@), 0) == first_preferred(
                texts_of(candidates@),
                at as int,
            ),
        decreases 7 - at,
    {
        let format = preferred_format(at);
        if is_among(candidates, format) {
            return format.to_string();
        }
        at += 1;
    }
    if candidates.len() > 0 {
        assert(texts_of(candidates@)[0] == candidates@[0]@);
        candidates[0].clone()
    } else {
        assert(texts_of(candidates@).len() == 0);
        "unknown".to_string()
    }
}

/// The format that a list of format names, separated by commas, stands for.
pub fn format_from_names(names: &str) -> (r: String)
    ensures
        r@ == format_of_names(names@),
{
    let pieces = split(&chars_of(names), ',');
    let mut candidates: Vec<String> = Vec::new();
    let mut i: usize = 0;
    assert(views_of(pieces@).take(0) =~= Seq::<Seq<char>>::empty());
    assert(texts_of(candidates@) =~= Seq::<Seq<char>>::empty());
    while i < pieces.len()
        invariant
            i <= pieces.len(),
            views_of(pieces@) == split_on(names@, ','),
            texts_of(candidates@) == format_candidates(views_of(pieces@).take(i as int)),
        decreases pieces.len() - i,
    {
        let (start, end) = trim_bounds(&pieces[i]);
        let name = to_lowercase(text_of(&pieces[i], start, end).as_str());
        proof {
            let done = views_of(pieces@).take(i as int);
            let next = views_of(pieces@).take(i + 1);
            assert(next.drop_last() =~= done);
            assert(next.last() == pieces@[i as int]@);
            assert(texts_of(candidates@.push(name)) =~= texts_of(candidates@).push(name@));
        }
        if !name.as_str().is_empty() {
            candidates.push(name);
        }
        i += 1;
    }
    assert(views_of(pieces@).take(pieces.len() as int) =~= views_of(pieces@));
    format_from_candidates(&candidates)
}

/// What is shown of a video file, given its extension, if it has one, and
/// what was read out of the probing tool's description.
pub fn video_info_from_report(extension: Option<&str>, report: &ProbeReport) -> (info: VideoInfo)
    ensures
        info@ == video_info_of(
            match extension {
                Some(ext) => Some(ext@),
                None => None,
            },
            report@,
        ),
{
    let format = match extension {
        Some(ext) => to_lowercase(ext),
        None => match &report.format_name {
            Some(names) => format_from_names(names.as_str()),
            None => format_from_names("unknown"),
        },
    };
    let duration = match &report.duration {
        Some(text) => match parse_micros(text.as_str()) {
            Some(micros) => format_duration(micros),
            None => "-".to_string(),
        },
        None => "-".to_string(),
    };
    let resolution = match report.first_stream {
        Some(size) => {
            let mut text = String::new();
            push_decimal(
                &mut text,
                match size.width {
                    Some(n) => n,
                    None => 0,
                },
            );
            text.append("x");
            push_decimal(
                &mut text,
                match size.height {
                    Some(n) => n,
                    None => 0,
                },
            );
            assert(text@ =~= resolution_label(report.first_stream));
            text
        },
        None => "-".to_string(),
    };
    VideoInfo { format, duration, resolution }
}

/// What the probing tool's description holds for `video_info_from_report`:
/// the format names at `format.format_name` and the duration at
/// `format.duration`, each where a text is there, and, where `streams` is an
/// array that is not empty, the `width` and `height` of its first item, each
/// where a whole number is there.
pub open spec fn report_of(contents: Map<Seq<JsonStep>, JsonLeaf>) -> ProbeFields {
    let format = JsonStep::Key("format"@);
    let streams = JsonStep::Key("streams"@);
    ProbeFields {
        format_name: text_at(contents, seq![format, JsonStep::Key("format_name"@)]),
        duration: text_at(contents, seq![format, JsonStep::Key("duration"@)]),
        first_stream: match array_len_at(contents, seq![streams]) {
            Some(len) => if len > 0 {
                Some(
                    StreamSize {
                        width: number_at(
                            contents,
                            seq![streams, JsonStep::Index(0), JsonStep::Key("width"@)],
                        ),
                        height: number_at(
                            contents,
                            seq![streams, JsonStep::Index(0), JsonStep::Key("height"@)],
                        ),
                    },
                )
            } else {
                None
            },
            None => None,
        },
    }
}

/// Reads out of a parsed description what `video_info_from_report` needs.
fn read_report(json: &serde_json::Value) -> (report: ProbeReport)
    ensures
        report@ == report_of(json_contents(*json)),
{
    let ghost contents = json_contents(*json);
    let ghost root = Seq::<JsonStep>::empty();
    let ghost format_key = JsonStep::Key("format"@);
    let ghost streams_key = JsonStep::Key("streams"@);
    let format = member(json, "format");
    let format_name = match member(format, "format_name").as_str() {
        Some(text) => Some(text.to_string()),
        None => None,
    };
    proof {
        let key = JsonStep::Key("format_name"@);
        lemma_leaf_under(under(contents, format_key), key, root);
        lemma_leaf_under(contents, format_key, seq![key] + root);
        assert(seq![format_key] + (seq![key] + root) =~= seq![format_key, key]);
    }
    let duration = match member(format, "duration").as_str() {
        Some(text) => Some(text.to_string()),
        None => None,
    };
    proof {
        let key = JsonStep::Key("duration"@);
        lemma_leaf_under(under(contents, format_key), key, root);
        lemma_leaf_under(contents, format_key, seq![key] + root);
        assert(seq![format_key] + (seq![key] + root) =~= seq![format_key, key]);
    }
    let listed = member(json, "streams");
    proof {
        lemma_leaf_under(contents, streams_key, root);
        assert(seq![streams_key] + root =~= seq![streams_key]);
    }
    let first_stream = match listed.as_array() {
        Some(streams) => if streams.len() > 0 {
            let stream = &streams[0];
            let width = member(stream, "width").as_u64();
            let height = member(stream, "height").as_u64();
            proof {
                let first = JsonStep::Index(0);
                let inner = under(under(contents, streams_key), first);
                assert(json_contents(streams@[0]) == inner);
                let w = JsonStep::Key("width"@);
                lemma_leaf_under(inner, w, root);
                lemma_leaf_under(under(contents, streams_key), first, seq![w] + root);
                lemma_leaf_under(contents, streams_key, seq![first] + (seq![w] + root));
                assert(seq![streams_key] + (seq![first] + (seq![w] + root)) =~= seq![
                    streams_key,
                    first,
                    w,
                ]);
                let h = JsonStep::Key("height"@);
                lemma_leaf_under(inner, h, root);
                lemma_leaf_under(under(contents, streams_key), first, seq![h] + root);
                lemma_leaf_under(contents, streams_key, seq![first] + (seq![h] + root));
                assert(seq![streams_key] + (seq![first] + (seq![h] + root)) =~= seq![
                    streams_key,
                    first,
                    h,
                ]);
            }
            Some(StreamSize { width, height })
        } else {
            None
        },
        None => None,
    };
    ProbeReport { format_name, duration, first_stream }
}

/// What a description that is no JSON is answered with.
pub open spec fn is_parse_failure(message: Seq<char>) -> bool {
    exists|reason: Seq<char>| message == "解析 ffprobe 输出失败: "@ + reason
}

/// Whether `info` is what is shown of a video file at `video_path` whose
/// description holds `contents`, for some extension that the path may have.
pub open spec fn is_video_info(
    info: VideoInfoRecord,
    video_path: Seq<char>,
    contents: Map<Seq<JsonStep>, JsonLeaf>,
) -> bool {
    exists|ext: Option<Seq<char>>|
        {
            &&& info == #[trigger] video_info_of(ext, report_of(contents))
            &&& ext matches Some(e) ==> is_part_of(e, video_path) && !e.contains('.')
        }
}

/// What is shown of a video file, from its path and from the description
/// that the probing tool wrote of it as JSON. A description that is no JSON
/// is an error, and no other is. Otherwise the result is what
/// `video_info_from_report` gives for the extension that the path has and
/// for what the description holds.
pub fn probe_video_info(video_path: &str, stdout: &str) -> (r: Result<VideoInfo, String>)
    ensures
        match r {
            Ok(info) => parsed_json(stdout@) matches Some(contents) && is_video_info(
                info@,
                video_path@,
                contents,
            ),
            Err(message) => parsed_json(stdout@) is None && is_parse_failure(message@),
        },
{
    match parse(stdout) {
        Err(error) => {
            let reason = error_text(&error);
            let mut message = "解析 ffprobe 输出失败: ".to_string();
            message.append(reason.as_str());
            assert(message@ == "解析 ffprobe 输出失败: "@ + reason@);
            Err(message)
        },
        Ok(json) => {
            let report = read_report(&json);
            let ext = extension(video_path);
            let info = match &ext {
                Some(e) => video_info_from_report(Some(e.as_str()), &report),
                None => video_info_from_report(None, &report),
            };
            proof {
                let found: Option<Seq<char>> = match ext {
                    Some(e) => Some(e@),
                    None => None,
                };
                assert(info@ == video_info_of(found, report@));
            }
            Ok(info)
        },
    }
}

/// What an unreadable duration is answered with.
pub open spec fn duration_error_text() -> Seq<char> {
    "无法解析视频时长"@
}

/// The duration of a video file, in millionths of a second, from what the
/// probing tool wrote when asked for the duration alone: a decimal number of
/// seconds, with whitespace around it. Anything else is an error.
pub fn probe_duration(stdout: &str) -> (r: Result<u64, String>)
    ensures
        match parsed_micros(trimmed(stdout@)) {
            Some(micros) => r == Ok::<u64, String>(micros),
            None => r matches Err(message) && message@ == duration_error_text(),
        },
{
    match parse_micros(trim(stdout).as_str()) {
        Some(micros) => Ok(micros),
        None => Err("无法解析视频时长".to_string()),
    }
}

/// What the monitor of a running job reports.
#[derive(Clone, Debug)]
pub enum MonitorEvent {
    /// The tool reported progress.
    Progress(EncodeProgress),
    /// The tool wrote a line that is no progress report.
    Log(String),
    /// The job has ended well; the text is the output file.
    Complete(String),
    /// The job has failed; the text says how.
    Error(String),
}

/// What a `MonitorEvent` holds, as mathematical values.
pub enum EventRecord {
    Progress(ProgressRecord),
    Log(Seq<char>),
    Complete(Seq<char>),
    Error(Seq<char>),
}

impl View for MonitorEvent {
    type V = EventRecord;

    open spec fn view(&self) -> EventRecord {
        match self {
            MonitorEvent::Progress(progress) => EventRecord::Progress(progress@),
            MonitorEvent::Log(text) => EventRecord::Log(text@),
            MonitorEvent::Complete(path) => EventRecord::Complete(path@),
            MonitorEvent::Error(message) => EventRecord::Error(message@),
        }
    }
}

/// The least time between two progress events, in milliseconds.
pub const PROGRESS_INTERVAL_MS: u64 = 200;

/// Holds progress events back so that at least `PROGRESS_INTERVAL_MS` lie
/// between two of them. Times are milliseconds on a clock that does not run
/// backwards.
pub struct ProgressThrottle {
    pub last_emit_ms: u64,
}

/// The time from `last` to `now`, 0 where `now` is the earlier.
pub open spec fn elapsed_ms(last: u64, now: u64) -> int {
    if now >= last {
        now - last
    } else {
        0
    }
}

/// Whether a progress event may pass at `now` when the last passed at `last`.
pub open spec fn passes(last: u64, now: u64) -> bool {
    elapsed_ms(last, now) >= PROGRESS_INTERVAL_MS
}

/// What one segment of a line gives rise to at time `now`, and the time of
/// the last progress event afterwards. A segment of whitespace alone gives
/// nothing. A progress report gives a progress event if one may pass, and
/// nothing otherwise. Anything else gives a log event with the trimmed text.
pub open spec fn segment_step(segment: Seq<char>, total: u64, last: u64, now: u64) -> (
    Option<EventRecord>,
    u64,
) {
    let text = trimmed(segment);
    if text.len() == 0 {
        (None, last)
    } else {
        match progress_of(text, total) {
            Some(progress) => if passes(last, now) {
                (Some(EventRecord::Progress(progress)), now)
            } else {
                (None, last)
            },
            None => (Some(EventRecord::Log(text)), last),
        }
    }
}

/// The events that the segments give rise to at time `now`, in order, and
/// the time of the last progress event afterwards.
pub open spec fn segment_events(segments: Seq<Seq<char>>, total: u64, last: u64, now: u64) -> (
    Seq<EventRecord>,
    u64,
)
    decreases segments.len(),
{
    if segments.len() == 0 {
        (Seq::empty(), last)
    } else {
        let (events, mid) = segment_events(segments.drop_last(), total, last, now);
        let (event, end) = segment_step(segments.last(), total, mid, now);
        (
            match event {
                Some(e) => events.push(e),
                None => events,
            },
            end,
        )
    }
}

/// The events that one line of the tool's output gives rise to. The tool
/// rewrites its progress in place, so a line falls into segments at each
/// carriage return.
pub open spec fn line_events(line: Seq<char>, total: u64, last: u64, now: u64) -> (
    Seq<EventRecord>,
    u64,
) {
    segment_events(split_on(line, '\r'), total, last, now)
}

/// The views of a list of events.
pub open spec fn records_of(events: Seq<MonitorEvent>) -> Seq<EventRecord> {
    events.map_values(|e: MonitorEvent| e@)
}

/// How a process ended.
#[derive(Clone, Copy, Debug)]
pub struct ProcessExit {
    /// Whether it reported success.
    pub success: bool,
    /// Its exit code, where it has one.
    pub code: Option<i32>,
}

/// An exit code as it is written in an error message.
pub open spec fn exit_code_text(code: Option<i32>) -> Seq<char> {
    match code {
        Some(n) => "Some("@ + decimal_text(n as int) + ")"@,
        None => "None"@,
    }
}

/// The event that ends a job. Where the handle was gone (the job was
/// stopped) or the process reported success, the job is complete, with its
/// output file. Where the process reported failure, the job has failed, and
/// the message gives the exit code.
pub open spec fn exit_record(exit: Option<ProcessExit>, output_path: Seq<char>) -> EventRecord {
    match exit {
        None => EventRecord::Complete(output_path),
        Some(status) => if status.success {
            EventRecord::Complete(output_path)
        } else {
            EventRecord::Error("FFmpeg 进程异常退出: code="@ + exit_code_text(status.code))
        },
    }
}

/// How the monitor found the process when the tool's output had ended.
#[derive(Clone, Debug)]
pub enum JobEnd {
    /// The handle was gone: the job had been stopped.
    Stopped,
    /// The process was waited for and has exited.
    Exited(ProcessExit),
    /// The process could not be waited for; the text says why.
    WaitFailed(String),
}

/// What a `JobEnd` holds, as mathematical values.
pub enum JobEndRecord {
    Stopped,
    Exited(ProcessExit),
    WaitFailed(Seq<char>),
}

impl View for JobEnd {
    type V = JobEndRecord;

    open spec fn view(&self) -> JobEndRecord {
        match self {
            JobEnd::Stopped => JobEndRecord::Stopped,
            JobEnd::Exited(exit) => JobEndRecord::Exited(*exit),
            JobEnd::WaitFailed(reason) => JobEndRecord::WaitFailed(reason@),
        }
    }
}

/// The event that ends a job. A job that was stopped and a process that
/// reported success are complete, with the output file. A process that
/// reported failure, and one that could not be waited for, are errors.
pub open spec fn end_record(end: JobEndRecord, output_path: Seq<char>) -> EventRecord {
    match end {
        JobEndRecord::Stopped => exit_record(None, output_path),
        JobEndRecord::Exited(exit) => exit_record(Some(exit), output_path),
        JobEndRecord::WaitFailed(reason) => EventRecord::Error("等待 FFmpeg 退出失败: "@ + reason),
    }
}

/// The name under which an event is sent.
pub open spec fn event_name_of(event: EventRecord) -> Seq<char> {
    match event {
        EventRecord::Progress(_) => "encode-progress"@,
        EventRecord::Log(_) => "encode-log"@,
        EventRecord::Complete(_) => "encode-complete"@,
        EventRecord::Error(_) => "encode-error"@,
    }
}

impl ProgressThrottle {
    /// A throttle that lets the first progress event pass
    /// `PROGRESS_INTERVAL_MS` after `now_ms`.
    pub fn new(now_ms: u64) -> (throttle: Self)
        ensures
            throttle.last_emit_ms == now_ms,
    {
        ProgressThrottle { last_emit_ms: now_ms }
    }

    /// Whether a progress event may pass at `now_ms`. If so, the next may
    /// pass `PROGRESS_INTERVAL_MS` later.
    pub fn allow(&mut self, now_ms: u64) -> (r: bool)
        ensures
            r == passes(old(self).last_emit_ms, now_ms),
            final(self).last_emit_ms == if r {
                now_ms
            } else {
                old(self).last_emit_ms
            },
    {
        if now_ms >= self.last_emit_ms && now_ms - self.last_emit_ms >= PROGRESS_INTERVAL_MS {
            self.last_emit_ms = now_ms;
            true
        } else {
            false
        }
    }
}

/// What one segment of a line gives rise to at time `now_ms`.
pub fn monitor_segment(
    segment: &str,
    total_duration_micros: u64,
    throttle: &mut ProgressThrottle,
    now_ms: u64,
) -> (event: Option<MonitorEvent>)
    ensures
        (
            match event {
                Some(e) => Some(e@),
                None => None,
            },
            final(throttle).last_emit_ms,
        ) == segment_step(segment@, total_duration_micros, old(throttle).last_emit_ms, now_ms),
{
    let text = trim(segment);
    if text.as_str().is_empty() {
        return None;
    }
    match parse_progress_line(text.as_str(), total_duration_micros) {
        Some(progress) => {
            if throttle.allow(now_ms) {
                Some(MonitorEvent::Progress(progress))
            } else {
                None
            }
        },
        None => Some(MonitorEvent::Log(text)),
    }
}

/// The segments of one line of the tool's output: what stands between its
/// carriage returns.
pub fn line_segments(line: &str) -> (segments: Vec<String>)
    ensures
        texts_of(segments@) == split_on(line@, '\r'),
{
    let pieces = split(&chars_of(line), '\r');
    let mut segments: Vec<String> = Vec::new();
    let mut i: usize = 0;
    while i < pieces.len()
        invariant
            i <= pieces.len(),
            views_of(pieces@) == split_on(line@, '\r'),
            texts_of(segments@) == views_of(pieces@).take(i as int),
        decreases pieces.len() - i,
    {
        let segment = text_of(&pieces[i], 0, pieces[i].len());
        proof {
            assert(pieces@[i as int]@.subrange(0, pieces@[i as int]@.len() as int)
                == pieces@[i as int]@);
            assert(texts_of(segments@.push(segment)) =~= texts_of(segments@).push(segment@));
            assert(views_of(pieces@).take(i + 1) =~= views_of(pieces@).take(i as int).push(
                pieces@[i as int]@,
            ));
        }
        segments.push(segment);
        i += 1;
    }
    assert(views_of(pieces@).take(pieces.len() as int) =~= views_of(pieces@));
    segments
}

/// The events that one line of the tool's output gives rise to at time
/// `now_ms`, in order.
pub fn monitor_line(
    line: &str,
    total_duration_micros: u64,
    throttle: &mut ProgressThrottle,
    now_ms: u64,
) -> (events: Vec<MonitorEvent>)
    ensures
        (records_of(events@), final(throttle).last_emit_ms) == line_events(
            line@,
            total_duration_micros,
            old(throttle).last_emit_ms,
            now_ms,
        ),
{
    let segments = line_segments(line);
    let mut events: Vec<MonitorEvent> = Vec::new();
    let mut i: usize = 0;
    assert(texts_of(segments@).take(0) =~= Seq::<Seq<char>>::empty());
    assert(records_of(events@) =~= Seq::<EventRecord>::empty());
    while i < segments.len()
        invariant
            i <= segments.len(),
            texts_of(segments@) == split_on(line@, '\r'),
            (records_of(events@), throttle.last_emit_ms) == segment_events(
                texts_of(segments@).take(i as int),
                total_duration_micros,
                old(throttle).last_emit_ms,
                now_ms,
            ),
        decreases segments.len() - i,
    {
        proof {
            let done = texts_of(segments@).take(i as int);
            let next = texts_of(segments@).take(i + 1);
            assert(next.drop_last() =~= done);
            assert(next.last() == segments@[i as int]@);
        }
        match monitor_segment(segments[i].as_str(), total_duration_micros, throttle, now_ms) {
            Some(event) => {
                assert(records_of(events@.push(event)) =~= records_of(events@).push(event@));
                events.push(event);
            },
            None => {},
        }
        i += 1;
    }
    assert(texts_of(segments@).take(segments.len() as int) =~= texts_of(segments@));
    events
}

/// The event that ends a job, from how its process ended; `None` for the
/// exit says that the handle was gone when the monitor came for it, the job
/// having been stopped.
pub fn exit_event(exit: Option<ProcessExit>, output_path: &str) -> (event: MonitorEvent)
    ensures
        event@ == exit_record(exit, output_path@),
{
    match exit {
        None => MonitorEvent::Complete(output_path.to_string()),
        Some(status) => {
            if status.success {
                MonitorEvent::Complete(output_path.to_string())
            } else {
                let mut message = "FFmpeg 进程异常退出: code=".to_string();
                match status.code {
                    Some(n) => {
                        message.append("Some(");
                        message.append(i32_to_string(n).as_str());
                        message.append(")");
                    },
                    None => {
                        message.append("None");
                    },
                }
                assert(message@ =~= "FFmpeg 进程异常退出: code="@ + exit_code_text(status.code));
                MonitorEvent::Error(message)
            }
        },
    }
}

/// The event that ends a job whose process could not be waited for.
pub fn wait_failed_event(reason: &str) -> (event: MonitorEvent)
    ensures
        event@ == EventRecord::Error("等待 FFmpeg 退出失败: "@ + reason@),
{
    let mut message = "等待 FFmpeg 退出失败: ".to_string();
    message.append(reason);
    MonitorEvent::Error(message)
}

/// The event that ends a job whose state could not be reached.
pub fn state_failed_event(reason: &str) -> (event: MonitorEvent)
    ensures
        event@ == EventRecord::Error("获取子进程失败: "@ + reason@),
{
    let mut message = "获取子进程失败: ".to_string();
    message.append(reason);
    MonitorEvent::Error(message)
}

/// Winds a job up once the tool's output has ended and the monitor has
/// taken the handle out and waited for the process: the running flag is
/// taken down, whatever the end was, and the event that ends the job is
/// returned. The flag is down before there is an event to send.
pub fn reconcile<H>(state: &mut AppState<H>, end: JobEnd, output_path: &str) -> (event:
    MonitorEvent)
    ensures
        *final(state) == after_step(*old(state), JobStep::RunningSet(false)),
        !final(state).running,
        event@ == end_record(end@, output_path@),
{
    state.set_running(false);
    match end {
        JobEnd::Stopped => exit_event(None, output_path),
        JobEnd::Exited(exit) => exit_event(Some(exit), output_path),
        JobEnd::WaitFailed(reason) => wait_failed_event(reason.as_str()),
    }
}

/// The name under which an event is sent.
pub fn event_name(event: &MonitorEvent) -> (name: &'static str)
    ensures
        name@ == event_name_of(event@),
{
    match event {
        MonitorEvent::Progress(_) => "encode-progress",
        MonitorEvent::Log(_) => "encode-log",
        MonitorEvent::Complete(_) => "encode-complete",
        MonitorEvent::Error(_) => "encode-error",
    }
}

/// Text of the tool that is no progress report is never dropped: each segment
/// that holds more than whitespace and is no progress report gives rise to a
/// log event with its trimmed text, whatever comes before and after it.
pub proof fn lemma_log_is_never_dropped(
    segments: Seq<Seq<char>>,
    total: u64,
    last: u64,
    now: u64,
    at: int,
)
    requires
        0 <= at < segments.len(),
        trimmed(segments[at]).len() > 0,
        progress_of(trimmed(segments[at]), total) is None,
    ensures
        segment_events(segments, total, last, now).0.contains(
            EventRecord::Log(trimmed(segments[at])),
        ),
    decreases segments.len(),
{
    let wanted = EventRecord::Log(trimmed(segments[at]));
    let before = segment_events(segments.drop_last(), total, last, now);
    let step = segment_step(segments.last(), total, before.1, now);
    let events = segment_events(segments, total, last, now).0;
    if at == segments.len() - 1 {
        assert(events == before.0.push(wanted));
        assert(events[events.len() - 1] == wanted);
    } else {
        assert(segments.drop_last()[at] == segments[at]);
        lemma_log_is_never_dropped(segments.drop_last(), total, last, now, at);
        let found = choose|i: int| 0 <= i < before.0.len() && before.0[i] == wanted;
        assert(0 <= found < before.0.len() && before.0[found] == wanted);
        assert(events[found] == wanted);
    }
}

/// Progress events are spaced: where one passes at `first` and the next at
/// `second`, at least `PROGRESS_INTERVAL_MS` lie between the two.
pub proof fn lemma_progress_events_are_spaced(last: u64, first: u64, second: u64)
    requires
        passes(last, first),
        passes(first, second),
    ensures
        second - first >= PROGRESS_INTERVAL_MS,
{
}

} // verus!
