//! The command line of the encoding tool: which program, which arguments,
//! which encoder.
use crate::number::{decimal_text, i32_to_string};
use crate::paths::{file_stem, is_part_of, lowercase_of, to_lowercase};
use crate::text::{chars_of, contains, contains_text, same_text};
use crate::types::{EncodeParams, GpuEncoder};
use vstd::prelude::*;

verus! {

/// The name of the encoding tool's program.
pub open spec fn ffmpeg_name(windows: bool) -> Seq<char> {
    if windows {
        "ffmpeg.exe"@
    } else {
        "ffmpeg"@
    }
}

/// The name of the probing tool's program.
pub open spec fn ffprobe_name(windows: bool) -> Seq<char> {
    if windows {
        "ffprobe.exe"@
    } else {
        "ffprobe"@
    }
}

/// Whether `c` has a meaning of its own inside a filter description.
pub open spec fn is_filter_meta(c: char) -> bool {
    c == '\\' || c == ':' || c == ',' || c == '\'' || c == '[' || c == ']' || c == ';'
}

/// `c` as it is written inside a filter description: with a backslash before
/// it where it would otherwise have a meaning of its own.
pub open spec fn escaped_char(c: char) -> Seq<char> {
    if is_filter_meta(c) {
        seq!['\\', c]
    } else {
        seq![c]
    }
}

/// `path` as it is written inside a filter description.
pub open spec fn escaped_path(path: Seq<char>) -> Seq<char>
    decreases path.len(),
{
    if path.len() == 0 {
        Seq::empty()
    } else {
        escaped_path(path.drop_last()) + escaped_char(path.last())
    }
}

/// Whether `text` reads as a run of plain characters and of backslashes each
/// followed by one more character: no character with a meaning of its own
/// stands in it unescaped, and no backslash is left open at its end.
pub open spec fn fully_escaped(text: Seq<char>) -> bool
    decreases text.len(),
{
    if text.len() == 0 {
        true
    } else if text[0] == '\\' {
        text.len() >= 2 && fully_escaped(text.skip(2))
    } else {
        !is_filter_meta(text[0]) && fully_escaped(text.skip(1))
    }
}

/// What `text` stands for once each escaping backslash is taken out.
pub open spec fn unescaped(text: Seq<char>) -> Seq<char>
    decreases text.len(),
{
    if text.len() == 0 {
        Seq::empty()
    } else if text[0] == '\\' && text.len() >= 2 {
        seq![text[1]] + unescaped(text.skip(2))
    } else {
        seq![text[0]] + unescaped(text.skip(1))
    }
}

/// The filter that burns the subtitles in.
pub open spec fn subtitle_filter(params: EncodeParams) -> Seq<char> {
    "subtitles='"@ + escaped_path(params.subtitle_path@) + "'"@ + (if params.subtitle_encoding@
        != "utf8"@ {
        ":charenc="@ + params.subtitle_encoding@
    } else {
        Seq::empty()
    }) + (if params.subtitle_style@ == "custom"@ {
        ":force_style='PrimaryColour=&H00FFFFFF'"@
    } else {
        Seq::empty()
    })
}

/// The output file of a job whose video file has the stem `stem`.
pub open spec fn output_path(params: EncodeParams, stem: Option<Seq<char>>) -> Seq<char> {
    params.output_dir@ + "/"@ + (match stem {
        Some(s) => s,
        None => "output"@,
    }) + "_sub."@ + params.output_format@
}

/// Whether `path` is the output file of a job, for some stem that the video
/// file's path may have.
pub open spec fn is_output_path(params: EncodeParams, path: Seq<char>) -> bool {
    exists|stem: Option<Seq<char>>|
        {
            &&& path == #[trigger] output_path(params, stem)
            &&& stem matches Some(s) ==> is_part_of(s, params.video_path@)
        }
}

/// The H.264 encoder to use where `hw` was detected.
pub open spec fn h264_encoder(hw: Option<GpuEncoder>) -> Seq<char> {
    match hw {
        Some(GpuEncoder::Nvenc) => "h264_nvenc"@,
        Some(GpuEncoder::Qsv) => "h264_qsv"@,
        Some(GpuEncoder::Vaapi) => "h264_vaapi"@,
        Some(GpuEncoder::Amf) => "h264_amf"@,
        None => "libx264"@,
    }
}

/// The H.265 encoder to use where `hw` was detected.
pub open spec fn hevc_encoder(hw: Option<GpuEncoder>) -> Seq<char> {
    match hw {
        Some(GpuEncoder::Nvenc) => "hevc_nvenc"@,
        Some(GpuEncoder::Qsv) => "hevc_qsv"@,
        Some(GpuEncoder::Vaapi) => "hevc_vaapi"@,
        Some(GpuEncoder::Amf) => "hevc_amf"@,
        None => "libx265"@,
    }
}

/// The encoder that stands for the requested codec: the hardware one for the
/// two software codecs where hardware was detected, the request itself
/// otherwise.
pub open spec fn selected_codec(requested: Seq<char>, hw: Option<GpuEncoder>) -> Seq<char> {
    if requested == "libx264"@ {
        h264_encoder(hw)
    } else if requested == "libx265"@ {
        hevc_encoder(hw)
    } else {
        requested
    }
}

/// The encoder that is handed to the tool. A stream copy cannot pass through
/// a filter, so a request to copy becomes software H.264.
pub open spec fn final_codec(requested: Seq<char>, hw: Option<GpuEncoder>) -> Seq<char> {
    let selected = selected_codec(requested, hw);
    if selected == "copy"@ {
        "libx264"@
    } else {
        selected
    }
}

/// Whether the encoder that is handed to the tool is a hardware encoder:
/// hardware was detected, and the request was for one of the two codecs that
/// have hardware encoders. Quality is then given as a global quality rather
/// than as a constant rate factor.
pub open spec fn uses_global_quality(requested: Seq<char>, hw: Option<GpuEncoder>) -> bool {
    hw is Some && (requested == "libx264"@ || requested == "libx265"@)
}

/// The arguments that set the quality.
pub open spec fn quality_args(requested: Seq<char>, crf: i32, hw: Option<GpuEncoder>) -> Seq<
    Seq<char>,
> {
    if uses_global_quality(requested, hw) {
        seq!["-global_quality"@, decimal_text(crf as int)]
    } else {
        seq!["-crf"@, decimal_text(crf as int), "-preset"@, "medium"@]
    }
}

/// The arguments that place the index of an MP4 file at its front.
pub open spec fn container_args(format: Seq<char>) -> Seq<Seq<char>> {
    if format == "mp4"@ {
        seq!["-movflags"@, "+faststart"@]
    } else {
        Seq::empty()
    }
}

/// The whole argument list of an encoding job.
pub open spec fn encode_args(params: EncodeParams, output: Seq<char>, hw: Option<GpuEncoder>) -> Seq<
    Seq<char>,
> {
    seq![
        "-i"@,
        params.video_path@,
        "-vf"@,
        subtitle_filter(params),
        "-c:v"@,
        final_codec(params.video_codec@, hw),
    ] + quality_args(params.video_codec@, params.crf, hw) + seq![
        "-threads"@,
        "0"@,
        "-c:a"@,
        "copy"@,
    ] + container_args(params.output_format@) + seq!["-y"@, output]
}

/// The encoder family that a listing of encoders names, the listing taken as
/// it stands. Where it names several, the first in the order NVENC, QSV,
/// VAAPI, AMF counts.
pub open spec fn gpu_encoder_in(listing: Seq<char>) -> Option<GpuEncoder> {
    if contains_text(listing, "h264_nvenc"@) || contains_text(listing, "hevc_nvenc"@) {
        Some(GpuEncoder::Nvenc)
    } else if contains_text(listing, "h264_qsv"@) || contains_text(listing, "hevc_qsv"@) {
        Some(GpuEncoder::Qsv)
    } else if contains_text(listing, "h264_vaapi"@) || contains_text(listing, "hevc_vaapi"@) {
        Some(GpuEncoder::Vaapi)
    } else if contains_text(listing, "h264_amf"@) || contains_text(listing, "hevc_amf"@) {
        Some(GpuEncoder::Amf)
    } else {
        None
    }
}

/// The arguments that ask the probing tool for a file's duration alone.
pub open spec fn probe_duration_args(video_path: Seq<char>) -> Seq<Seq<char>> {
    seq![
        "-v"@,
        "error"@,
        "-show_entries"@,
        "format=duration"@,
        "-of"@,
        "default=noprint_wrappers=1:nokey=1"@,
        video_path,
    ]
}

/// The arguments that ask the probing tool for a file's description as JSON.
pub open spec fn probe_info_args(video_path: Seq<char>) -> Seq<Seq<char>> {
    seq![
        "-v"@,
        "error"@,
        "-select_streams"@,
        "v:0"@,
        "-show_entries"@,
        "stream=width,height,duration:format=duration,format_name"@,
        "-of"@,
        "json"@,
        video_path,
    ]
}

/// The name of the encoding tool's program.
pub fn ffmpeg_bin(windows: bool) -> (r: &'static str)
    ensures
        r@ == ffmpeg_name(windows),
{
    if windows {
        "ffmpeg.exe"
    } else {
        "ffmpeg"
    }
}

/// The name of the probing tool's program.
pub fn ffprobe_bin(windows: bool) -> (r: &'static str)
    ensures
        r@ == ffprobe_name(windows),
{
    if windows {
        "ffprobe.exe"
    } else {
        "ffprobe"
    }
}

/// Whether `c` has a meaning of its own inside a filter description.
pub fn char_is_filter_meta(c: char) -> (r: bool)
    ensures
        r == is_filter_meta(c),
{
    c == '\\' || c == ':' || c == ',' || c == '\'' || c == '[' || c == ']' || c == ';'
}

/// Writes a path so that it can stand inside a filter description.
pub fn escape_filter_path(path: &str) -> (r: String)
    ensures
        r@ == escaped_path(path@),
{
    let v = chars_of(path);
    let mut out = String::new();
    let mut i: usize = 0;
    while i < v.len()
        invariant
            i <= v.len(),
            v@ == path@,
            out@ == escaped_path(v@.take(i as int)),
        decreases v.len() - i,
    {
        let c = v[i];
        assert(v@.take(i + 1).drop_last() == v@.take(i as int));
        if char_is_filter_meta(c) {
            out.push('\\');
        }
        out.push(c);
        assert(out@ =~= escaped_path(v@.take(i as int)) + escaped_char(c));
        i += 1;
    }
    assert(v@.take(v.len() as int) == v@);
    out
}

/// The filter that burns the subtitles in.
pub fn build_subtitle_filter(params: &EncodeParams) -> (r: String)
    ensures
        r@ == subtitle_filter(*params),
{
    let escaped = escape_filter_path(params.subtitle_path.as_str());
    let mut filter = "subtitles='".to_string();
    filter.append(escaped.as_str());
    filter.append("'");
    if !same_text(params.subtitle_encoding.as_str(), "utf8") {
        filter.append(":charenc=");
        filter.append(params.subtitle_encoding.as_str());
    }
    if same_text(params.subtitle_style.as_str(), "custom") {
        filter.append(":force_style='PrimaryColour=&H00FFFFFF'");
    }
    assert(filter@ =~= subtitle_filter(*params));
    filter
}

/// The output file of a job whose video file has the stem `stem`; a file
/// without a stem is put down as `output`.
pub fn output_path_for(params: &EncodeParams, stem: Option<&str>) -> (r: String)
    ensures
        r@ == output_path(
            *params,
            match stem {
                Some(s) => Some(s@),
                None => None,
            },
        ),
{
    let mut path = params.output_dir.clone();
    path.append("/");
    match stem {
        Some(s) => path.append(s),
        None => path.append("output"),
    }
    path.append("_sub.");
    path.append(params.output_format.as_str());
    path
}

/// The output file of a job: in the output directory, named after the video
/// file's stem, with the output format as its extension.
pub fn build_output_path(params: &EncodeParams) -> (r: String)
    ensures
        is_output_path(*params, r@),
{
    let stem = file_stem(params.video_path.as_str());
    let path = match &stem {
        Some(s) => output_path_for(params, Some(s.as_str())),
        None => output_path_for(params, None),
    };
    proof {
        let found: Option<Seq<char>> = match stem {
            Some(s) => Some(s@),
            None => None,
        };
        assert(path@ == output_path(*params, found));
    }
    path
}

/// The H.264 encoder to use where `hw` was detected.
pub fn h264_encoder_name(hw: Option<GpuEncoder>) -> (r: &'static str)
    ensures
        r@ == h264_encoder(hw),
{
    match hw {
        Some(GpuEncoder::Nvenc) => "h264_nvenc",
        Some(GpuEncoder::Qsv) => "h264_qsv",
        Some(GpuEncoder::Vaapi) => "h264_vaapi",
        Some(GpuEncoder::Amf) => "h264_amf",
        None => "libx264",
    }
}

/// The H.265 encoder to use where `hw` was detected.
pub fn hevc_encoder_name(hw: Option<GpuEncoder>) -> (r: &'static str)
    ensures
        r@ == hevc_encoder(hw),
{
    match hw {
        Some(GpuEncoder::Nvenc) => "hevc_nvenc",
        Some(GpuEncoder::Qsv) => "hevc_qsv",
        Some(GpuEncoder::Vaapi) => "hevc_vaapi",
        Some(GpuEncoder::Amf) => "hevc_amf",
        None => "libx265",
    }
}

/// The encoder that is handed to the tool for the requested codec.
pub fn choose_codec(requested: &str, hw: Option<GpuEncoder>) -> (r: String)
    ensures
        r@ == final_codec(requested@, hw),
{
    let selected = if same_text(requested, "libx264") {
        h264_encoder_name(hw).to_string()
    } else if same_text(requested, "libx265") {
        hevc_encoder_name(hw).to_string()
    } else {
        requested.to_string()
    };
    if same_text(selected.as_str(), "copy") {
        "libx264".to_string()
    } else {
        selected
    }
}

/// Appends one argument to an argument list.
fn push_arg(args: &mut Vec<String>, arg: String)
    ensures
        final(args).deep_view() == old(args).deep_view().push(arg@),
{
    args.push(arg);
    assert(args.deep_view() =~= old(args).deep_view().push(arg@));
}

/// The whole argument list of an encoding job: the input, the subtitle
/// filter, the encoder and its quality, all processor cores, the audio copied
/// as it is, the index at the front for MP4, and the output, overwritten
/// where it exists.
pub fn build_encode_args(params: &EncodeParams, output_path: &str, hw: Option<GpuEncoder>) -> (args:
    Vec<String>)
    ensures
        args.deep_view() == encode_args(*params, output_path@, hw),
{
    let codec = choose_codec(params.video_codec.as_str(), hw);
    let global_quality = hw.is_some() && (same_text(params.video_codec.as_str(), "libx264")
        || same_text(params.video_codec.as_str(), "libx265"));
    let mut args: Vec<String> = Vec::new();
    assert(args.deep_view() =~= Seq::<Seq<char>>::empty());
    push_arg(&mut args, "-i".to_string());
    push_arg(&mut args, params.video_path.clone());
    push_arg(&mut args, "-vf".to_string());
    push_arg(&mut args, build_subtitle_filter(params));
    push_arg(&mut args, "-c:v".to_string());
    push_arg(&mut args, codec);
    if global_quality {
        push_arg(&mut args, "-global_quality".to_string());
        push_arg(&mut args, i32_to_string(params.crf));
    } else {
        push_arg(&mut args, "-crf".to_string());
        push_arg(&mut args, i32_to_string(params.crf));
        push_arg(&mut args, "-preset".to_string());
        push_arg(&mut args, "medium".to_string());
    }
    push_arg(&mut args, "-threads".to_string());
    push_arg(&mut args, "0".to_string());
    push_arg(&mut args, "-c:a".to_string());
    push_arg(&mut args, "copy".to_string());
    if same_text(params.output_format.as_str(), "mp4") {
        push_arg(&mut args, "-movflags".to_string());
        push_arg(&mut args, "+faststart".to_string());
    }
    push_arg(&mut args, "-y".to_string());
    push_arg(&mut args, output_path.to_string());
    assert(args.deep_view() =~= encode_args(*params, output_path@, hw));
    args
}

/// The encoder family that a listing of encoders names, the listing taken as
/// it stands.
pub fn gpu_encoder_in_listing(listing: &str) -> (r: Option<GpuEncoder>)
    ensures
        r == gpu_encoder_in(listing@),
{
    let text = chars_of(listing);
    if contains(&text, &chars_of("h264_nvenc")) || contains(&text, &chars_of("hevc_nvenc")) {
        Some(GpuEncoder::Nvenc)
    } else if contains(&text, &chars_of("h264_qsv")) || contains(&text, &chars_of("hevc_qsv")) {
        Some(GpuEncoder::Qsv)
    } else if contains(&text, &chars_of("h264_vaapi")) || contains(&text, &chars_of("hevc_vaapi")) {
        Some(GpuEncoder::Vaapi)
    } else if contains(&text, &chars_of("h264_amf")) || contains(&text, &chars_of("hevc_amf")) {
        Some(GpuEncoder::Amf)
    } else {
        None
    }
}

/// The hardware encoder family that the tool offers, from its listing of
/// encoders, read without regard to letter case. No listing (the tool could
/// not be run, or wrote no text) means no hardware.
pub fn detect_gpu_encoder(listing: Option<&str>) -> (r: Option<GpuEncoder>)
    ensures
        r == match listing {
            Some(text) => gpu_encoder_in(lowercase_of(text@)),
            None => None,
        },
{
    match listing {
        Some(text) => {
            let lowered = to_lowercase(text);
            gpu_encoder_in_listing(lowered.as_str())
        },
        None => None,
    }
}

/// The arguments that ask the probing tool for a file's duration alone.
pub fn build_probe_duration_args(video_path: &str) -> (args: Vec<String>)
    ensures
        args.deep_view() == probe_duration_args(video_path@),
{
    let mut args: Vec<String> = Vec::new();
    assert(args.deep_view() =~= Seq::<Seq<char>>::empty());
    push_arg(&mut args, "-v".to_string());
    push_arg(&mut args, "error".to_string());
    push_arg(&mut args, "-show_entries".to_string());
    push_arg(&mut args, "format=duration".to_string());
    push_arg(&mut args, "-of".to_string());
    push_arg(&mut args, "default=noprint_wrappers=1:nokey=1".to_string());
    push_arg(&mut args, video_path.to_string());
    assert(args.deep_view() =~= probe_duration_args(video_path@));
    args
}

/// The arguments that ask the probing tool for a file's description as JSON.
pub fn build_probe_info_args(video_path: &str) -> (args: Vec<String>)
    ensures
        args.deep_view() == probe_info_args(video_path@),
{
    let mut args: Vec<String> = Vec::new();
    assert(args.deep_view() =~= Seq::<Seq<char>>::empty());
    push_arg(&mut args, "-v".to_string());
    push_arg(&mut args, "error".to_string());
    push_arg(&mut args, "-select_streams".to_string());
    push_arg(&mut args, "v:0".to_string());
    push_arg(&mut args, "-show_entries".to_string());
    push_arg(&mut args, "stream=width,height,duration:format=duration,format_name".to_string());
    push_arg(&mut args, "-of".to_string());
    push_arg(&mut args, "json".to_string());
    push_arg(&mut args, video_path.to_string());
    assert(args.deep_view() =~= probe_info_args(video_path@));
    args
}

/// What was found out about hardware encoders, kept once it is known: the
/// tool is asked once, and its first answer stands.
pub struct GpuEncoderCache {
    detected: Option<Option<GpuEncoder>>,
}

impl View for GpuEncoderCache {
    type V = Option<Option<GpuEncoder>>;

    /// `None` while nothing is known; afterwards what was found, which may
    /// itself be that there is no hardware encoder.
    closed spec fn view(&self) -> Option<Option<GpuEncoder>> {
        self.detected
    }
}

impl GpuEncoderCache {
    /// A cache that knows nothing yet.
    pub fn new() -> (cache: Self)
        ensures
            cache@ is None,
    {
        GpuEncoderCache { detected: None }
    }

    /// What is known.
    pub fn get(&self) -> (r: Option<Option<GpuEncoder>>)
        ensures
            r == self@,
    {
        self.detected
    }

    /// Records what was found, unless something is known already, and
    /// returns what is known from now on.
    pub fn store(&mut self, found: Option<GpuEncoder>) -> (held: Option<GpuEncoder>)
        ensures
            final(self)@ == Some(held),
            held == match old(self)@ {
                Some(first) => first,
                None => found,
            },
    {
        match self.detected {
            Some(first) => first,
            None => {
                self.detected = Some(found);
                found
            },
        }
    }
}

/// Putting two escaped texts one after the other gives an escaped text, which
/// stands for what the two stand for, one after the other.
pub proof fn lemma_fully_escaped_concat(a: Seq<char>, b: Seq<char>)
    requires
        fully_escaped(a),
        fully_escaped(b),
    ensures
        fully_escaped(a + b),
        unescaped(a + b) == unescaped(a) + unescaped(b),
    decreases a.len(),
{
    if a.len() == 0 {
        assert(a + b =~= b);
        assert(unescaped(a) + unescaped(b) =~= unescaped(b));
    } else if a[0] == '\\' {
        assert((a + b).skip(2) =~= a.skip(2) + b);
        lemma_fully_escaped_concat(a.skip(2), b);
        assert(unescaped(a + b) =~= unescaped(a) + unescaped(b));
    } else {
        assert((a + b).skip(1) =~= a.skip(1) + b);
        lemma_fully_escaped_concat(a.skip(1), b);
        assert(unescaped(a + b) =~= unescaped(a) + unescaped(b));
    }
}

/// An escaped path holds no character with a meaning of its own unescaped:
/// it reads as plain characters and escaped ones, each colon, comma, quote,
/// bracket or semicolon in it stands directly behind a backslash, and taking
/// the escapes out gives the path back.
pub proof fn lemma_escaped_path_is_safe(path: Seq<char>)
    ensures
        fully_escaped(escaped_path(path)),
        unescaped(escaped_path(path)) == path,
        forall|i: int|
            0 <= i < escaped_path(path).len() && is_filter_meta(#[trigger] escaped_path(path)[i])
                && escaped_path(path)[i] != '\\' ==> i > 0 && escaped_path(path)[i - 1] == '\\',
    decreases path.len(),
{
    if path.len() > 0 {
        let front = escaped_path(path.drop_last());
        let back = escaped_char(path.last());
        lemma_escaped_path_is_safe(path.drop_last());
        assert(fully_escaped(back) && unescaped(back) == seq![path.last()]) by {
            let rest = if is_filter_meta(path.last()) {
                back.skip(2)
            } else {
                back.skip(1)
            };
            assert(rest =~= Seq::<char>::empty());
            assert(fully_escaped(rest));
            assert(unescaped(rest) =~= Seq::<char>::empty());
            assert(seq![path.last()] + unescaped(rest) =~= seq![path.last()]);
        }
        lemma_fully_escaped_concat(front, back);
        assert(path.drop_last() + seq![path.last()] =~= path);
        assert forall|i: int|
            0 <= i < escaped_path(path).len() && is_filter_meta(#[trigger] escaped_path(path)[i])
                && escaped_path(path)[i] != '\\' implies i > 0 && escaped_path(path)[i - 1]
            == '\\' by {
            if i < front.len() {
                assert(escaped_path(path)[i] == front[i]);
                assert(escaped_path(path)[i - 1] == front[i - 1]);
            } else {
                assert(escaped_path(path)[i] == back[i - front.len()]);
                assert(i - front.len() == 1);
                assert(escaped_path(path)[i - 1] == back[0]);
            }
        }
    } else {
        assert(unescaped(escaped_path(path)) =~= path);
    }
}

/// Which encoder and which quality argument a job gets. The encoder always
/// follows `-c:v`. Without hardware it is the requested codec (software
/// H.264 for a request to copy), with a constant rate factor. With hardware,
/// the two software codecs give way to their hardware encoders, with a
/// global quality. Every other request is answered, with hardware or
/// without, by the requested codec (software H.264 for a request to copy)
/// with a constant rate factor and the medium preset. The quality is the
/// requested number either way.
pub proof fn lemma_codec_and_quality(
    params: EncodeParams,
    output: Seq<char>,
    hw: Option<GpuEncoder>,
)
    ensures
        ({
            let args = encode_args(params, output, hw);
            let requested = params.video_codec@;
            &&& args.len() >= 8
            &&& args[4] == "-c:v"@
            &&& args[7] == decimal_text(params.crf as int)
            &&& hw is None ==> args[6] == "-crf"@ && args[5] == (if requested == "copy"@ {
                "libx264"@
            } else {
                requested
            })
            &&& hw is Some && requested == "libx264"@ ==> args[6] == "-global_quality"@ && args[5]
                == h264_encoder(hw)
            &&& hw is Some && requested == "libx265"@ ==> args[6] == "-global_quality"@ && args[5]
                == hevc_encoder(hw)
            &&& requested != "libx264"@ && requested != "libx265"@ ==> {
                &&& args.len() >= 10
                &&& args[5] == (if requested == "copy"@ {
                    "libx264"@
                } else {
                    requested
                })
                &&& args[6] == "-crf"@
                &&& args[8] == "-preset"@
                &&& args[9] == "medium"@
            }
        }),
{
    reveal_strlit("copy");
    reveal_strlit("libx264");
    reveal_strlit("libx265");
    reveal_strlit("h264_nvenc");
    reveal_strlit("h264_qsv");
    reveal_strlit("h264_vaapi");
    reveal_strlit("h264_amf");
    reveal_strlit("hevc_nvenc");
    reveal_strlit("hevc_qsv");
    reveal_strlit("hevc_vaapi");
    reveal_strlit("hevc_amf");
    let requested = params.video_codec@;
    if hw is Some {
        assert(h264_encoder(hw)[0] == 'h');
        assert(hevc_encoder(hw)[0] == 'h');
        assert("libx264"@[0] == 'l');
        assert("libx265"@[0] == 'l');
        assert("copy"@[0] == 'c');
    }
    assert("libx264"@[6] == '4');
    assert("libx265"@[6] == '5');
    assert("copy"@.len() == 4);
}

/// A request to copy the video stream is answered with software H.264,
/// whatever hardware there is, and no `-c:v` in the argument list is
/// followed by `copy`.
pub proof fn lemma_copy_is_never_passed_on(
    params: EncodeParams,
    output: Seq<char>,
    hw: Option<GpuEncoder>,
)
    requires
        params.video_codec@ == "copy"@,
    ensures
        final_codec(params.video_codec@, hw) == "libx264"@,
        encode_args(params, output, hw)[5] == "libx264"@,
        forall|i: int|
            0 <= i < encode_args(params, output, hw).len() - 1 && #[trigger] encode_args(
                params,
                output,
                hw,
            )[i] == "-c:v"@ ==> encode_args(params, output, hw)[i + 1] != "copy"@,
{
    reveal_strlit("copy");
    reveal_strlit("libx264");
    reveal_strlit("libx265");
    reveal_strlit("-i");
    reveal_strlit("-vf");
    reveal_strlit("-c:v");
    reveal_strlit("-crf");
    reveal_strlit("-preset");
    reveal_strlit("medium");
    reveal_strlit("-threads");
    reveal_strlit("0");
    reveal_strlit("-c:a");
    reveal_strlit("-movflags");
    reveal_strlit("+faststart");
    reveal_strlit("-y");
    let args = encode_args(params, output, hw);
    assert("copy"@[0] == 'c');
    assert("libx264"@[0] == 'l');
    assert("libx265"@[0] == 'l');
    assert("-c:a"@[3] == 'a');
    assert("-c:v"@[3] == 'v');
    assert(!uses_global_quality(params.video_codec@, hw));
    assert forall|i: int| 0 <= i < args.len() - 1 && #[trigger] args[i] == "-c:v"@ implies args[i
        + 1] != "copy"@ by {
        if params.output_format@ == "mp4"@ {
            assert(args.len() == 18);
            assert(args[14] == "-movflags"@);
            assert(args[15] == "+faststart"@);
            assert(args[16] == "-y"@);
        } else {
            assert(args.len() == 16);
            assert(args[14] == "-y"@);
        }
        assert(args[0] == "-i"@);
        assert(args[2] == "-vf"@);
        assert(args[4] == "-c:v"@);
        assert(args[5] == "libx264"@);
        assert(args[6] == "-crf"@);
        assert(args[8] == "-preset"@);
        assert(args[9] == "medium"@);
        assert(args[10] == "-threads"@);
        assert(args[11] == "0"@);
        assert(args[12] == "-c:a"@);
        assert(args[13] == "copy"@);
    }
}

/// `text` with a backslash put before each `c` in it.
pub open spec fn with_escaped(text: Seq<char>, c: char) -> Seq<char>
    decreases text.len(),
{
    if text.len() == 0 {
        Seq::empty()
    } else if text.last() == c {
        with_escaped(text.drop_last(), c) + seq!['\\', c]
    } else {
        with_escaped(text.drop_last(), c).push(text.last())
    }
}

/// `path` after seven replacements made one after the other: first each
/// backslash is doubled, then a backslash is put before each colon, each
/// comma, each single quote, each opening bracket, each closing bracket and
/// each semicolon.
pub open spec fn replaced_in_order(path: Seq<char>) -> Seq<char> {
    with_escaped(
        with_escaped(
            with_escaped(
                with_escaped(with_escaped(with_escaped(with_escaped(path, '\\'), ':'), ','), '\''),
                '[',
            ),
            ']',
        ),
        ';',
    )
}

/// Escaping one character of two texts joined is escaping it in each.
pub proof fn lemma_with_escaped_concat(a: Seq<char>, b: Seq<char>, c: char)
    ensures
        with_escaped(a + b, c) == with_escaped(a, c) + with_escaped(b, c),
    decreases b.len(),
{
    if b.len() == 0 {
        assert(a + b =~= a);
        assert(with_escaped(a, c) + with_escaped(b, c) =~= with_escaped(a, c));
    } else {
        assert((a + b).drop_last() =~= a + b.drop_last());
        assert((a + b).last() == b.last());
        lemma_with_escaped_concat(a, b.drop_last(), c);
        if b.last() == c {
            assert(with_escaped(a + b, c) =~= with_escaped(a, c) + with_escaped(b, c));
        } else {
            assert(with_escaped(a + b, c) =~= with_escaped(a, c) + with_escaped(b, c));
        }
    }
}

/// Escaping `c` in a text of one character.
proof fn lemma_with_escaped_one(x: char, c: char)
    ensures
        with_escaped(seq![x], c) == if x == c {
            seq!['\\', c]
        } else {
            seq![x]
        },
{
    assert(seq![x].drop_last() =~= Seq::<char>::empty());
    assert(with_escaped(Seq::<char>::empty(), c) =~= Seq::<char>::empty());
    if x == c {
        assert(Seq::<char>::empty() + seq!['\\', c] =~= seq!['\\', c]);
    } else {
        assert(Seq::<char>::empty().push(x) =~= seq![x]);
    }
}

/// Escaping `c` in a backslash followed by another character.
proof fn lemma_with_escaped_pair(x: char, c: char)
    requires
        c != '\\',
        x != c,
    ensures
        with_escaped(seq!['\\', x], c) == seq!['\\', x],
{
    assert(seq!['\\', x].drop_last() =~= seq!['\\']);
    lemma_with_escaped_one('\\', c);
    assert(seq!['\\'].push(x) =~= seq!['\\', x]);
}

/// The seven replacements on a text of one character give that character
/// escaped.
proof fn lemma_replaced_in_order_one(x: char)
    ensures
        replaced_in_order(seq![x]) == escaped_char(x),
{
    lemma_with_escaped_one(x, '\\');
    lemma_with_escaped_one(x, ':');
    lemma_with_escaped_one(x, ',');
    lemma_with_escaped_one(x, '\'');
    lemma_with_escaped_one(x, '[');
    lemma_with_escaped_one(x, ']');
    lemma_with_escaped_one(x, ';');
    if x == '\\' {
        lemma_with_escaped_pair(x, ':');
        lemma_with_escaped_pair(x, ',');
        lemma_with_escaped_pair(x, '\'');
        lemma_with_escaped_pair(x, '[');
        lemma_with_escaped_pair(x, ']');
        lemma_with_escaped_pair(x, ';');
    } else if x == ':' {
        lemma_with_escaped_pair(x, ',');
        lemma_with_escaped_pair(x, '\'');
        lemma_with_escaped_pair(x, '[');
        lemma_with_escaped_pair(x, ']');
        lemma_with_escaped_pair(x, ';');
    } else if x == ',' {
        lemma_with_escaped_pair(x, '\'');
        lemma_with_escaped_pair(x, '[');
        lemma_with_escaped_pair(x, ']');
        lemma_with_escaped_pair(x, ';');
    } else if x == '\'' {
        lemma_with_escaped_pair(x, '[');
        lemma_with_escaped_pair(x, ']');
        lemma_with_escaped_pair(x, ';');
    } else if x == '[' {
        lemma_with_escaped_pair(x, ']');
        lemma_with_escaped_pair(x, ';');
    } else if x == ']' {
        lemma_with_escaped_pair(x, ';');
    }
}

/// The seven replacements on two texts joined are the replacements on each.
proof fn lemma_replaced_in_order_concat(a: Seq<char>, b: Seq<char>)
    ensures
        replaced_in_order(a + b) == replaced_in_order(a) + replaced_in_order(b),
{
    lemma_with_escaped_concat(a, b, '\\');
    let a1 = with_escaped(a, '\\');
    let b1 = with_escaped(b, '\\');
    lemma_with_escaped_concat(a1, b1, ':');
    let a2 = with_escaped(a1, ':');
    let b2 = with_escaped(b1, ':');
    lemma_with_escaped_concat(a2, b2, ',');
    let a3 = with_escaped(a2, ',');
    let b3 = with_escaped(b2, ',');
    lemma_with_escaped_concat(a3, b3, '\'');
    let a4 = with_escaped(a3, '\'');
    let b4 = with_escaped(b3, '\'');
    lemma_with_escaped_concat(a4, b4, '[');
    let a5 = with_escaped(a4, '[');
    let b5 = with_escaped(b4, '[');
    lemma_with_escaped_concat(a5, b5, ']');
    let a6 = with_escaped(a5, ']');
    let b6 = with_escaped(b5, ']');
    lemma_with_escaped_concat(a6, b6, ';');
}

/// An escaped path is what the seven replacements, made in their order, give:
/// the backslashes that a later replacement puts in are not doubled, since
/// backslashes are doubled first.
pub proof fn lemma_escaped_path_is_replaced_in_order(path: Seq<char>)
    ensures
        escaped_path(path) == replaced_in_order(path),
    decreases path.len(),
{
    if path.len() == 0 {
        assert(with_escaped(path, '\\') =~= Seq::<char>::empty());
        assert(replaced_in_order(path) =~= Seq::<char>::empty());
    } else {
        lemma_escaped_path_is_replaced_in_order(path.drop_last());
        lemma_replaced_in_order_one(path.last());
        lemma_replaced_in_order_concat(path.drop_last(), seq![path.last()]);
        assert(path.drop_last() + seq![path.last()] =~= path);
    }
}

} // verus!
