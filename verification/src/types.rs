//! The values that cross the library's boundary.
use vstd::prelude::*;

verus! {

/// What one encoding job is asked to do.
#[derive(Debug, Clone)]
pub struct EncodeParams {
    pub video_path: String,
    pub subtitle_path: String,
    pub output_dir: String,
    pub output_format: String,
    pub video_codec: String,
    pub crf: i32,
    pub subtitle_encoding: String,
    pub subtitle_style: String,
    pub subtitle_style_name: Option<String>,
}

/// A family of hardware encoders that the encoding tool may offer.
#[derive(Debug, Clone, Copy, PartialEq, Eq, Structural)]
pub enum GpuEncoder {
    Nvenc,
    Qsv,
    Vaapi,
    Amf,
}

/// One progress report of the encoding tool. Rates and percentages are exact:
/// `fps_micros` counts millionths of a frame per second, and
/// `percentage_tenths` counts tenths of a percent, from 0 to 1000.
#[derive(Debug, Clone)]
pub struct EncodeProgress {
    pub frame: u64,
    pub fps_micros: u64,
    pub time: String,
    pub speed: String,
    pub percentage_tenths: u32,
}

/// What an `EncodeProgress` holds, as mathematical values.
pub struct ProgressRecord {
    pub frame: u64,
    pub fps_micros: u64,
    pub time: Seq<char>,
    pub speed: Seq<char>,
    pub percentage_tenths: u32,
}

impl View for EncodeProgress {
    type V = ProgressRecord;

    open spec fn view(&self) -> ProgressRecord {
        ProgressRecord {
            frame: self.frame,
            fps_micros: self.fps_micros,
            time: self.time@,
            speed: self.speed@,
            percentage_tenths: self.percentage_tenths,
        }
    }
}

/// What is shown of a video file.
#[derive(Debug, Clone)]
pub struct VideoInfo {
    pub format: String,
    pub duration: String,
    pub resolution: String,
}

/// What a `VideoInfo` holds, as mathematical values.
pub struct VideoInfoRecord {
    pub format: Seq<char>,
    pub duration: Seq<char>,
    pub resolution: Seq<char>,
}

impl View for VideoInfo {
    type V = VideoInfoRecord;

    open spec fn view(&self) -> VideoInfoRecord {
        VideoInfoRecord {
            format: self.format@,
            duration: self.duration@,
            resolution: self.resolution@,
        }
    }
}

} // verus!
