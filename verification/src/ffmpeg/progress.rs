//! Reading the progress lines that the encoding tool writes while it works,
//! such as `frame= 1234 fps= 30.0 ... time=00:01:23.45 ... speed=2.5x`.
use crate::number::{
    parse_micros, parse_u64, parsed_micros, parsed_u64, read_micros, saturated,
};
use crate::text::{
    chars_of, contains, contains_text, find, first_occurrence, occurs_at, split, split_on,
    text_of, views_of, word_after, word_bounds,
};
use crate::types::{EncodeProgress, ProgressRecord};
use vstd::prelude::*;

verus! {

/// Whether a line reports progress: it names both a frame count and a time.
pub open spec fn is_progress_line(line: Seq<char>) -> bool {
    contains_text(line, "frame="@) && contains_text(line, "time="@)
}

/// The value that follows the first `key` in `line`: whitespace after the key
/// is passed over, and the value runs up to the next whitespace or the end of
/// the line. `None` where the line does not hold the key.
pub open spec fn field_value(line: Seq<char>, key: Seq<char>) -> Option<Seq<char>> {
    match first_occurrence(line, key) {
        Some(at) => Some(word_after(line, at + key.len())),
        None => None,
    }
}

/// The text of a field, empty where the line does not hold it.
pub open spec fn field_text(line: Seq<char>, key: Seq<char>) -> Seq<char> {
    match field_value(line, key) {
        Some(value) => value,
        None => Seq::empty(),
    }
}

/// The whole number in a field, 0 where the field is missing or is no number.
pub open spec fn field_count(line: Seq<char>, key: Seq<char>) -> u64 {
    match parsed_u64(field_text(line, key)) {
        Some(n) => n,
        None => 0,
    }
}

/// The millionths that a decimal spells, 0 where it is none.
pub open spec fn micros_or_zero(text: Seq<char>) -> nat {
    match parsed_micros(text) {
        Some(n) => n as nat,
        None => 0,
    }
}

/// The seconds, in millionths, that a time of the form `HH:MM:SS.ff` spells.
/// A text that does not consist of exactly three parts between colons counts
/// as 0, and so does each part that is no decimal.
pub open spec fn time_micros(time: Seq<char>) -> nat {
    let parts = split_on(time, ':');
    if parts.len() == 3 {
        micros_or_zero(parts[0]) * 3600 + micros_or_zero(parts[1]) * 60 + micros_or_zero(parts[2])
    } else {
        0
    }
}

/// How much of `total` has elapsed, in tenths of a percent, rounded to the
/// nearest tenth (a half rounds up) and held at 1000. It is 0 where the total
/// is not known, that is where it is 0.
pub open spec fn percentage_tenths(elapsed: nat, total: nat) -> nat {
    if total == 0 {
        0
    } else {
        let rounded = (2000 * elapsed + total) / (2 * total);
        if rounded > 1000 {
            1000
        } else {
            rounded as nat
        }
    }
}

/// What a line reports, given the total duration in millionths of a second;
/// `None` where it is no progress line.
pub open spec fn progress_of(line: Seq<char>, total: u64) -> Option<ProgressRecord> {
    if is_progress_line(line) {
        Some(
            ProgressRecord {
                frame: field_count(line, "frame="@),
                fps_micros: saturated(micros_or_zero(field_text(line, "fps="@))),
                time: field_text(line, "time="@),
                speed: field_text(line, "speed="@),
                percentage_tenths: percentage_tenths(
                    time_micros(field_text(line, "time="@)),
                    total as nat,
                ) as u32,
            },
        )
    } else {
        None
    }
}

/// A percentage never exceeds 100, and is 0 where the total is not known.
/// Nothing has elapsed at 0, and all has once the total is reached.
pub proof fn lemma_percentage_bounds(elapsed: nat, total: nat)
    ensures
        percentage_tenths(elapsed, total) <= 1000,
        total == 0 ==> percentage_tenths(elapsed, total) == 0,
        elapsed == 0 ==> percentage_tenths(elapsed, total) == 0,
        total > 0 && elapsed >= total ==> percentage_tenths(elapsed, total) == 1000,
{
    if total > 0 {
        if elapsed == 0 {
            assert((2000 * elapsed + total) / (2 * total) == 0) by (nonlinear_arith)
                requires
                    total > 0,
                    elapsed == 0,
            ;
        }
        if elapsed >= total {
            assert((2000 * elapsed + total) / (2 * total) >= 1000) by (nonlinear_arith)
                requires
                    total > 0,
                    elapsed >= total,
            ;
        }
    }
}

/// A time that does not fall into exactly three parts at its colons counts
/// as no time at all.
pub proof fn lemma_malformed_time_is_zero(time: Seq<char>)
    requires
        split_on(time, ':').len() != 3,
    ensures
        time_micros(time) == 0,
{
}

/// The value that follows the first `key` in `line`.
pub fn extract_value(line: &str, key: &str) -> (r: Option<String>)
    ensures
        match r {
            Some(value) => field_value(line@, key@) == Some(value@),
            None => field_value(line@, key@) is None,
        },
{
    extract_from(&chars_of(line), key)
}

/// The value that follows the first `key` in `line`.
fn extract_from(line: &Vec<char>, key: &str) -> (r: Option<String>)
    ensures
        match r {
            Some(value) => field_value(line@, key@) == Some(value@),
            None => field_value(line@, key@) is None,
        },
{
    let key_chars = chars_of(key);
    match find(line, &key_chars) {
        None => None,
        Some(at) => {
            assert(occurs_at(line@, key_chars@, at as int));
            assert(at + key_chars.len() <= line.len());
            let (start, end) = word_bounds(line, at + key_chars.len());
            Some(text_of(line, start, end))
        },
    }
}

/// The text of a field, empty where the line does not hold it.
fn text_field(line: &Vec<char>, key: &str) -> (r: String)
    ensures
        r@ == field_text(line@, key@),
{
    match extract_from(line, key) {
        Some(value) => value,
        None => String::new(),
    }
}

/// The millionths that the decimal `part` spells, 0 where it is none.
fn micros_of(part: &Vec<char>) -> (r: u64)
    ensures
        r == saturated(micros_or_zero(part@)),
{
    assert(part@.subrange(0, part.len() as int) == part@);
    match read_micros(part, 0, part.len()) {
        Some(n) => n,
        None => 0,
    }
}

/// The seconds that a time of the form `HH:MM:SS.ff` spells, in millionths
/// and held at the largest 64-bit number; 0 for a text of another form.
pub fn parse_time_to_seconds(time_str: &str) -> (micros: u64)
    ensures
        micros == saturated(time_micros(time_str@)),
{
    let parts = split(&chars_of(time_str), ':');
    if parts.len() != 3 {
        assert(views_of(parts@).len() == parts@.len());
        return 0;
    }
    assert(views_of(parts@)[0] == parts@[0]@);
    assert(views_of(parts@)[1] == parts@[1]@);
    assert(views_of(parts@)[2] == parts@[2]@);
    let hours = micros_of(&parts[0]);
    let minutes = micros_of(&parts[1]);
    let seconds = micros_of(&parts[2]);
    let sum: u128 = hours as u128 * 3600 + minutes as u128 * 60 + seconds as u128;
    if sum > u64::MAX as u128 {
        u64::MAX
    } else {
        sum as u64
    }
}

/// How much of `total` has elapsed, in tenths of a percent.
pub fn percentage(elapsed: u64, total: u64) -> (tenths: u32)
    ensures
        tenths == percentage_tenths(elapsed as nat, total as nat),
        tenths <= 1000,
        total == 0 ==> tenths == 0,
{
    if total == 0 {
        return 0;
    }
    let scaled: u128 = 2000 * (elapsed as u128) + total as u128;
    let rounded: u128 = scaled / (2 * (total as u128));
    if rounded > 1000 {
        1000
    } else {
        rounded as u32
    }
}

/// Holding the elapsed time at the largest 64-bit number does not change the
/// percentage, since the total is no larger than that.
proof fn lemma_percentage_of_saturated(elapsed: nat, total: u64)
    ensures
        percentage_tenths(saturated(elapsed) as nat, total as nat) == percentage_tenths(
            elapsed,
            total as nat,
        ),
{
    if elapsed > u64::MAX {
        lemma_percentage_bounds(elapsed, total as nat);
        lemma_percentage_bounds(u64::MAX as nat, total as nat);
    }
}

/// Reads one line of the tool's output. A line that names both a frame count
/// and a time is a progress line; its fields are read, each missing or
/// unreadable number counting as 0 and each missing text as empty, and the
/// percentage follows from the time and the total duration, which is given
/// in millionths of a second.
pub fn parse_progress_line(line: &str, total_duration_micros: u64) -> (r: Option<EncodeProgress>)
    ensures
        match r {
            Some(progress) => progress_of(line@, total_duration_micros) == Some(progress@),
            None => progress_of(line@, total_duration_micros) is None,
        },
        r matches Some(progress) ==> progress.percentage_tenths <= 1000 && (total_duration_micros
            == 0 ==> progress.percentage_tenths == 0),
{
    let chars = chars_of(line);
    if !contains(&chars, &chars_of("frame=")) || !contains(&chars, &chars_of("time=")) {
        return None;
    }
    let frame = match parse_u64(text_field(&chars, "frame=").as_str()) {
        Some(n) => n,
        None => 0,
    };
    let fps_micros = match parse_micros(text_field(&chars, "fps=").as_str()) {
        Some(n) => n,
        None => 0,
    };
    let time = text_field(&chars, "time=");
    let speed = text_field(&chars, "speed=");
    let elapsed = parse_time_to_seconds(time.as_str());
    proof {
        lemma_percentage_of_saturated(time_micros(time@), total_duration_micros);
    }
    let percentage_tenths = percentage(elapsed, total_duration_micros);
    Some(EncodeProgress { frame, fps_micros, time, speed, percentage_tenths })
}

} // verus!
