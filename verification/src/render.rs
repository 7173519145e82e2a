//! Post-render support: the ffprobe/ffmpeg command lines, reading ffprobe's
//! stream report, and the card and caption cues of a render timeline.

use vstd::prelude::*;

use crate::capture::field_u32;
use crate::number::{decimal, parse_u32, push_char, push_decimal};
use crate::text::{chars_of, last_value, last_value_of, lines, split_lines};

verus! {

/// Why a render failed.
#[derive(Debug)]
pub enum RenderError {
    /// A program could not be started.
    Spawn { program: String, message: String },
    /// ffmpeg or ffprobe ran and failed.
    Failed(String),
    /// The input video could not be probed.
    Probe(String),
    /// Reading or writing a stream failed.
    Io(String),
}

/// A full-canvas title or outro card.
#[derive(Debug, Clone, PartialEq)]
pub struct Card {
    pub text: String,
    pub ms: u32,
}

/// A lower-third caption active over `[start_ms, end_ms)`.
#[derive(Debug, Clone, PartialEq)]
pub struct Caption {
    pub start_ms: u32,
    pub end_ms: u32,
    pub text: String,
}

/// ffprobe's arguments that print width, height and frame rate of the first
/// video stream of `input`.
pub open spec fn ffprobe_args_spec(input: Seq<char>) -> Seq<Seq<char>> {
    seq![
        "-v"@,
        "error"@,
        "-select_streams"@,
        "v:0"@,
        "-show_entries"@,
        "stream=width,height,r_frame_rate"@,
        "-of"@,
        "default=noprint_wrappers=1"@,
        input,
    ]
}

/// ffprobe args that print width/height/r_frame_rate for the first video stream.
pub fn ffprobe_args(input: &str) -> (args: Vec<String>)
    ensures
        args.deep_view() == ffprobe_args_spec(input@),
{
    let mut args: Vec<String> = Vec::new();
    args.push(String::from_str("-v"));
    args.push(String::from_str("error"));
    args.push(String::from_str("-select_streams"));
    args.push(String::from_str("v:0"));
    args.push(String::from_str("-show_entries"));
    args.push(String::from_str("stream=width,height,r_frame_rate"));
    args.push(String::from_str("-of"));
    args.push(String::from_str("default=noprint_wrappers=1"));
    args.push(String::from_str(input));
    assert(args.deep_view() =~= ffprobe_args_spec(input@));
    args
}

/// ffmpeg's arguments that decode `input` to raw RGBA frames on stdout.
pub open spec fn decode_args_spec(input: Seq<char>) -> Seq<Seq<char>> {
    seq![
        "-v"@,
        "error"@,
        "-i"@,
        input,
        "-f"@,
        "rawvideo"@,
        "-pix_fmt"@,
        "rgba"@,
        "-"@,
    ]
}

/// ffmpeg args to decode `input` to a raw rgba framestream on stdout.
pub fn decode_args(input: &str) -> (args: Vec<String>)
    ensures
        args.deep_view() == decode_args_spec(input@),
{
    let mut args: Vec<String> = Vec::new();
    args.push(String::from_str("-v"));
    args.push(String::from_str("error"));
    args.push(String::from_str("-i"));
    args.push(String::from_str(input));
    args.push(String::from_str("-f"));
    args.push(String::from_str("rawvideo"));
    args.push(String::from_str("-pix_fmt"));
    args.push(String::from_str("rgba"));
    args.push(String::from_str("-"));
    assert(args.deep_view() =~= decode_args_spec(input@));
    args
}

/// ffmpeg's arguments that encode raw RGBA frames of `canvas_w`×`canvas_h`
/// from stdin at the rate `fps_text` (written with five decimals) to `output`.
pub open spec fn encode_args_spec(
    canvas_w: u32,
    canvas_h: u32,
    fps_text: Seq<char>,
    output: Seq<char>,
) -> Seq<Seq<char>> {
    seq![
        "-y"@,
        "-v"@,
        "error"@,
        "-f"@,
        "rawvideo"@,
        "-pix_fmt"@,
        "rgba"@,
        "-s"@,
        decimal(canvas_w as nat) + seq!['x'] + decimal(canvas_h as nat),
        "-r"@,
        fps_text,
        "-i"@,
        "-"@,
        "-c:v"@,
        "libx264"@,
        "-preset"@,
        "ultrafast"@,
        "-vf"@,
        "pad=ceil(iw/2)*2:ceil(ih/2)*2"@,
        "-pix_fmt"@,
        "yuv420p"@,
        output,
    ]
}

/// ffmpeg args to encode a raw rgba framestream (`canvas_w`x`canvas_h` at the
/// frame rate `fps_text`, already written with five decimals as
/// `format!("{:.5}")` writes it) on stdin to `output`.
pub fn encode_args(canvas_w: u32, canvas_h: u32, fps_text: &str, output: &str) -> (args: Vec<
    String,
>)
    ensures
        args.deep_view() == encode_args_spec(canvas_w, canvas_h, fps_text@, output@),
{
    let mut args: Vec<String> = Vec::new();
    args.push(String::from_str("-y"));
    args.push(String::from_str("-v"));
    args.push(String::from_str("error"));
    args.push(String::from_str("-f"));
    args.push(String::from_str("rawvideo"));
    args.push(String::from_str("-pix_fmt"));
    args.push(String::from_str("rgba"));
    args.push(String::from_str("-s"));
    let mut size = String::new();
    push_decimal(&mut size, canvas_w as u64);
    push_char(&mut size, 'x');
    push_decimal(&mut size, canvas_h as u64);
    assert(size@ =~= decimal(canvas_w as nat) + seq!['x'] + decimal(canvas_h as nat));
    args.push(size);
    args.push(String::from_str("-r"));
    args.push(String::from_str(fps_text));
    args.push(String::from_str("-i"));
    args.push(String::from_str("-"));
    args.push(String::from_str("-c:v"));
    args.push(String::from_str("libx264"));
    args.push(String::from_str("-preset"));
    args.push(String::from_str("ultrafast"));
    args.push(String::from_str("-vf"));
    args.push(String::from_str("pad=ceil(iw/2)*2:ceil(ih/2)*2"));
    args.push(String::from_str("-pix_fmt"));
    args.push(String::from_str("yuv420p"));
    args.push(String::from_str(output));
    assert(args.deep_view() =~= encode_args_spec(canvas_w, canvas_h, fps_text@, output@));
    args
}

/// The stream fields of ffprobe's `key=value` report: width and height read
/// as `u32` and the text of the frame rate, each from the last line with its
/// key; `None` unless all three are there.
pub open spec fn ffprobe_fields_of(out: Seq<char>) -> Option<(u32, u32, Seq<char>)> {
    match (field_u32(out, "width"@), field_u32(out, "height"@), last_value(lines(out), "r_frame_rate"@)) {
        (Some(w), Some(h), Some(rate)) => Some((w, h, rate)),
        _ => None,
    }
}

/// Reads the output of
/// `ffprobe -show_entries stream=width,height,r_frame_rate -of default=noprint_wrappers=1`:
/// the stream's width and height and the (trimmed) text of its frame rate,
/// which the caller reads as a fraction such as `30000/1001`.
pub fn parse_ffprobe_fields(output: &str) -> (r: Option<(u32, u32, String)>)
    ensures
        match r {
            Some((w, h, rate)) => ffprobe_fields_of(output@) == Some((w, h, rate@)),
            None => ffprobe_fields_of(output@) is None,
        },
{
    let chars = chars_of(output);
    let ls = split_lines(chars.as_slice());
    let wk = chars_of("width");
    let hk = chars_of("height");
    let rk = chars_of("r_frame_rate");
    let w = match last_value_of(&ls, wk.as_slice()) {
        Some(v) => match parse_u32(v.as_slice()) {
            Ok(n) => Some(n),
            Err(_) => None,
        },
        None => None,
    };
    let h = match last_value_of(&ls, hk.as_slice()) {
        Some(v) => match parse_u32(v.as_slice()) {
            Ok(n) => Some(n),
            Err(_) => None,
        },
        None => None,
    };
    let rate = last_value_of(&ls, rk.as_slice());
    match (w, h, rate) {
        (Some(w), Some(h), Some(rate)) => {
            let mut text = String::new();
            let mut i: usize = 0;
            while i < rate.len()
                invariant
                    i <= rate@.len(),
                    text@ == rate@.take(i as int),
                decreases rate.len() - i,
            {
                push_char(&mut text, rate[i]);
                assert(rate@.take(i + 1) =~= rate@.take(i as int).push(rate@[i as int]));
                i = i + 1;
            }
            assert(rate@.take(rate@.len() as int) =~= rate@);
            Some((w, h, text))
        },
        _ => None,
    }
}

/// Whether `caption` is showing at millisecond `t` (`end_ms` is exclusive).
pub open spec fn caption_active(caption: Caption, t: int) -> bool {
    caption.start_ms <= t && t < caption.end_ms
}

/// The active caption at whole millisecond `t_ms`: the first caption whose
/// `[start_ms, end_ms)` holds it. Caption bounds are whole milliseconds, so
/// the caption active at a fractional frame time `t` is the one active at
/// `floor(t)`, which is what the render loop passes.
pub fn caption_at(captions: &[Caption], t_ms: u64) -> (r: Option<&Caption>)
    ensures
        match r {
            Some(c) => exists|i: int|
                0 <= i < captions@.len() && captions@[i] == *c && caption_active(
                    captions@[i],
                    t_ms as int,
                ) && forall|j: int| 0 <= j < i ==> !caption_active(captions@[j], t_ms as int),
            None => forall|j: int|
                0 <= j < captions@.len() ==> !caption_active(captions@[j], t_ms as int),
        },
{
    let mut i: usize = 0;
    while i < captions.len()
        invariant
            i <= captions@.len(),
            forall|j: int| 0 <= j < i ==> !caption_active(captions@[j], t_ms as int),
        decreases captions.len() - i,
    {
        let c = &captions[i];
        if c.start_ms as u64 <= t_ms && t_ms < c.end_ms as u64 {
            return Some(c);
        }
        i = i + 1;
    }
    None
}

/// Whether the span `[start, end)` holds millisecond `t`.
pub open spec fn span_active(span: (u32, u32), t: int) -> bool {
    span.0 <= t && t < span.1
}

/// The zoom cue in force at whole millisecond `t_ms`, given the cues'
/// `[start_ms, end_ms)` spans in order: where cues overlap, the last one
/// wins. Like captions, zoom spans are whole milliseconds, so the cue in force
/// at a fractional frame time `t` is the one at `floor(t)`.
pub fn zoom_index_at(spans: &[(u32, u32)], t_ms: u64) -> (r: Option<usize>)
    ensures
        match r {
            Some(i) => i < spans@.len() && span_active(spans@[i as int], t_ms as int) && forall|
                j: int,
            | i < j < spans@.len() ==> !span_active(spans@[j], t_ms as int),
            None => forall|j: int| 0 <= j < spans@.len() ==> !span_active(spans@[j], t_ms as int),
        },
{
    let mut i: usize = spans.len();
    while i > 0
        invariant
            i <= spans@.len(),
            forall|j: int| i <= j < spans@.len() ==> !span_active(spans@[j], t_ms as int),
        decreases i,
    {
        let (start, end) = spans[i - 1];
        if start as u64 <= t_ms && t_ms < end as u64 {
            return Some(i - 1);
        }
        i = i - 1;
    }
    None
}

/// Whether spans `a` and `b` share a millisecond.
pub open spec fn spans_overlap(a: (u32, u32), b: (u32, u32)) -> bool {
    a.0 < a.1 && b.0 < b.1 && a.0 < b.1 && b.0 < a.1
}

/// Two spans overlap exactly when some millisecond lies in both.
pub proof fn lemma_spans_overlap_share_a_moment(a: (u32, u32), b: (u32, u32))
    ensures
        spans_overlap(a, b) <==> exists|t: int| span_active(a, t) && span_active(b, t),
{
    if spans_overlap(a, b) {
        let t: int = if a.0 < b.0 {
            b.0 as int
        } else {
            a.0 as int
        };
        assert(span_active(a, t) && span_active(b, t));
    }
}

/// Whether any two of the zoom cues' spans overlap; the render then warns
/// that the last cue wins.
pub fn zooms_overlap(spans: &[(u32, u32)]) -> (r: bool)
    ensures
        r == exists|i: int, j: int|
            0 <= i < j < spans@.len() && spans_overlap(spans@[i], spans@[j]),
{
    let mut j: usize = 0;
    while j < spans.len()
        invariant
            j <= spans@.len(),
            forall|i: int, k: int| 0 <= i < k < j ==> !spans_overlap(spans@[i], spans@[k]),
        decreases spans.len() - j,
    {
        let mut i: usize = 0;
        while i < j
            invariant
                i <= j < spans@.len(),
                forall|i2: int, k: int| 0 <= i2 < k < j ==> !spans_overlap(spans@[i2], spans@[k]),
                forall|i2: int| 0 <= i2 < i ==> !spans_overlap(spans@[i2], spans@[j as int]),
            decreases j - i,
        {
            let (a0, a1) = spans[i];
            let (b0, b1) = spans[j];
            if a0 < a1 && b0 < b1 && a0 < b1 && b0 < a1 {
                assert(spans_overlap(spans@[i as int], spans@[j as int]));
                return true;
            }
            i = i + 1;
        }
        j = j + 1;
    }
    false
}

} // verus!
