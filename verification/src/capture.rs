//! Screen and window capture: reading xdotool's shell output, choosing the
//! window to record, and the ffmpeg x11grab command line.

use vstd::prelude::*;

use crate::number::{
    decimal, parse_i32, parse_i32_spec, parse_u32, parse_u32_spec, push_char, push_decimal,
    push_signed_decimal, signed_decimal,
};
use crate::text::{
    chars_of, last_value, last_value_of, lines, split_lines, split_once, trim, trim_chars,
};

verus! {

/// A rectangle on the X11 screen, in pixels.
#[derive(Debug, Clone, Copy, PartialEq, Eq, Structural)]
pub struct Region {
    pub x: i32,
    pub y: i32,
    pub width: u32,
    pub height: u32,
}

/// Why capturing failed.
#[derive(Debug)]
pub enum CaptureError {
    /// The program could not be started.
    Spawn { program: String, message: String },
    /// The program ran and exited with a failure status.
    Failed { program: String, status: String, stderr: String },
    /// No window geometry could be found for the title or window id.
    WindowNotFound(String),
}

/// A found value read as an `i32`.
pub open spec fn value_i32(v: Option<Seq<char>>) -> Option<i32> {
    match v {
        Some(v) => match parse_i32_spec(v) {
            Ok(n) => Some(n as i32),
            Err(_) => None,
        },
        None => None,
    }
}

/// A found value read as a `u32`.
pub open spec fn value_u32(v: Option<Seq<char>>) -> Option<u32> {
    match v {
        Some(v) => match parse_u32_spec(v) {
            Ok(n) => Some(n as u32),
            Err(_) => None,
        },
        None => None,
    }
}

/// The value of the last `key=value` line for `key`, read as an `i32`.
pub open spec fn field_i32(out: Seq<char>, key: Seq<char>) -> Option<i32> {
    value_i32(last_value(lines(out), key))
}

/// The value of the last `key=value` line for `key`, read as a `u32`.
pub open spec fn field_u32(out: Seq<char>, key: Seq<char>) -> Option<u32> {
    value_u32(last_value(lines(out), key))
}

/// The window rectangle described by the lines of `xdotool
/// getwindowgeometry --shell` output: the last readable `X`, `Y`, `WIDTH` and
/// `HEIGHT` lines, all four required.
pub open spec fn line_geometry(ls: Seq<Seq<char>>) -> Option<Region> {
    match (
        value_i32(last_value(ls, "X"@)),
        value_i32(last_value(ls, "Y"@)),
        value_u32(last_value(ls, "WIDTH"@)),
        value_u32(last_value(ls, "HEIGHT"@)),
    ) {
        (Some(x), Some(y), Some(width), Some(height)) => Some(
            Region { x, y, width, height },
        ),
        _ => None,
    }
}

/// The window rectangle described by `xdotool getwindowgeometry --shell`
/// output.
pub open spec fn geometry_of(out: Seq<char>) -> Option<Region> {
    line_geometry(lines(out))
}

/// Whether `line` is a `key=value` line whose trimmed key is `key`.
pub open spec fn line_has_key(line: Seq<char>, key: Seq<char>) -> bool {
    match split_once(line, '=') {
        Some(kv) => trim(kv.0) == key,
        None => false,
    }
}

/// A line that is not a `key=value` line for `key` leaves the value found
/// for `key` unchanged, wherever it stands.
pub proof fn lemma_last_value_skips(
    a: Seq<Seq<char>>,
    line: Seq<char>,
    b: Seq<Seq<char>>,
    key: Seq<char>,
)
    requires
        !line_has_key(line, key),
    ensures
        last_value(a + seq![line] + b, key) == last_value(a + b, key),
    decreases b.len(),
{
    if b.len() == 0 {
        assert(a + seq![line] + b =~= a.push(line));
        assert(a + b =~= a);
        assert((a.push(line)).drop_last() =~= a);
    } else {
        lemma_last_value_skips(a, line, b.drop_last(), key);
        assert((a + seq![line] + b).drop_last() =~= a + seq![line] + b.drop_last());
        assert((a + b).drop_last() =~= a + b.drop_last());
        assert((a + seq![line] + b).last() == b.last());
        assert((a + b).last() == b.last());
    }
}

/// Lines without `=`, and lines whose key is none of `X`, `Y`, `WIDTH` and
/// `HEIGHT`, never change the geometry read from xdotool's output, wherever
/// they stand among its lines.
pub proof fn law_geometry_ignores_other_lines(
    a: Seq<Seq<char>>,
    line: Seq<char>,
    b: Seq<Seq<char>>,
)
    requires
        !line_has_key(line, "X"@),
        !line_has_key(line, "Y"@),
        !line_has_key(line, "WIDTH"@),
        !line_has_key(line, "HEIGHT"@),
    ensures
        line_geometry(a + seq![line] + b) == line_geometry(a + b),
{
    lemma_last_value_skips(a, line, b, "X"@);
    lemma_last_value_skips(a, line, b, "Y"@);
    lemma_last_value_skips(a, line, b, "WIDTH"@);
    lemma_last_value_skips(a, line, b, "HEIGHT"@);
}

/// The pointer position in `xdotool getmouselocation --shell` output.
pub open spec fn mouse_location_of(out: Seq<char>) -> Option<(i32, i32)> {
    match (field_i32(out, "X"@), field_i32(out, "Y"@)) {
        (Some(x), Some(y)) => Some((x, y)),
        _ => None,
    }
}

fn field_i32_exec(ls: &Vec<Vec<char>>, key: &str) -> (r: Option<i32>)
    ensures
        r == (match last_value(ls.deep_view(), key@) {
            Some(v) => match parse_i32_spec(v) {
                Ok(n) => Some(n as i32),
                Err(_) => None::<i32>,
            },
            None => None,
        }),
{
    let k = chars_of(key);
    match last_value_of(ls, k.as_slice()) {
        Some(v) => match parse_i32(v.as_slice()) {
            Ok(n) => Some(n),
            Err(_) => None,
        },
        None => None,
    }
}

fn field_u32_exec(ls: &Vec<Vec<char>>, key: &str) -> (r: Option<u32>)
    ensures
        r == (match last_value(ls.deep_view(), key@) {
            Some(v) => match parse_u32_spec(v) {
                Ok(n) => Some(n as u32),
                Err(_) => None::<u32>,
            },
            None => None,
        }),
{
    let k = chars_of(key);
    match last_value_of(ls, k.as_slice()) {
        Some(v) => match parse_u32(v.as_slice()) {
            Ok(n) => Some(n),
            Err(_) => None,
        },
        None => None,
    }
}

/// Parse the output of `xdotool getwindowgeometry --shell <id>`.
pub fn parse_xdotool_geometry(output: &str) -> (r: Option<Region>)
    ensures
        r == geometry_of(output@),
{
    let chars = chars_of(output);
    let ls = split_lines(chars.as_slice());
    let x = field_i32_exec(&ls, "X");
    let y = field_i32_exec(&ls, "Y");
    let width = field_u32_exec(&ls, "WIDTH");
    let height = field_u32_exec(&ls, "HEIGHT");
    match (x, y, width, height) {
        (Some(x), Some(y), Some(width), Some(height)) => Some(Region { x, y, width, height }),
        _ => None,
    }
}

/// Parse the output of `xdotool getmouselocation --shell` into screen pixels.
pub fn parse_mouse_location(output: &str) -> (r: Option<(i32, i32)>)
    ensures
        r == mouse_location_of(output@),
{
    let chars = chars_of(output);
    let ls = split_lines(chars.as_slice());
    let x = field_i32_exec(&ls, "X");
    let y = field_i32_exec(&ls, "Y");
    match (x, y) {
        (Some(x), Some(y)) => Some((x, y)),
        _ => None,
    }
}

/// The window id that `xdotool search --name <title>` printed first: the
/// first line of its trimmed output, or `WindowNotFound(title)` when it
/// printed nothing. The caller then asks xdotool for that window's geometry
/// and hands the answer to [`resolve_window_id`].
pub fn resolve_window(title: &str, search_output: &str) -> (r: Result<String, CaptureError>)
    ensures
        match r {
            Ok(id) => lines(trim(search_output@)).len() > 0 && id@ == lines(
                trim(search_output@),
            )[0],
            Err(e) => lines(trim(search_output@)).len() == 0 && (e matches CaptureError::WindowNotFound(
                t,
            ) && t@ == title@),
        },
{
    let chars = chars_of(search_output);
    let trimmed = trim_chars(chars.as_slice());
    let ls = split_lines(trimmed.as_slice());
    if ls.len() == 0 {
        Err(CaptureError::WindowNotFound(String::from_str(title)))
    } else {
        let first = &ls[0];
        let mut id = String::new();
        let mut i: usize = 0;
        while i < first.len()
            invariant
                i <= first@.len(),
                id@ == first@.take(i as int),
            decreases first.len() - i,
        {
            push_char(&mut id, first[i]);
            assert(first@.take(i + 1) =~= first@.take(i as int).push(first@[i as int]));
            i = i + 1;
        }
        assert(first@.take(first@.len() as int) =~= first@);
        assert(ls.deep_view()[0] =~= first@);
        Ok(id)
    }
}

/// The geometry of window `id` from the (trimmed) output of
/// `xdotool getwindowgeometry --shell <id>`, or `WindowNotFound(id)` when the
/// output does not describe a whole rectangle.
pub fn resolve_window_id(id: &str, geometry_output: &str) -> (r: Result<Region, CaptureError>)
    ensures
        match r {
            Ok(region) => geometry_of(trim(geometry_output@)) == Some(region),
            Err(e) => geometry_of(trim(geometry_output@)) is None && (e matches CaptureError::WindowNotFound(
                t,
            ) && t@ == id@),
        },
{
    let chars = chars_of(geometry_output);
    let trimmed = trim_chars(chars.as_slice());
    let ls = split_lines(trimmed.as_slice());
    let x = field_i32_exec(&ls, "X");
    let y = field_i32_exec(&ls, "Y");
    let width = field_u32_exec(&ls, "WIDTH");
    let height = field_u32_exec(&ls, "HEIGHT");
    match (x, y, width, height) {
        (Some(x), Some(y), Some(width), Some(height)) => Ok(Region { x, y, width, height }),
        _ => Err(CaptureError::WindowNotFound(String::from_str(id))),
    }
}

/// The ffmpeg command line of an x11grab recording, given the duration already
/// written with three decimals (`seconds_text`, such as `2.500`).
pub open spec fn x11grab_args_spec(
    display: Seq<char>,
    region: Region,
    fps: u32,
    seconds_text: Seq<char>,
    output: Seq<char>,
) -> Seq<Seq<char>> {
    seq![
        "-y"@,
        "-v"@,
        "error"@,
        "-f"@,
        "x11grab"@,
        "-framerate"@,
        decimal(fps as nat),
        "-video_size"@,
        decimal(region.width as nat) + seq!['x'] + decimal(region.height as nat),
        "-i"@,
        display + seq!['+'] + signed_decimal(region.x as int) + seq![','] + signed_decimal(
            region.y as int,
        ),
        "-t"@,
        seconds_text,
        "-c:v"@,
        "libx264"@,
        "-preset"@,
        "ultrafast"@,
        "-vf"@,
        "pad=ceil(iw/2)*2:ceil(ih/2)*2"@,
        "-pix_fmt"@,
        "yuv420p"@,
        output,
    ]
}

/// Build the ffmpeg argument vector for an x11grab recording. The duration is
/// passed already formatted with three decimals, as `format!("{:.3}")` writes
/// it.
pub fn x11grab_args(
    display: &str,
    region: Region,
    fps: u32,
    seconds_text: &str,
    output: &str,
) -> (args: Vec<String>)
    ensures
        args.deep_view() == x11grab_args_spec(display@, region, fps, seconds_text@, output@),
{
    let mut args: Vec<String> = Vec::new();
    args.push(String::from_str("-y"));
    args.push(String::from_str("-v"));
    args.push(String::from_str("error"));
    args.push(String::from_str("-f"));
    args.push(String::from_str("x11grab"));
    args.push(String::from_str("-framerate"));
    let mut rate = String::new();
    push_decimal(&mut rate, fps as u64);
    assert(rate@ =~= decimal(fps as nat));
    args.push(rate);
    args.push(String::from_str("-video_size"));
    let mut size = String::new();
    push_decimal(&mut size, region.width as u64);
    push_char(&mut size, 'x');
    push_decimal(&mut size, region.height as u64);
    assert(size@ =~= decimal(region.width as nat) + seq!['x'] + decimal(region.height as nat));
    args.push(size);
    args.push(String::from_str("-i"));
    let mut input = String::from_str(display);
    push_char(&mut input, '+');
    push_signed_decimal(&mut input, region.x as i64);
    push_char(&mut input, ',');
    push_signed_decimal(&mut input, region.y as i64);
    assert(input@ =~= display@ + seq!['+'] + signed_decimal(region.x as int) + seq![',']
        + signed_decimal(region.y as int));
    args.push(input);
    args.push(String::from_str("-t"));
    args.push(String::from_str(seconds_text));
    args.push(String::from_str("-c:v"));
    args.push(String::from_str("libx264"));
    args.push(String::from_str("-preset"));
    args.push(String::from_str("ultrafast"));
    args.push(String::from_str("-vf"));
    args.push(String::from_str("pad=ceil(iw/2)*2:ceil(ih/2)*2"));
    args.push(String::from_str("-pix_fmt"));
    args.push(String::from_str("yuv420p"));
    args.push(String::from_str(output));
    assert(args.deep_view() =~= x11grab_args_spec(
        display@,
        region,
        fps,
        seconds_text@,
        output@,
    ));
    args
}

/// One line of a cursor track: `{"tMs":T,"x":X,"y":Y}`.
pub open spec fn cursor_line_spec(t_ms: nat, x: int, y: int) -> Seq<char> {
    "{\"tMs\":"@ + decimal(t_ms) + ",\"x\":"@ + signed_decimal(x) + ",\"y\":"@ + signed_decimal(y)
        + "}"@
}

/// Whether a pointer at region-relative `(x, y)` lies inside `region`.
pub open spec fn in_region(region: Region, x: int, y: int) -> bool {
    0 <= x < region.width && 0 <= y < region.height
}

/// The cursor-track line for a pointer sample taken `t_ms` after capture
/// start at screen position `(screen_x, screen_y)`: the position is stored
/// relative to the captured region's origin, and a sample outside the region
/// gives no line, so every recorded sample lies within the region's bounds.
pub fn cursor_sample_line(t_ms: u64, screen_x: i32, screen_y: i32, region: Region) -> (line:
    Option<String>)
    ensures
        match line {
            Some(l) => in_region(region, screen_x - region.x, screen_y - region.y)
                && l@ == cursor_line_spec(t_ms as nat, screen_x - region.x, screen_y - region.y),
            None => !in_region(region, screen_x - region.x, screen_y - region.y),
        },
{
    let rx: i64 = screen_x as i64 - region.x as i64;
    let ry: i64 = screen_y as i64 - region.y as i64;
    if rx < 0 || rx >= region.width as i64 || ry < 0 || ry >= region.height as i64 {
        return None;
    }
    let mut line = String::from_str("{\"tMs\":");
    push_decimal(&mut line, t_ms);
    line.append(",\"x\":");
    push_signed_decimal(&mut line, rx);
    line.append(",\"y\":");
    push_signed_decimal(&mut line, ry);
    line.append("}");
    assert(line@ =~= cursor_line_spec(t_ms as nat, rx as int, ry as int));
    Some(line)
}

} // verus!
