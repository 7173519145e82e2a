//! Reading command-line flags and deriving the default file paths of the
//! `appreels` command.

use vstd::prelude::*;

use crate::capture::Region;
use crate::number::{
    decimal, parse_i32, parse_i32_spec, parse_u32, parse_u32_spec, push_char, signed_decimal,
    NumberError,
};
use crate::render::Caption;
use crate::text::{chars_of, split_once, split_once_chars, trim, trim_chars};

verus! {

/// How long a title or outro card given on the command line lasts.
pub const DEFAULT_CARD_MS: u32 = 1500;

/// Why a command-line flag value was refused.
#[derive(Debug, Clone, Copy, PartialEq, Eq)]
pub enum FlagError {
    /// `--region` did not have four comma-separated parts.
    RegionShape,
    /// `--caption` did not have the `startMs:endMs:text` shape.
    CaptionShape,
    /// A number in the value did not parse.
    Number(NumberError),
}

/// The message for each flag error.
pub open spec fn flag_error_message(e: FlagError) -> Seq<char> {
    match e {
        FlagError::RegionShape => "region must be \"x,y,width,height\""@,
        FlagError::CaptionShape => "caption must be \"startMs:endMs:text\""@,
        FlagError::Number(n) => crate::number::number_error_message(n),
    }
}

impl FlagError {
    /// The message this error is shown with.
    pub fn message(&self) -> (m: String)
        ensures
            m@ == flag_error_message(*self),
    {
        match self {
            FlagError::RegionShape => String::from_str("region must be \"x,y,width,height\""),
            FlagError::CaptionShape => String::from_str("caption must be \"startMs:endMs:text\""),
            FlagError::Number(n) => n.message(),
        }
    }
}

/// Scanning `s` from the left, the pieces between separators `c` so far and
/// the piece still open.
pub open spec fn split_scan(s: Seq<char>, c: char) -> (Seq<Seq<char>>, Seq<char>)
    decreases s.len(),
{
    if s.len() == 0 {
        (Seq::empty(), Seq::empty())
    } else {
        let (done, open) = split_scan(s.drop_last(), c);
        if s.last() == c {
            (done.push(open), Seq::empty())
        } else {
            (done, open.push(s.last()))
        }
    }
}

/// The pieces of `s` between separators `c`, as `str::split` yields them
/// (an empty text is one empty piece).
pub open spec fn split_on(s: Seq<char>, c: char) -> Seq<Seq<char>> {
    let (done, open) = split_scan(s, c);
    done.push(open)
}

pub open spec fn number_result<T>(r: Result<T, NumberError>) -> Result<T, FlagError> {
    match r {
        Ok(v) => Ok(v),
        Err(e) => Err(FlagError::Number(e)),
    }
}

/// The region that `--region "x,y,width,height"` describes: four
/// comma-separated parts, each trimmed, read as `i32`, `i32`, `u32`, `u32`;
/// the first part that does not read gives the error.
pub open spec fn region_of(spec: Seq<char>) -> Result<Region, FlagError> {
    let parts = split_on(spec, ',');
    if parts.len() != 4 {
        Err(FlagError::RegionShape)
    } else {
        match (
            parse_i32_spec(trim(parts[0])),
            parse_i32_spec(trim(parts[1])),
            parse_u32_spec(trim(parts[2])),
            parse_u32_spec(trim(parts[3])),
        ) {
            (Err(e), _, _, _) => Err(FlagError::Number(e)),
            (Ok(_), Err(e), _, _) => Err(FlagError::Number(e)),
            (Ok(_), Ok(_), Err(e), _) => Err(FlagError::Number(e)),
            (Ok(_), Ok(_), Ok(_), Err(e)) => Err(FlagError::Number(e)),
            (Ok(x), Ok(y), Ok(w), Ok(h)) => Ok(
                Region { x: x as i32, y: y as i32, width: w as u32, height: h as u32 },
            ),
        }
    }
}

/// The pieces of `s` split at `c`, each trimmed.
fn split_trimmed(s: &[char], c: char) -> (r: Vec<Vec<char>>)
    ensures
        r@.len() == split_on(s@, c).len(),
        forall|j: int| 0 <= j < r@.len() ==> #[trigger] r@[j]@ == trim(split_on(s@, c)[j]),
{
    let mut done: Vec<Vec<char>> = Vec::new();
    let mut open: Vec<char> = Vec::new();
    let ghost mut raw: Seq<Seq<char>> = Seq::empty();
    let n = s.len();
    let mut i: usize = 0;
    while i < n
        invariant
            i <= n == s@.len(),
            (raw, open@) == split_scan(s@.take(i as int), c),
            done@.len() == raw.len(),
            forall|j: int| 0 <= j < done@.len() ==> #[trigger] done@[j]@ == trim(raw[j]),
        decreases n - i,
    {
        assert(s@.take(i + 1).drop_last() =~= s@.take(i as int));
        let ch = s[i];
        if ch == c {
            let piece = trim_chars(open.as_slice());
            done.push(piece);
            proof {
                raw = raw.push(open@);
            }
            open = Vec::new();
        } else {
            open.push(ch);
        }
        i = i + 1;
    }
    assert(s@.take(n as int) =~= s@);
    let piece = trim_chars(open.as_slice());
    done.push(piece);
    proof {
        raw = raw.push(open@);
    }
    done
}

/// Reads `--region "x,y,width,height"`.
pub fn parse_region(spec: &str) -> (r: Result<Region, FlagError>)
    ensures
        r == region_of(spec@),
{
    let chars = chars_of(spec);
    let parts = split_trimmed(chars.as_slice(), ',');
    if parts.len() != 4 {
        return Err(FlagError::RegionShape);
    }
    assert(parts@[0]@ == trim(split_on(spec@, ',')[0]));
    assert(parts@[1]@ == trim(split_on(spec@, ',')[1]));
    assert(parts@[2]@ == trim(split_on(spec@, ',')[2]));
    assert(parts@[3]@ == trim(split_on(spec@, ',')[3]));
    let x = match parse_i32(parts[0].as_slice()) {
        Ok(v) => v,
        Err(e) => return Err(FlagError::Number(e)),
    };
    let y = match parse_i32(parts[1].as_slice()) {
        Ok(v) => v,
        Err(e) => return Err(FlagError::Number(e)),
    };
    let width = match parse_u32(parts[2].as_slice()) {
        Ok(v) => v,
        Err(e) => return Err(FlagError::Number(e)),
    };
    let height = match parse_u32(parts[3].as_slice()) {
        Ok(v) => v,
        Err(e) => return Err(FlagError::Number(e)),
    };
    Ok(Region { x, y, width, height })
}

/// What `--caption "startMs:endMs:text"` gives: the start and end read (each
/// trimmed) as `u32`, and the text as it stands after the second colon,
/// colons and all. The start is read first, then the presence of the second
/// part, then the end, then the presence of the text.
pub open spec fn caption_flag_of(spec: Seq<char>) -> Result<(u32, u32, Seq<char>), FlagError> {
    match split_once(spec, ':') {
        None => match parse_u32_spec(trim(spec)) {
            Err(e) => Err(FlagError::Number(e)),
            Ok(_) => Err(FlagError::CaptionShape),
        },
        Some((a, rest)) => match parse_u32_spec(trim(a)) {
            Err(e) => Err(FlagError::Number(e)),
            Ok(start) => match split_once(rest, ':') {
                None => match parse_u32_spec(trim(rest)) {
                    Err(e) => Err(FlagError::Number(e)),
                    Ok(_) => Err(FlagError::CaptionShape),
                },
                Some((b, text)) => match parse_u32_spec(trim(b)) {
                    Err(e) => Err(FlagError::Number(e)),
                    Ok(end) => Ok((start as u32, end as u32, text)),
                },
            },
        },
    }
}

fn parse_trimmed_u32(s: &[char]) -> (r: Result<u32, NumberError>)
    ensures
        match r {
            Ok(v) => parse_u32_spec(trim(s@)) == Ok::<nat, NumberError>(v as nat),
            Err(e) => parse_u32_spec(trim(s@)) == Err::<nat, NumberError>(e),
        },
{
    let t = trim_chars(s);
    parse_u32(t.as_slice())
}

fn string_of(s: &[char]) -> (r: String)
    ensures
        r@ == s@,
{
    let mut r = String::new();
    let mut i: usize = 0;
    while i < s.len()
        invariant
            i <= s@.len(),
            r@ == s@.take(i as int),
        decreases s.len() - i,
    {
        push_char(&mut r, s[i]);
        assert(s@.take(i + 1) =~= s@.take(i as int).push(s@[i as int]));
        i = i + 1;
    }
    assert(s@.take(s@.len() as int) =~= s@);
    r
}

/// Reads `--caption "startMs:endMs:text"`; the text keeps any further colons.
pub fn parse_caption_flag(spec: &str) -> (r: Result<Caption, FlagError>)
    ensures
        match r {
            Ok(c) => caption_flag_of(spec@) == Ok::<(u32, u32, Seq<char>), FlagError>(
                (c.start_ms, c.end_ms, c.text@),
            ),
            Err(e) => caption_flag_of(spec@) == Err::<(u32, u32, Seq<char>), FlagError>(e),
        },
{
    let chars = chars_of(spec);
    match split_once_chars(chars.as_slice(), ':') {
        None => match parse_trimmed_u32(chars.as_slice()) {
            Err(e) => Err(FlagError::Number(e)),
            Ok(_) => Err(FlagError::CaptionShape),
        },
        Some((a, rest)) => match parse_trimmed_u32(a.as_slice()) {
            Err(e) => Err(FlagError::Number(e)),
            Ok(start_ms) => match split_once_chars(rest.as_slice(), ':') {
                None => match parse_trimmed_u32(rest.as_slice()) {
                    Err(e) => Err(FlagError::Number(e)),
                    Ok(_) => Err(FlagError::CaptionShape),
                },
                Some((b, text)) => match parse_trimmed_u32(b.as_slice()) {
                    Err(e) => Err(FlagError::Number(e)),
                    Ok(end_ms) => Ok(
                        Caption { start_ms, end_ms, text: string_of(text.as_slice()) },
                    ),
                },
            },
        },
    }
}

/// What `Path::with_extension` gives for `path` and `extension`.
pub uninterp spec fn path_with_extension(path: Seq<char>, extension: Seq<char>) -> Seq<char>;

/// What `Path::file_stem` gives for `path`.
pub uninterp spec fn path_file_stem(path: Seq<char>) -> Option<Seq<char>>;

/// What `Path::with_file_name` gives for `path` and `name`.
pub uninterp spec fn path_with_file_name(path: Seq<char>, name: Seq<char>) -> Seq<char>;

/// Calls `std::path::Path::with_extension` on `path`. Nothing is stated of the
/// result but that it is the named function of the two arguments. The call
/// panics when the extension holds a path separator, so `extension` must hold
/// no `'/'`.
#[verifier::external_body]
fn with_extension(path: &str, extension: &str) -> (r: String)
    requires
        !extension@.contains('/'),
    ensures
        r@ == path_with_extension(path@, extension@),
{
    std::path::Path::new(path).with_extension(extension).to_string_lossy().into_owned()
}

/// Calls `std::path::Path::file_stem` on `path`. Nothing is stated of the
/// result but that it is the named function of the argument.
#[verifier::external_body]
fn file_stem(path: &str) -> (r: Option<String>)
    ensures
        match r {
            Some(s) => path_file_stem(path@) == Some(s@),
            None => path_file_stem(path@) is None,
        },
{
    match std::path::Path::new(path).file_stem() {
        Some(s) => Some(s.to_string_lossy().into_owned()),
        None => None,
    }
}

/// Calls `std::path::Path::with_file_name` on `path`. Nothing is stated of
/// the result but that it is the named function of the two arguments.
#[verifier::external_body]
fn with_file_name(path: &str, name: &str) -> (r: String)
    ensures
        r@ == path_with_file_name(path@, name@),
{
    std::path::Path::new(path).with_file_name(name).to_string_lossy().into_owned()
}

/// `<out>.cursor.jsonl` next to a recording or source video: the path with
/// its extension replaced by `cursor.jsonl`.
pub fn default_cursor_track(out: &str) -> (r: String)
    ensures
        r@ == path_with_extension(out@, "cursor.jsonl"@),
{
    proof {
        reveal_strlit("cursor.jsonl");
    }
    with_extension(out, "cursor.jsonl")
}

/// The stem a raw recording is named after: the output's file stem, or
/// `demo` when it has none or an empty one.
pub open spec fn raw_stem(out: Seq<char>) -> Seq<char> {
    match path_file_stem(out) {
        Some(s) => if s.len() > 0 {
            s
        } else {
            "demo"@
        },
        None => "demo"@,
    }
}

/// `<stem>.raw.mp4` next to the final output: where `perform-terminal` keeps
/// the raw recording by default.
pub fn raw_demo_path(out: &str) -> (r: String)
    ensures
        r@ == path_with_file_name(out@, raw_stem(out@) + ".raw.mp4"@),
{
    let mut name = match file_stem(out) {
        Some(s) => if s.unicode_len() > 0 {
            s
        } else {
            String::from_str("demo")
        },
        None => String::from_str("demo"),
    };
    name.append(".raw.mp4");
    with_file_name(out, name.as_str())
}

/// What `Path::parent` gives for `path`.
pub uninterp spec fn path_parent(path: Seq<char>) -> Option<Seq<char>>;

/// What `Path::join` gives for `base` and `rest`.
pub uninterp spec fn path_join(base: Seq<char>, rest: Seq<char>) -> Seq<char>;

/// Whether `path` is absolute on Unix: it begins with the root `/`.
pub open spec fn is_absolute_path(path: Seq<char>) -> bool {
    path.len() > 0 && path[0] == '/'
}

/// Calls `std::path::Path::is_relative` on `path`. Its documentation says
/// that on Unix a path is absolute exactly when it has a root, which is when
/// it begins with `/`; this library records on X11, so Unix is the target.
#[verifier::external_body]
fn is_relative(path: &str) -> (r: bool)
    ensures
        r == !is_absolute_path(path@),
{
    std::path::Path::new(path).is_relative()
}

/// Calls `std::path::Path::parent` on `path`. Nothing is stated of the result
/// but that it is the named function of the argument.
#[verifier::external_body]
fn parent(path: &str) -> (r: Option<String>)
    ensures
        match r {
            Some(p) => path_parent(path@) == Some(p@),
            None => path_parent(path@) is None,
        },
{
    match std::path::Path::new(path).parent() {
        Some(p) => Some(p.to_string_lossy().into_owned()),
        None => None,
    }
}

/// Calls `std::path::Path::join` on `base` and `rest`. Nothing is stated of
/// the result but that it is the named function of the two arguments.
#[verifier::external_body]
fn join(base: &str, rest: &str) -> (r: String)
    ensures
        r@ == path_join(base@, rest@),
{
    std::path::Path::new(base).join(rest).to_string_lossy().into_owned()
}

/// Where a cue file's `cursorTrack` points: a relative track is taken from
/// the cue file's folder; an absolute one, or one whose cue file has no
/// parent, is kept as written.
pub open spec fn cue_track_path(cue_path: Seq<char>, track: Seq<char>) -> Seq<char> {
    if is_absolute_path(track) {
        track
    } else {
        match path_parent(cue_path) {
            Some(dir) => path_join(dir, track),
            None => track,
        }
    }
}

/// Resolves the `cursorTrack` named in the cue file at `cue_path` against
/// that file's folder.
pub fn resolve_cue_track(cue_path: &str, track: &str) -> (r: String)
    ensures
        r@ == cue_track_path(cue_path@, track@),
{
    if is_relative(track) {
        match parent(cue_path) {
            Some(dir) => join(dir.as_str(), track),
            None => String::from_str(track),
        }
    } else {
        String::from_str(track)
    }
}

/// The cursor-track path a render is handed: `--cursor-track` when given;
/// none when the cue file names a track, since the render then reads the
/// timeline's own track; else `<input>.cursor.jsonl` when that file exists;
/// else none.
pub fn cursor_track_choice(
    flag: Option<String>,
    cue_has_track: bool,
    auto_track: String,
    auto_exists: bool,
) -> (r: Option<String>)
    ensures
        r == (match flag {
            Some(f) => Some(f),
            None => if cue_has_track {
                None
            } else if auto_exists {
                Some(auto_track)
            } else {
                None
            },
        }),
{
    match flag {
        Some(f) => Some(f),
        None => if cue_has_track {
            None
        } else if auto_exists {
            Some(auto_track)
        } else {
            None
        },
    }
}

proof fn lemma_split_scan_free(p: Seq<char>, a: Seq<char>, c: char)
    requires
        !a.contains(c),
    ensures
        split_scan(p + a, c) == (split_scan(p, c).0, split_scan(p, c).1 + a),
    decreases a.len(),
{
    if a.len() == 0 {
        assert(p + a =~= p);
        assert(split_scan(p, c).1 + a =~= split_scan(p, c).1);
    } else {
        let a0 = a.drop_last();
        assert(!a0.contains(c)) by {
            if a0.contains(c) {
                let j = choose|j: int| 0 <= j < a0.len() && a0[j] == c;
                assert(a[j] == c);
            }
        }
        lemma_split_scan_free(p, a0, c);
        assert((p + a).drop_last() =~= p + a0);
        assert((p + a).last() == a.last());
        assert(a.last() != c) by {
            assert(a[a.len() - 1] == a.last());
        }
        assert(split_scan(p, c).1 + a0 + seq![a.last()] =~= split_scan(p, c).1 + a);
    }
}

proof fn lemma_split_scan_sep(p: Seq<char>, c: char)
    ensures
        split_scan(p + seq![c], c) == (split_scan(p, c).0.push(split_scan(p, c).1), Seq::<char>::empty()),
{
    assert((p + seq![c]).drop_last() =~= p);
}

proof fn lemma_digits_free_of(s: Seq<char>, c: char)
    requires
        !crate::number::is_digit(c),
        forall|i: int| 0 <= i < s.len() ==> crate::number::is_digit(#[trigger] s[i]),
    ensures
        !s.contains(c),
        forall|i: int| 0 <= i < s.len() ==> !crate::text::is_white_space(#[trigger] s[i]),
{
}

proof fn lemma_signed_decimal_digits(x: i32)
    ensures
        forall|i: int|
            0 <= i < signed_decimal(x as int).len() ==> {
                let ch = #[trigger] signed_decimal(x as int)[i];
                ch != ',' && !crate::text::is_white_space(ch)
            },
{
    if x < 0 {
        let m = (-x) as nat;
        crate::number::lemma_decimal_is_digits(m);
        let s = signed_decimal(x as int);
        assert forall|i: int| 0 <= i < s.len() implies {
            let ch = #[trigger] s[i];
            ch != ',' && !crate::text::is_white_space(ch)
        } by {
            if i > 0 {
                assert(s[i] == decimal(m)[i - 1]);
            }
        }
    } else {
        crate::number::lemma_decimal_is_digits(x as nat);
    }
}

/// A region written as `x,y,width,height` in decimal reads back as that
/// region.
pub proof fn law_region_round_trip(r: Region)
    ensures
        region_of(
            signed_decimal(r.x as int) + seq![','] + signed_decimal(r.y as int) + seq![',']
                + decimal(r.width as nat) + seq![','] + decimal(r.height as nat),
        ) == Ok::<Region, FlagError>(r),
{
    let a = signed_decimal(r.x as int);
    let b = signed_decimal(r.y as int);
    let w = decimal(r.width as nat);
    let h = decimal(r.height as nat);
    lemma_signed_decimal_digits(r.x);
    lemma_signed_decimal_digits(r.y);
    crate::number::lemma_decimal_is_digits(r.width as nat);
    crate::number::lemma_decimal_is_digits(r.height as nat);
    lemma_digits_free_of(w, ',');
    lemma_digits_free_of(h, ',');
    assert(!a.contains(',')) by {
        if a.contains(',') {
            let j = choose|j: int| 0 <= j < a.len() && a[j] == ',';
            assert(a[j] != ',');
        }
    }
    assert(!b.contains(',')) by {
        if b.contains(',') {
            let j = choose|j: int| 0 <= j < b.len() && b[j] == ',';
            assert(b[j] != ',');
        }
    }
    let e = Seq::<char>::empty();
    let s1 = a + seq![','];
    let s2 = s1 + b + seq![','];
    let s3 = s2 + w + seq![','];
    let s4 = s3 + h;
    lemma_split_scan_free(e, a, ',');
    assert(e + a =~= a);
    assert(split_scan(e, ',') == (Seq::<Seq<char>>::empty(), e));
    assert(e + a == a);
    lemma_split_scan_sep(a, ',');
    lemma_split_scan_free(s1, b, ',');
    lemma_split_scan_sep(s1 + b, ',');
    lemma_split_scan_free(s2, w, ',');
    lemma_split_scan_sep(s2 + w, ',');
    lemma_split_scan_free(s3, h, ',');
    let parts = split_on(s4, ',');
    assert(parts =~= seq![a, b, w, h]);
    crate::text::lemma_trim_without_space(a);
    crate::text::lemma_trim_without_space(b);
    crate::text::lemma_trim_without_space(w);
    crate::text::lemma_trim_without_space(h);
    crate::number::lemma_parse_i32_signed_decimal(r.x);
    crate::number::lemma_parse_i32_signed_decimal(r.y);
    crate::number::lemma_parse_u32_decimal(r.width);
    crate::number::lemma_parse_u32_decimal(r.height);
    assert(s4 =~= a + seq![','] + b + seq![','] + w + seq![','] + h);
}

proof fn lemma_decimal_reads_back(n: u32, c: char)
    requires
        !crate::number::is_digit(c),
    ensures
        !decimal(n as nat).contains(c),
        parse_u32_spec(trim(decimal(n as nat))) == Ok::<nat, NumberError>(n as nat),
{
    crate::number::lemma_decimal_is_digits(n as nat);
    lemma_digits_free_of(decimal(n as nat), c);
    crate::text::lemma_trim_without_space(decimal(n as nat));
    crate::number::lemma_parse_u32_decimal(n);
}

proof fn lemma_caption_flag_cuts(start: u32, end: u32, text: Seq<char>)
    ensures
        split_once(decimal(start as nat) + seq![':'] + decimal(end as nat) + seq![':'] + text, ':')
            == Some((decimal(start as nat), decimal(end as nat) + seq![':'] + text)),
        split_once(decimal(end as nat) + seq![':'] + text, ':') == Some(
            (decimal(end as nat), text),
        ),
{
    let a = decimal(start as nat);
    let b = decimal(end as nat);
    let rest = b + seq![':'] + text;
    lemma_decimal_reads_back(start, ':');
    lemma_decimal_reads_back(end, ':');
    crate::text::lemma_split_once_after(a, rest, ':');
    crate::text::lemma_split_once_after(b, text, ':');
    assert(a + seq![':'] + b + seq![':'] + text =~= a + seq![':'] + rest);
}

/// A caption flag written as `start:end:text` reads back as that caption,
/// whatever the text holds, colons included.
pub proof fn law_caption_flag_round_trip(start: u32, end: u32, text: Seq<char>)
    ensures
        caption_flag_of(decimal(start as nat) + seq![':'] + decimal(end as nat) + seq![':'] + text)
            == Ok::<(u32, u32, Seq<char>), FlagError>((start, end, text)),
{
    lemma_decimal_reads_back(start, ':');
    lemma_decimal_reads_back(end, ':');
    lemma_caption_flag_cuts(start, end, text);
}

} // verus!
