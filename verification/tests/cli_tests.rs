use appreels::cli::{
    cursor_track_choice, default_cursor_track, resolve_cue_track, parse_caption_flag, parse_region, raw_demo_path, FlagError,
    DEFAULT_CARD_MS,
};
use appreels::number::NumberError;
use std::path::PathBuf;

#[test]
fn parses_region_spec() {
    let r = parse_region("10, 20, 640, 480").expect("region");
    assert_eq!((r.x, r.y, r.width, r.height), (10, 20, 640, 480));
}

#[test]
fn rejects_bad_region_spec() {
    assert!(parse_region("1,2,3").is_err());
}

#[test]
fn region_errors_name_the_shape_or_the_number() {
    assert_eq!(parse_region("1,2,3,4,5"), Err(FlagError::RegionShape));
    assert_eq!(parse_region(""), Err(FlagError::RegionShape));
    assert_eq!(
        parse_region("1,,3,4"),
        Err(FlagError::Number(NumberError::Empty))
    );
    assert_eq!(
        parse_region("1,2,-3,4"),
        Err(FlagError::Number(NumberError::InvalidDigit))
    );
    assert_eq!(
        parse_region("-2147483649,2,3,4"),
        Err(FlagError::Number(NumberError::NegOverflow))
    );
    assert_eq!(
        parse_region("1,2,3,4294967296"),
        Err(FlagError::Number(NumberError::PosOverflow))
    );
    assert_eq!(
        FlagError::RegionShape.message(),
        "region must be \"x,y,width,height\""
    );
    assert_eq!(
        FlagError::Number(NumberError::InvalidDigit).message(),
        "invalid digit found in string"
    );
}

#[test]
fn parses_caption_flag_keeping_colons_in_text() {
    let c = parse_caption_flag("0:1800:Open: the menu").expect("caption");
    assert_eq!((c.start_ms, c.end_ms), (0, 1800));
    assert_eq!(c.text, "Open: the menu");
}

#[test]
fn rejects_caption_flag_without_text() {
    assert!(parse_caption_flag("0:1800").is_err());
}

#[test]
fn caption_flag_errors_come_in_reading_order() {
    assert_eq!(parse_caption_flag("0:1800"), Err(FlagError::CaptionShape));
    assert_eq!(parse_caption_flag("5"), Err(FlagError::CaptionShape));
    assert_eq!(
        parse_caption_flag("x"),
        Err(FlagError::Number(NumberError::InvalidDigit))
    );
    assert_eq!(
        parse_caption_flag("1:y:text"),
        Err(FlagError::Number(NumberError::InvalidDigit))
    );
    assert_eq!(
        parse_caption_flag(":1:t"),
        Err(FlagError::Number(NumberError::Empty))
    );
    let c = parse_caption_flag(" 7 : 9 : spaced ").expect("caption");
    assert_eq!((c.start_ms, c.end_ms, c.text.as_str()), (7, 9, " spaced "));
    assert_eq!(
        FlagError::CaptionShape.message(),
        "caption must be \"startMs:endMs:text\""
    );
}

#[test]
fn derives_cursor_track_path_from_output() {
    let p = default_cursor_track("/tmp/raw.mp4");
    assert_eq!(PathBuf::from(p), PathBuf::from("/tmp/raw.cursor.jsonl"));
}

#[test]
fn derives_raw_demo_path_from_output() {
    let p = raw_demo_path("/tmp/demo.mp4");
    assert_eq!(PathBuf::from(p), PathBuf::from("/tmp/demo.raw.mp4"));
}

#[test]
fn raw_demo_path_falls_back_to_demo_without_a_stem() {
    assert_eq!(raw_demo_path("/"), "/demo.raw.mp4");
    assert_eq!(raw_demo_path("clip"), "clip.raw.mp4");
}

#[test]
fn default_card_lasts_one_and_a_half_seconds() {
    assert_eq!(DEFAULT_CARD_MS, 1500);
}

#[test]
fn cursor_track_prefers_flag_then_cue_file_then_discovery() {
    let s = |v: &str| Some(v.to_string());
    assert_eq!(
        cursor_track_choice(s("flag.jsonl"), true, "auto.jsonl".into(), true),
        s("flag.jsonl")
    );
    // The cue file's own track is read by the render: no path is handed over.
    assert_eq!(cursor_track_choice(None, true, "auto.jsonl".into(), true), None);
    assert_eq!(
        cursor_track_choice(None, false, "auto.jsonl".into(), true),
        s("auto.jsonl")
    );
    assert_eq!(cursor_track_choice(None, false, "auto.jsonl".into(), false), None);
}

#[test]
fn cue_tracks_resolve_against_the_cue_file_folder() {
    assert_eq!(
        resolve_cue_track("/work/demo/cues.json", "raw.cursor.jsonl"),
        "/work/demo/raw.cursor.jsonl"
    );
    assert_eq!(
        resolve_cue_track("/work/demo/cues.json", "/tmp/track.jsonl"),
        "/tmp/track.jsonl"
    );
    assert_eq!(resolve_cue_track("cues.json", "track.jsonl"), "track.jsonl");
    assert_eq!(resolve_cue_track("/", "track.jsonl"), "track.jsonl");
}
