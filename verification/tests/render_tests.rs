use appreels::render::{
    caption_at, decode_args, encode_args, ffprobe_args, parse_ffprobe_fields, zoom_index_at,
    zooms_overlap, Caption,
};

#[test]
fn decode_args_emit_rawvideo_rgba() {
    let args = decode_args("in.mp4");
    assert!(args.windows(2).any(|w| w == ["-i", "in.mp4"]));
    assert!(args.windows(2).any(|w| w == ["-pix_fmt", "rgba"]));
    assert!(args.windows(2).any(|w| w == ["-f", "rawvideo"]));
    assert_eq!(args.last().unwrap(), "-");
}

#[test]
fn encode_args_set_size_fps_and_even_pad() {
    let fps = format!("{:.5}", 30.0f64);
    let args = encode_args(412, 333, &fps, "out.mp4");
    assert!(args.windows(2).any(|w| w == ["-s", "412x333"]));
    assert!(args.windows(2).any(|w| w == ["-r", "30.00000"]));
    assert!(
        args.windows(2)
            .any(|w| w == ["-vf", "pad=ceil(iw/2)*2:ceil(ih/2)*2"])
    );
    assert!(args.windows(2).any(|w| w == ["-pix_fmt", "yuv420p"]));
    assert_eq!(args.last().unwrap(), "out.mp4");
}

#[test]
fn ffprobe_args_select_the_first_video_stream() {
    let args = ffprobe_args("clip.mp4");
    assert_eq!(
        args,
        vec![
            "-v",
            "error",
            "-select_streams",
            "v:0",
            "-show_entries",
            "stream=width,height,r_frame_rate",
            "-of",
            "default=noprint_wrappers=1",
            "clip.mp4"
        ]
    );
}

#[test]
fn ffprobe_fields_read_width_height_and_rate_text() {
    let (w, h, rate) =
        parse_ffprobe_fields("width=1280\nheight=720\nr_frame_rate=30/1\n").expect("info");
    assert_eq!((w, h), (1280, 720));
    assert_eq!(rate, "30/1");
    let (_, _, rate) =
        parse_ffprobe_fields("width=640\nheight=480\nr_frame_rate= 30000/1001 \n").expect("info");
    assert_eq!(rate, "30000/1001");
}

#[test]
fn ffprobe_fields_reject_missing_fields() {
    assert!(parse_ffprobe_fields("width=640\n").is_none());
    assert!(parse_ffprobe_fields("width=640\nheight=x\nr_frame_rate=25\n").is_none());
}

fn cap(start_ms: u32, end_ms: u32, text: &str) -> Caption {
    Caption {
        start_ms,
        end_ms,
        text: text.to_string(),
    }
}

#[test]
fn caption_at_selects_the_active_caption() {
    let caps = vec![cap(0, 1000, "a"), cap(1000, 2000, "b")];
    assert_eq!(caption_at(&caps, 500).unwrap().text, "a");
    assert_eq!(caption_at(&caps, 1000).unwrap().text, "b"); // end is exclusive
    assert!(caption_at(&caps, 5000).is_none());
}

#[test]
fn caption_at_prefers_the_first_of_overlapping_captions() {
    let caps = vec![cap(0, 3000, "first"), cap(1000, 2000, "second")];
    assert_eq!(caption_at(&caps, 1500).unwrap().text, "first");
    assert!(caption_at(&[], 0).is_none());
    assert!(caption_at(&[cap(5, 5, "empty")], 5).is_none());
}

#[test]
fn zoom_index_at_lets_the_last_overlapping_cue_win() {
    let spans = vec![(0u32, 3000u32), (1000, 2000), (2500, 4000)];
    assert_eq!(zoom_index_at(&spans, 500), Some(0));
    assert_eq!(zoom_index_at(&spans, 1500), Some(1));
    assert_eq!(zoom_index_at(&spans, 2000), Some(0)); // end is exclusive
    assert_eq!(zoom_index_at(&spans, 2600), Some(2));
    assert_eq!(zoom_index_at(&spans, 4000), None);
    assert_eq!(zoom_index_at(&[], 0), None);
}

#[test]
fn zooms_overlap_only_when_spans_share_a_millisecond() {
    assert!(!zooms_overlap(&[]));
    assert!(!zooms_overlap(&[(0, 1000), (1000, 2000)])); // ends are exclusive
    assert!(zooms_overlap(&[(0, 1000), (2000, 3000), (999, 1500)]));
    assert!(!zooms_overlap(&[(500, 500), (0, 1000)])); // an empty span covers nothing
}
