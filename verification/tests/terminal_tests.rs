use appreels::render::Caption;
use appreels::terminal::{
    add_caption, add_focus_zoom, type_duration_ms, FocusZoom, TerminalDemo, TerminalFocus,
    TerminalStep, TerminalTimeline, ZoomScale,
};

fn demo(title: Option<&str>, steps: Vec<TerminalStep>) -> TerminalDemo {
    TerminalDemo {
        title: title.map(|t| t.to_string()),
        cwd: None,
        shell: None,
        cols: None,
        rows: None,
        startup_ms: Some(100),
        tail_ms: Some(200),
        type_delay_ms: None,
        settle_ms: None,
        title_card_ms: None,
        outro_card_ms: None,
        outro: None,
        steps,
    }
}

#[test]
fn parses_terminal_demo_script() {
    let mut d = demo(
        Some("Terminal showcase"),
        vec![
            TerminalStep::Caption {
                text: "Start".into(),
                duration_ms: Some(500),
                focus: None,
            },
            TerminalStep::Run {
                command: "echo hello".into(),
                ms_per_char: None,
                wait_ms: Some(700),
                caption: Some("Run it".into()),
                focus: None,
            },
            TerminalStep::Wait {
                ms: 900,
                caption: Some("Generating".into()),
                focus: Some(TerminalFocus::Output),
            },
        ],
    );
    d.type_delay_ms = Some(10);
    assert_eq!(d.title(1), "Terminal showcase");
    assert_eq!(d.steps.len(), 3);
    assert!(d.estimated_source_ms() >= 2400);
    // 100 + (500+250) + (10*10+700+250) + 900 + 200
    assert_eq!(d.estimated_source_ms(), 3000);
}

#[test]
fn terminal_script_generates_captions_and_zooms() {
    let d = demo(
        Some("Terminal showcase"),
        vec![
            TerminalStep::Type {
                text: "cargo run".into(),
                ms_per_char: None,
                caption: Some("Type the command".into()),
                focus: None,
            },
            TerminalStep::Wait {
                ms: 1000,
                caption: Some("Watch output stream in".into()),
                focus: Some(TerminalFocus::Output),
            },
        ],
    );
    let timeline = d.to_timeline(1);
    assert_eq!(timeline.title_card.unwrap().text, "Terminal showcase");
    assert_eq!(timeline.captions.len(), 2);
    assert_eq!(timeline.zooms.len(), 2);
    // The typing zoom looks at the input line, below the output zoom's focus.
    assert_eq!(timeline.zooms[0].focus, TerminalFocus::Input);
    assert_eq!(timeline.zooms[1].focus, TerminalFocus::Output);
}

#[test]
fn timeline_cues_follow_the_steps() {
    let d = demo(
        None,
        vec![
            TerminalStep::Type {
                text: "cargo run".into(),
                ms_per_char: None,
                caption: Some("Type the command".into()),
                focus: None,
            },
            TerminalStep::Run {
                command: "ls".into(),
                ms_per_char: Some(5),
                wait_ms: None,
                caption: None,
                focus: Some(TerminalFocus::Full),
            },
            TerminalStep::Zoom {
                focus: TerminalFocus::Coord {
                    x: 10.5f64.to_bits(),
                    y: 3.0f64.to_bits(),
                },
                scale: Some(1.5f64.to_bits()),
                duration_ms: None,
            },
        ],
    );
    let tl = d.to_timeline(4242);
    assert_eq!(tl.title_card.as_ref().unwrap().text, "appreels-terminal-4242");
    assert_eq!(tl.title_card.as_ref().unwrap().ms, 900);
    assert!(tl.outro_card.is_none());
    // Type: 9 chars * 28 ms + 250 settle = 502 ms, from 100.
    assert_eq!(
        tl.captions,
        vec![Caption {
            start_ms: 100,
            end_ms: 602,
            text: "Type the command".into()
        }]
    );
    assert_eq!(
        tl.zooms,
        vec![
            FocusZoom {
                start_ms: 100,
                end_ms: 602,
                focus: TerminalFocus::Input,
                scale: ZoomScale::Hundredths(122)
            },
            // Run: typing 2*5=10 ms + settle 250 zooms on the input; the
            // output zoom is toward the whole window and so dropped.
            FocusZoom {
                start_ms: 602,
                end_ms: 862,
                focus: TerminalFocus::Input,
                scale: ZoomScale::Hundredths(122)
            },
            // Zoom starts after 10 + 1800 + 250 more.
            FocusZoom {
                start_ms: 2662,
                end_ms: 3862,
                focus: TerminalFocus::Coord {
                    x: 10.5f64.to_bits(),
                    y: 3.0f64.to_bits()
                },
                scale: ZoomScale::Bits(1.5f64.to_bits())
            },
        ]
    );
    assert_eq!(d.estimated_source_ms(), 100 + 502 + 2060 + 1200 + 200);
}

#[test]
fn outro_card_uses_the_script_duration() {
    let mut d = demo(Some("T"), vec![]);
    d.outro = Some("Thanks".into());
    d.outro_card_ms = Some(1234);
    let tl = d.to_timeline(0);
    let outro = tl.outro_card.unwrap();
    assert_eq!((outro.text.as_str(), outro.ms), ("Thanks", 1234));
    assert!(tl.captions.is_empty() && tl.zooms.is_empty());
}

#[test]
fn typing_takes_at_least_one_delay_and_saturates() {
    assert_eq!(type_duration_ms("", 28), 28);
    assert_eq!(type_duration_ms("héllo", 10), 50);
    assert_eq!(type_duration_ms("ab", u32::MAX), u32::MAX);
}

fn empty_timeline() -> TerminalTimeline {
    TerminalTimeline {
        title_card: None,
        outro_card: None,
        captions: vec![],
        zooms: vec![],
    }
}

#[test]
fn blank_captions_and_full_window_zooms_are_skipped() {
    let mut tl = empty_timeline();
    add_caption(&mut tl, 0, 100, "  \t");
    add_caption(&mut tl, 0, 0, "text");
    add_caption(&mut tl, u32::MAX - 1, 10, "late");
    assert_eq!(tl.captions.len(), 1);
    assert_eq!(tl.captions[0].end_ms, u32::MAX);
    add_focus_zoom(&mut tl, 5, 10, Some(TerminalFocus::Full), ZoomScale::Hundredths(116));
    add_focus_zoom(&mut tl, 5, 10, None, ZoomScale::Hundredths(116));
    add_focus_zoom(&mut tl, 5, 0, Some(TerminalFocus::Center), ZoomScale::Hundredths(116));
    assert!(tl.zooms.is_empty());
    add_focus_zoom(&mut tl, 5, 10, Some(TerminalFocus::Center), ZoomScale::Hundredths(116));
    assert_eq!(tl.zooms[0].end_ms, 15);
}

#[test]
fn overlong_scripts_are_recognized_before_timing() {
    let d = demo(
        None,
        vec![TerminalStep::Wait {
            ms: u32::MAX - 100,
            caption: None,
            focus: None,
        }],
    );
    // 100 startup + (MAX - 100) fits; the 200 ms tail does not.
    assert!(d.steps_fit());
    assert!(!d.timing_fits());
    let d2 = demo(
        None,
        vec![
            TerminalStep::Wait {
                ms: u32::MAX,
                caption: None,
                focus: None,
            },
            TerminalStep::Wait {
                ms: 1,
                caption: None,
                focus: None,
            },
        ],
    );
    assert!(!d2.steps_fit());
    assert!(demo(None, vec![]).timing_fits());
}
