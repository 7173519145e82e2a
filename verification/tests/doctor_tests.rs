use appreels::doctor::report;

#[test]
fn ok_requires_ffmpeg_and_xdotool() {
    let all = report("0.1.0", |_| true);
    assert!(all.ok);
    let none = report("0.1.0", |_| false);
    assert!(!none.ok);
    assert!(!none.warnings.is_empty());
    let partial = report("0.1.0", |t| t == "ffmpeg"); // missing xdotool
    assert!(!partial.ok);
}

#[test]
fn probes_ffprobe() {
    let r = report("0.1.0", |_| true);
    assert!(r.tools.iter().any(|t| t.name == "ffprobe"));
}

#[test]
fn warnings_name_each_missing_tool_in_order() {
    let r = report("9.9.9", |t| t == "ffmpeg" || t == "xdotool" || t == "wmctrl");
    assert!(r.ok);
    assert_eq!(r.version, "9.9.9");
    assert_eq!(
        r.warnings,
        vec![
            "ffprobe not found on PATH: video probing for render",
            "obs-cmd not found on PATH: OBS live-scene capture (optional)"
        ]
    );
    let names: Vec<&str> = r.tools.iter().map(|t| t.name.as_str()).collect();
    assert_eq!(names, vec!["ffmpeg", "ffprobe", "xdotool", "wmctrl", "obs-cmd"]);
    assert!(report("0.1.0", |_| true).warnings.is_empty());
}
