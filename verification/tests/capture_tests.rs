use appreels::capture::{
    cursor_sample_line, parse_mouse_location, parse_xdotool_geometry, resolve_window,
    resolve_window_id, x11grab_args, CaptureError, Region,
};

#[test]
fn parses_xdotool_shell_geometry() {
    let output = "WINDOW=12345\nX=100\nY=64\nWIDTH=1280\nHEIGHT=720\nSCREEN=0\n";
    let region = parse_xdotool_geometry(output).expect("geometry");
    assert_eq!(
        region,
        Region {
            x: 100,
            y: 64,
            width: 1280,
            height: 720
        }
    );
}

#[test]
fn rejects_incomplete_geometry() {
    assert!(parse_xdotool_geometry("X=1\nY=2\n").is_none());
}

#[test]
fn parses_mouse_location_shell() {
    let out = "X=512\nY=384\nSCREEN=0\nWINDOW=12345\n";
    assert_eq!(parse_mouse_location(out), Some((512, 384)));
}

#[test]
fn rejects_incomplete_mouse_location() {
    assert!(parse_mouse_location("X=1\n").is_none());
}

#[test]
fn x11grab_args_include_geometry_and_input() {
    let region = Region {
        x: 10,
        y: 20,
        width: 640,
        height: 480,
    };
    let seconds = format!("{:.3}", 2.5f64);
    let args = x11grab_args(":1", region, 30, &seconds, "/tmp/out.mp4");
    assert!(args.windows(2).any(|w| w == ["-f", "x11grab"]));
    assert!(args.windows(2).any(|w| w == ["-video_size", "640x480"]));
    assert!(args.windows(2).any(|w| w == ["-i", ":1+10,20"]));
    assert!(args.windows(2).any(|w| w == ["-t", "2.500"]));
    assert!(args.windows(2).any(|w| w == ["-framerate", "30"]));
    assert!(
        args.windows(2)
            .any(|w| w == ["-vf", "pad=ceil(iw/2)*2:ceil(ih/2)*2"])
    );
    assert_eq!(args.last().unwrap(), "/tmp/out.mp4");
}

#[test]
fn x11grab_args_write_negative_origins() {
    let region = Region {
        x: -5,
        y: -2147483648,
        width: 1,
        height: 2,
    };
    let args = x11grab_args(":0", region, 0, "1.000", "o.mp4");
    assert_eq!(args[8], "1x2");
    assert_eq!(args[10], ":0+-5,-2147483648");
    assert_eq!(args[6], "0");
    assert_eq!(args.len(), 22);
}

#[test]
fn geometry_keeps_the_last_readable_line_per_key() {
    let out = " X = 7 \r\nX=8\nY=+9\nWIDTH=10\nHEIGHT=11\nnoise\n";
    assert_eq!(
        parse_xdotool_geometry(out),
        Some(Region {
            x: 8,
            y: 9,
            width: 10,
            height: 11
        })
    );
    // A later unreadable value for a key wins over an earlier readable one.
    assert_eq!(
        parse_xdotool_geometry("X=1\nY=2\nWIDTH=3\nHEIGHT=4\nX=oops\n"),
        None
    );
}

#[test]
fn geometry_rejects_out_of_range_and_negative_sizes() {
    assert_eq!(
        parse_xdotool_geometry("X=2147483648\nY=0\nWIDTH=1\nHEIGHT=1\n"),
        None
    );
    assert_eq!(
        parse_xdotool_geometry("X=-2147483648\nY=0\nWIDTH=4294967295\nHEIGHT=1\n"),
        Some(Region {
            x: -2147483648,
            y: 0,
            width: 4294967295,
            height: 1
        })
    );
    assert_eq!(parse_xdotool_geometry("X=0\nY=0\nWIDTH=-1\nHEIGHT=1\n"), None);
}

#[test]
fn mouse_location_trims_keys_and_values_and_handles_crlf() {
    assert_eq!(parse_mouse_location("  X =  -3\r\n Y= 4\t\r\n"), Some((-3, 4)));
    assert_eq!(parse_mouse_location(""), None);
}

#[test]
fn resolve_window_takes_first_line_of_search_output() {
    let id = resolve_window("Firefox", "\n  12345\n67890\n").expect("id");
    assert_eq!(id, "12345");
    match resolve_window("Firefox", "  \n ") {
        Err(CaptureError::WindowNotFound(t)) => assert_eq!(t, "Firefox"),
        other => panic!("unexpected {:?}", other),
    }
}

#[test]
fn resolve_window_id_reads_geometry_or_reports_the_id() {
    let r = resolve_window_id("42", "WINDOW=42\nX=1\nY=2\nWIDTH=30\nHEIGHT=40\n").expect("geom");
    assert_eq!(
        r,
        Region {
            x: 1,
            y: 2,
            width: 30,
            height: 40
        }
    );
    match resolve_window_id("42", "X=1\n") {
        Err(CaptureError::WindowNotFound(t)) => assert_eq!(t, "42"),
        other => panic!("unexpected {:?}", other),
    }
}

#[test]
fn cursor_lines_are_relative_to_the_region() {
    let region = Region {
        x: 100,
        y: 50,
        width: 640,
        height: 480,
    };
    assert_eq!(
        cursor_sample_line(16, 120, 90, region).as_deref(),
        Some("{\"tMs\":16,\"x\":20,\"y\":40}")
    );
    assert_eq!(
        cursor_sample_line(0, 100, 50, region).as_deref(),
        Some("{\"tMs\":0,\"x\":0,\"y\":0}")
    );
}

#[test]
fn cursor_samples_outside_the_region_are_dropped() {
    let region = Region {
        x: 10,
        y: 10,
        width: 100,
        height: 100,
    };
    assert_eq!(cursor_sample_line(16, 5, 5, region), None);
    assert_eq!(cursor_sample_line(16, 110, 50, region), None); // right edge is exclusive
    assert_eq!(cursor_sample_line(16, 50, 110, region), None);
    assert!(cursor_sample_line(16, 109, 109, region).is_some());
    assert_eq!(cursor_sample_line(16, i32::MIN, i32::MAX, Region { x: i32::MAX, y: i32::MIN, width: 1, height: 1 }), None);
}

#[test]
fn geometry_ignores_lines_with_other_keys() {
    let base = "X=10\nY=20\nWIDTH=300\nHEIGHT=200\n";
    let noisy = "X=10\nSCREEN=0\nY=20\nnot a field\nWIDTH=300\nWINDOW=77\nHEIGHT=200\n";
    assert_eq!(parse_xdotool_geometry(base), parse_xdotool_geometry(noisy));
    assert!(parse_xdotool_geometry(base).is_some());
}
