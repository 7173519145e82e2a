use appreels::perform::{
    activate_window_args, close_window_args, first_window_id, perform_plan,
    terminal_launch_command, type_into_terminal_args, unique_terminal_title, TerminalAction,
};
use appreels::terminal::{TerminalDemo, TerminalFocus, TerminalStep};

fn demo(steps: Vec<TerminalStep>) -> TerminalDemo {
    TerminalDemo {
        title: None,
        cwd: None,
        shell: None,
        cols: None,
        rows: Some(30),
        startup_ms: None,
        tail_ms: None,
        type_delay_ms: None,
        settle_ms: Some(100),
        title_card_ms: None,
        outro_card_ms: None,
        outro: None,
        steps,
    }
}

#[test]
fn xdotool_arguments_for_window_and_typing() {
    assert_eq!(activate_window_args("77"), vec!["windowactivate", "--sync", "77"]);
    assert_eq!(close_window_args("77"), vec!["windowclose", "77"]);
    assert_eq!(
        type_into_terminal_args("ls -la", 28),
        vec!["type", "--clearmodifiers", "--delay", "28", "--", "ls -la"]
    );
}

#[test]
fn window_id_is_the_trimmed_first_line() {
    assert_eq!(first_window_id(" 123 \n456\n").as_deref(), Some("123"));
    assert_eq!(first_window_id("   \n456\n"), None);
    assert_eq!(first_window_id(""), None);
}

#[test]
fn terminal_titles_are_unique_per_run() {
    assert_eq!(
        unique_terminal_title("Demo", 12, 1700000000000),
        "Demo - appreels-12-1700000000000"
    );
}

#[test]
fn launch_prefers_gnome_terminal_then_xfce() {
    let d = demo(vec![]);
    let g = terminal_launch_command(&d, "T", "/home", true, true).unwrap();
    assert_eq!(g.program, "gnome-terminal");
    assert_eq!(
        g.args,
        vec![
            "--hide-menubar",
            "--geometry=100x30",
            "--title=T",
            "--working-directory=/home",
            "--",
            "bash",
            "-lc",
            "bash --noprofile --norc"
        ]
    );
    let mut d2 = demo(vec![]);
    d2.cwd = Some("/work".into());
    d2.shell = Some("zsh".into());
    let x = terminal_launch_command(&d2, "T", "/home", false, true).unwrap();
    assert_eq!(x.program, "xfce4-terminal");
    assert_eq!(x.args[8], "100x30");
    assert_eq!(x.args[10], "/work");
    assert_eq!(x.args.last().unwrap(), "zsh");
    assert_eq!(x.args.len(), 20);
    assert!(terminal_launch_command(&d2, "T", "/home", false, false).is_none());
}

fn describe(plan: &[TerminalAction]) -> Vec<String> {
    plan.iter()
        .map(|a| match a {
            TerminalAction::Xdotool(args) => args.join(" "),
            TerminalAction::Sleep(ms) => format!("sleep {ms}"),
        })
        .collect()
}

#[test]
fn perform_plan_acts_out_each_step() {
    let d = demo(vec![
        TerminalStep::Caption {
            text: "Hi".into(),
            duration_ms: None,
            focus: None,
        },
        TerminalStep::Run {
            command: "ls".into(),
            ms_per_char: Some(5),
            wait_ms: Some(300),
            caption: None,
            focus: None,
        },
        TerminalStep::Key {
            chord: "ctrl+l".into(),
            caption: None,
            hold_ms: None,
            focus: Some(TerminalFocus::Input),
        },
        TerminalStep::Type {
            text: "x".into(),
            ms_per_char: None,
            caption: None,
            focus: None,
        },
        TerminalStep::Wait {
            ms: 42,
            caption: None,
            focus: None,
        },
        TerminalStep::Zoom {
            focus: TerminalFocus::Center,
            scale: None,
            duration_ms: None,
        },
    ]);
    assert_eq!(
        describe(&perform_plan(&d, "9")),
        vec![
            "windowactivate --sync 9",
            "sleep 1400",
            "type --clearmodifiers --delay 5 -- ls",
            "key --clearmodifiers Return",
            "sleep 400",
            "key --clearmodifiers ctrl+l",
            "sleep 450",
            "type --clearmodifiers --delay 28 -- x",
            "sleep 100",
            "sleep 42",
            "sleep 1200",
            "sleep 700",
        ]
    );
}
