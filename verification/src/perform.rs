//! Replaying a terminal demo: the command that opens the terminal window,
//! recognizing that window, and the xdotool keystrokes and pauses that act
//! out each step.

use vstd::prelude::*;

use crate::number::{decimal, push_decimal};
use crate::terminal::{
    or_default, settle_of, step_ms, steps_fit, tail_of, type_delay_of, type_duration, TerminalDemo,
    TerminalStep,
};
use crate::text::{chars_of, lines, split_lines, trim, trim_chars};

verus! {

/// xdotool's arguments that raise and focus `window_id`, waiting until it is.
pub fn activate_window_args(window_id: &str) -> (args: Vec<String>)
    ensures
        args.deep_view() == seq!["windowactivate"@, "--sync"@, window_id@],
{
    let mut args: Vec<String> = Vec::new();
    args.push(String::from_str("windowactivate"));
    args.push(String::from_str("--sync"));
    args.push(String::from_str(window_id));
    assert(args.deep_view() =~= seq!["windowactivate"@, "--sync"@, window_id@]);
    args
}

/// xdotool's arguments that close `window_id`.
pub fn close_window_args(window_id: &str) -> (args: Vec<String>)
    ensures
        args.deep_view() == seq!["windowclose"@, window_id@],
{
    let mut args: Vec<String> = Vec::new();
    args.push(String::from_str("windowclose"));
    args.push(String::from_str(window_id));
    assert(args.deep_view() =~= seq!["windowclose"@, window_id@]);
    args
}

/// xdotool's arguments that type `text` at `ms_per_char` milliseconds per
/// character.
pub open spec fn type_args_spec(text: Seq<char>, ms_per_char: u32) -> Seq<Seq<char>> {
    seq!["type"@, "--clearmodifiers"@, "--delay"@, decimal(ms_per_char as nat), "--"@, text]
}

/// xdotool's arguments that type `text` into the focused terminal.
pub fn type_into_terminal_args(text: &str, ms_per_char: u32) -> (args: Vec<String>)
    ensures
        args.deep_view() == type_args_spec(text@, ms_per_char),
{
    let mut args: Vec<String> = Vec::new();
    args.push(String::from_str("type"));
    args.push(String::from_str("--clearmodifiers"));
    args.push(String::from_str("--delay"));
    let mut delay = String::new();
    push_decimal(&mut delay, ms_per_char as u64);
    assert(delay@ =~= decimal(ms_per_char as nat));
    args.push(delay);
    args.push(String::from_str("--"));
    args.push(String::from_str(text));
    assert(args.deep_view() =~= type_args_spec(text@, ms_per_char));
    args
}

/// xdotool's arguments that press the key chord `chord`.
pub fn key_args(chord: &str) -> (args: Vec<String>)
    ensures
        args.deep_view() == seq!["key"@, "--clearmodifiers"@, chord@],
{
    let mut args: Vec<String> = Vec::new();
    args.push(String::from_str("key"));
    args.push(String::from_str("--clearmodifiers"));
    args.push(String::from_str(chord));
    assert(args.deep_view() =~= seq!["key"@, "--clearmodifiers"@, chord@]);
    args
}

/// The window id in `xdotool search --name` output: its first line, trimmed,
/// unless that line is blank or there is none.
pub fn first_window_id(search_output: &str) -> (r: Option<String>)
    ensures
        match r {
            Some(id) => lines(search_output@).len() > 0 && trim(lines(search_output@)[0]).len()
                > 0 && id@ == trim(lines(search_output@)[0]),
            None => lines(search_output@).len() == 0 || trim(lines(search_output@)[0]).len() == 0,
        },
{
    let chars = chars_of(search_output);
    let ls = split_lines(chars.as_slice());
    if ls.len() == 0 {
        return None;
    }
    assert(ls.deep_view()[0] =~= ls@[0]@);
    let id = trim_chars(ls[0].as_slice());
    if id.len() == 0 {
        return None;
    }
    let mut s = String::new();
    let mut i: usize = 0;
    while i < id.len()
        invariant
            i <= id@.len(),
            s@ == id@.take(i as int),
        decreases id.len() - i,
    {
        crate::number::push_char(&mut s, id[i]);
        assert(id@.take(i + 1) =~= id@.take(i as int).push(id@[i as int]));
        i = i + 1;
    }
    assert(id@.take(id@.len() as int) =~= id@);
    Some(s)
}

/// The title a launched terminal gets, unique to this run:
/// `<base> - appreels-<pid>-<stamp>`.
pub fn unique_terminal_title(base: &str, pid: u32, stamp_ms: u64) -> (t: String)
    ensures
        t@ == base@ + " - appreels-"@ + decimal(pid as nat) + "-"@ + decimal(stamp_ms as nat),
{
    let mut t = String::from_str(base);
    t.append(" - appreels-");
    push_decimal(&mut t, pid as u64);
    t.append("-");
    push_decimal(&mut t, stamp_ms);
    assert(t@ =~= base@ + " - appreels-"@ + decimal(pid as nat) + "-"@ + decimal(stamp_ms as nat));
    t
}

/// A program to start and its arguments.
#[derive(Debug)]
pub struct LaunchCommand {
    pub program: String,
    pub args: Vec<String>,
}

/// The shell a demo's terminal runs.
pub open spec fn shell_of(demo: TerminalDemo) -> Seq<char> {
    match demo.shell {
        Some(s) => s@,
        None => "bash --noprofile --norc"@,
    }
}

/// The terminal's size in characters, as `<cols>x<rows>`.
pub open spec fn geometry_of(demo: TerminalDemo) -> Seq<char> {
    decimal(or_default(demo.cols, 100) as nat) + seq!['x'] + decimal(
        or_default(demo.rows, 28) as nat,
    )
}

/// The directory the terminal starts in.
pub open spec fn cwd_of(demo: TerminalDemo, current_dir: Seq<char>) -> Seq<char> {
    match demo.cwd {
        Some(c) => c@,
        None => current_dir,
    }
}

/// gnome-terminal's arguments.
pub open spec fn gnome_args(demo: TerminalDemo, title: Seq<char>, current_dir: Seq<char>) -> Seq<
    Seq<char>,
> {
    seq![
        "--hide-menubar"@,
        "--geometry="@ + geometry_of(demo),
        "--title="@ + title,
        "--working-directory="@ + cwd_of(demo, current_dir),
        "--"@,
        "bash"@,
        "-lc"@,
        shell_of(demo),
    ]
}

/// xfce4-terminal's arguments.
pub open spec fn xfce_args(demo: TerminalDemo, title: Seq<char>, current_dir: Seq<char>) -> Seq<
    Seq<char>,
> {
    seq![
        "--disable-server"@,
        "--title"@,
        title,
        "--initial-title"@,
        title,
        "--dynamic-title-mode"@,
        "none"@,
        "--geometry"@,
        geometry_of(demo),
        "--working-directory"@,
        cwd_of(demo, current_dir),
        "--hide-menubar"@,
        "--hide-toolbar"@,
        "--hide-scrollbar"@,
        "--color-bg"@,
        "#000000"@,
        "--color-text"@,
        "#f2f2f2"@,
        "--command"@,
        shell_of(demo),
    ]
}

fn geometry_text(demo: &TerminalDemo) -> (g: String)
    ensures
        g@ == geometry_of(*demo),
{
    let cols = match demo.cols {
        Some(v) => v,
        None => 100,
    };
    let rows = match demo.rows {
        Some(v) => v,
        None => 28,
    };
    let mut g = String::new();
    push_decimal(&mut g, cols as u64);
    crate::number::push_char(&mut g, 'x');
    push_decimal(&mut g, rows as u64);
    assert(g@ =~= geometry_of(*demo));
    g
}

fn prefixed(prefix: &str, s: &str) -> (r: String)
    ensures
        r@ == prefix@ + s@,
{
    let mut r = String::from_str(prefix);
    r.append(s);
    r
}

/// The command that opens the demo's terminal window titled `title`:
/// gnome-terminal when it is installed, else xfce4-terminal, else none. The
/// terminal starts in the script's directory, or in `current_dir`, and runs
/// the script's shell (`bash --noprofile --norc` by default) at its size
/// (100×28 by default).
pub fn terminal_launch_command(
    demo: &TerminalDemo,
    title: &str,
    current_dir: &str,
    has_gnome_terminal: bool,
    has_xfce4_terminal: bool,
) -> (r: Option<LaunchCommand>)
    ensures
        match r {
            Some(cmd) => if has_gnome_terminal {
                cmd.program@ == "gnome-terminal"@ && cmd.args.deep_view() == gnome_args(
                    *demo,
                    title@,
                    current_dir@,
                )
            } else {
                has_xfce4_terminal && cmd.program@ == "xfce4-terminal"@ && cmd.args.deep_view()
                    == xfce_args(*demo, title@, current_dir@)
            },
            None => !has_gnome_terminal && !has_xfce4_terminal,
        },
{
    let shell = match &demo.shell {
        Some(s) => s.clone(),
        None => String::from_str("bash --noprofile --norc"),
    };
    let cwd = match &demo.cwd {
        Some(c) => c.clone(),
        None => String::from_str(current_dir),
    };
    let geometry = geometry_text(demo);
    if has_gnome_terminal {
        let mut args: Vec<String> = Vec::new();
        args.push(String::from_str("--hide-menubar"));
        args.push(prefixed("--geometry=", geometry.as_str()));
        args.push(prefixed("--title=", title));
        args.push(prefixed("--working-directory=", cwd.as_str()));
        args.push(String::from_str("--"));
        args.push(String::from_str("bash"));
        args.push(String::from_str("-lc"));
        args.push(shell);
        assert(args.deep_view() =~= gnome_args(*demo, title@, current_dir@));
        Some(LaunchCommand { program: String::from_str("gnome-terminal"), args })
    } else if has_xfce4_terminal {
        let mut args: Vec<String> = Vec::new();
        args.push(String::from_str("--disable-server"));
        args.push(String::from_str("--title"));
        args.push(String::from_str(title));
        args.push(String::from_str("--initial-title"));
        args.push(String::from_str(title));
        args.push(String::from_str("--dynamic-title-mode"));
        args.push(String::from_str("none"));
        args.push(String::from_str("--geometry"));
        args.push(geometry);
        args.push(String::from_str("--working-directory"));
        args.push(cwd);
        args.push(String::from_str("--hide-menubar"));
        args.push(String::from_str("--hide-toolbar"));
        args.push(String::from_str("--hide-scrollbar"));
        args.push(String::from_str("--color-bg"));
        args.push(String::from_str("#000000"));
        args.push(String::from_str("--color-text"));
        args.push(String::from_str("#f2f2f2"));
        args.push(String::from_str("--command"));
        args.push(shell);
        assert(args.deep_view() =~= xfce_args(*demo, title@, current_dir@));
        Some(LaunchCommand { program: String::from_str("xfce4-terminal"), args })
    } else {
        None
    }
}

/// Whichever terminal opens the demo, it starts in the same directory: the
/// script's `cwd` when it gives one, the current directory otherwise.
/// gnome-terminal is handed it as `--working-directory=<dir>` (its fourth
/// argument), xfce4-terminal as the argument after `--working-directory` (its
/// eleventh).
pub proof fn law_terminal_starts_in_script_directory(
    demo: TerminalDemo,
    title: Seq<char>,
    current_dir: Seq<char>,
)
    ensures
        gnome_args(demo, title, current_dir)[3] == "--working-directory="@ + (match demo.cwd {
            Some(c) => c@,
            None => current_dir,
        }),
        xfce_args(demo, title, current_dir)[9] == "--working-directory"@,
        xfce_args(demo, title, current_dir)[10] == (match demo.cwd {
            Some(c) => c@,
            None => current_dir,
        }),
        gnome_args(demo, title, current_dir)[3] == "--working-directory="@ + xfce_args(
            demo,
            title,
            current_dir,
        )[10],
{
}

/// One thing to do while replaying a demo: run xdotool with arguments, or
/// wait.
#[derive(Debug)]
pub enum TerminalAction {
    Xdotool(Vec<String>),
    Sleep(u64),
}

/// The plain value of an action.
pub enum ActionView {
    Xdotool(Seq<Seq<char>>),
    Sleep(int),
}

impl View for TerminalAction {
    type V = ActionView;

    open spec fn view(&self) -> ActionView {
        match self {
            TerminalAction::Xdotool(args) => ActionView::Xdotool(args.deep_view()),
            TerminalAction::Sleep(ms) => ActionView::Sleep(*ms as int),
        }
    }
}

/// The actions that act out one step: typing, the Return that runs a
/// command, a key chord, and the pauses that let the terminal settle.
pub open spec fn step_actions(step: TerminalStep, demo: TerminalDemo) -> Seq<ActionView> {
    match step {
        TerminalStep::Caption { duration_ms, .. } => seq![
            ActionView::Sleep(or_default(duration_ms, 1400) as int),
        ],
        TerminalStep::Type { text, ms_per_char, .. } => seq![
            ActionView::Xdotool(
                type_args_spec(text@, or_default(ms_per_char, type_delay_of(demo))),
            ),
            ActionView::Sleep(settle_of(demo) as int),
        ],
        TerminalStep::Run { command, ms_per_char, wait_ms, .. } => seq![
            ActionView::Xdotool(
                type_args_spec(command@, or_default(ms_per_char, type_delay_of(demo))),
            ),
            ActionView::Xdotool(seq!["key"@, "--clearmodifiers"@, "Return"@]),
            ActionView::Sleep(or_default(wait_ms, 1800) + settle_of(demo)),
        ],
        TerminalStep::Key { chord, hold_ms, .. } => seq![
            ActionView::Xdotool(seq!["key"@, "--clearmodifiers"@, chord@]),
            ActionView::Sleep(or_default(hold_ms, 350) + settle_of(demo)),
        ],
        TerminalStep::Wait { ms, .. } => seq![ActionView::Sleep(ms as int)],
        TerminalStep::Zoom { duration_ms, .. } => seq![
            ActionView::Sleep(or_default(duration_ms, 1200) as int),
        ],
    }
}

/// The actions of the first `n` steps, in order.
pub open spec fn steps_actions(demo: TerminalDemo, n: nat) -> Seq<ActionView>
    decreases n,
{
    if n == 0 {
        Seq::empty()
    } else {
        steps_actions(demo, (n - 1) as nat) + step_actions(demo.steps@[n - 1], demo)
    }
}

/// The whole replay: focus the window, act out every step, then wait out the
/// tail.
pub open spec fn perform_plan_spec(demo: TerminalDemo, window_id: Seq<char>) -> Seq<ActionView> {
    seq![ActionView::Xdotool(seq!["windowactivate"@, "--sync"@, window_id])] + steps_actions(
        demo,
        demo.steps@.len(),
    ) + seq![ActionView::Sleep(tail_of(demo) as int)]
}

/// The pauses of a step fit in `u32` milliseconds (beyond that, replaying
/// it overflows).
pub open spec fn step_pauses_fit(step: TerminalStep, demo: TerminalDemo) -> bool {
    match step {
        TerminalStep::Run { wait_ms, .. } => or_default(wait_ms, 1800) + settle_of(demo)
            <= u32::MAX,
        TerminalStep::Key { hold_ms, .. } => or_default(hold_ms, 350) + settle_of(demo) <= u32::MAX,
        _ => true,
    }
}

/// Every step's pauses fit in `u32` milliseconds.
pub open spec fn pauses_fit(demo: TerminalDemo) -> bool {
    forall|i: int| 0 <= i < demo.steps@.len() ==> step_pauses_fit(#[trigger] demo.steps@[i], demo)
}

/// A demo whose steps fit in `u32` milliseconds has pauses that fit too.
pub proof fn lemma_steps_fit_pauses(demo: TerminalDemo)
    requires
        steps_fit(demo),
    ensures
        pauses_fit(demo),
{
    assert forall|i: int| 0 <= i < demo.steps@.len() implies step_pauses_fit(
        #[trigger] demo.steps@[i],
        demo,
    ) by {
        crate::terminal::lemma_step_fits(demo, i);
    }
}

/// How long a list of actions pauses in all: the sum of its sleeps.
pub open spec fn pause_total(actions: Seq<ActionView>) -> int
    decreases actions.len(),
{
    if actions.len() == 0 {
        0
    } else {
        pause_total(actions.drop_last()) + match actions.last() {
            ActionView::Sleep(ms) => ms,
            ActionView::Xdotool(_) => 0,
        }
    }
}

/// How long xdotool takes to type a step's text or command: its characters
/// at the step's per-character delay, or the demo's when it gives none.
pub open spec fn typing_ms(step: TerminalStep, demo: TerminalDemo) -> int {
    match step {
        TerminalStep::Type { text, ms_per_char, .. } => type_duration(
            text@.len(),
            match ms_per_char {
                Some(v) => v,
                None => type_delay_of(demo),
            },
        ) as int,
        TerminalStep::Run { command, ms_per_char, .. } => type_duration(
            command@.len(),
            match ms_per_char {
                Some(v) => v,
                None => type_delay_of(demo),
            },
        ) as int,
        _ => 0,
    }
}

/// Replaying a step keeps pace with the recording's timing of it: the
/// pauses of its replay plus its typing time add up to the time the step is
/// given in the timeline (`step_ms`, which `estimated_ms` returns and which
/// places every later cue). A caption step is the one exception: its replay
/// pauses for exactly its `durationMs` (1400 ms when none is given), without
/// the settle time the timeline adds after it.
pub proof fn law_replay_keeps_step_timing(step: TerminalStep, demo: TerminalDemo)
    ensures
        !(step is Caption) ==> pause_total(step_actions(step, demo)) + typing_ms(step, demo)
            == step_ms(step, demo),
        step matches TerminalStep::Caption { duration_ms, .. } ==> pause_total(
            step_actions(step, demo),
        ) == (match duration_ms {
            Some(d) => d,
            None => 1400,
        }) && pause_total(step_actions(step, demo)) + settle_of(demo) == step_ms(step, demo),
{
    let a = step_actions(step, demo);
    reveal_with_fuel(pause_total, 4);
    match step {
        TerminalStep::Run { .. } => {
            assert(a.drop_last().drop_last().drop_last() =~= Seq::<ActionView>::empty());
            assert(a.drop_last().drop_last().last() == a[0]);
            assert(a.drop_last().last() == a[1]);
        },
        TerminalStep::Type { .. } => {
            assert(a.drop_last().drop_last() =~= Seq::<ActionView>::empty());
            assert(a.drop_last().last() == a[0]);
        },
        TerminalStep::Key { .. } => {
            assert(a.drop_last().drop_last() =~= Seq::<ActionView>::empty());
            assert(a.drop_last().last() == a[0]);
        },
        _ => {
            assert(a.drop_last() =~= Seq::<ActionView>::empty());
        },
    }
}

/// The views of a list of actions.
pub open spec fn action_views(actions: Seq<TerminalAction>) -> Seq<ActionView> {
    actions.map_values(|a: TerminalAction| a@)
}

fn push_step_actions(actions: &mut Vec<TerminalAction>, step: &TerminalStep, demo: &TerminalDemo)
    requires
        step_pauses_fit(*step, *demo),
    ensures
        action_views(final(actions)@) == action_views(old(actions)@) + step_actions(*step, *demo),
{
    let ghost before = action_views(actions@);
    match step {
        TerminalStep::Caption { duration_ms, .. } => {
            let d = match duration_ms {
                Some(v) => *v,
                None => 1400,
            };
            actions.push(TerminalAction::Sleep(d as u64));
        },
        TerminalStep::Type { text, ms_per_char, .. } => {
            let mpc = match ms_per_char {
                Some(v) => *v,
                None => demo.type_delay_ms(),
            };
            actions.push(TerminalAction::Xdotool(type_into_terminal_args(text.as_str(), mpc)));
            actions.push(TerminalAction::Sleep(demo.settle_ms() as u64));
        },
        TerminalStep::Run { command, ms_per_char, wait_ms, .. } => {
            let mpc = match ms_per_char {
                Some(v) => *v,
                None => demo.type_delay_ms(),
            };
            let wait = match wait_ms {
                Some(v) => *v,
                None => 1800,
            };
            actions.push(TerminalAction::Xdotool(type_into_terminal_args(command.as_str(), mpc)));
            actions.push(TerminalAction::Xdotool(key_args("Return")));
            actions.push(TerminalAction::Sleep((wait + demo.settle_ms()) as u64));
        },
        TerminalStep::Key { chord, hold_ms, .. } => {
            let h = match hold_ms {
                Some(v) => *v,
                None => 350,
            };
            actions.push(TerminalAction::Xdotool(key_args(chord.as_str())));
            actions.push(TerminalAction::Sleep((h + demo.settle_ms()) as u64));
        },
        TerminalStep::Wait { ms, .. } => {
            actions.push(TerminalAction::Sleep(*ms as u64));
        },
        TerminalStep::Zoom { duration_ms, .. } => {
            let d = match duration_ms {
                Some(v) => *v,
                None => 1200,
            };
            actions.push(TerminalAction::Sleep(d as u64));
        },
    }
    assert(action_views(actions@) =~= before + step_actions(*step, *demo));
}

/// The xdotool calls and pauses that replay `demo` in window `window_id`, in
/// order; replaying stops at the first xdotool call that fails.
pub fn perform_plan(demo: &TerminalDemo, window_id: &str) -> (plan: Vec<TerminalAction>)
    requires
        pauses_fit(*demo),
    ensures
        action_views(plan@) == perform_plan_spec(*demo, window_id@),
{
    let mut actions: Vec<TerminalAction> = Vec::new();
    actions.push(TerminalAction::Xdotool(activate_window_args(window_id)));
    assert(action_views(actions@) =~= seq![
        ActionView::Xdotool(seq!["windowactivate"@, "--sync"@, window_id@]),
    ] + steps_actions(*demo, 0));
    let mut i: usize = 0;
    while i < demo.steps.len()
        invariant
            i <= demo.steps@.len(),
            pauses_fit(*demo),
            action_views(actions@) == seq![
                ActionView::Xdotool(seq!["windowactivate"@, "--sync"@, window_id@]),
            ] + steps_actions(*demo, i as nat),
        decreases demo.steps.len() - i,
    {
        assert(step_pauses_fit(demo.steps@[i as int], *demo));
        let ghost before = action_views(actions@);
        push_step_actions(&mut actions, &demo.steps[i], demo);
        assert(action_views(actions@) =~= seq![
            ActionView::Xdotool(seq!["windowactivate"@, "--sync"@, window_id@]),
        ] + steps_actions(*demo, (i + 1) as nat));
        i = i + 1;
    }
    let ghost before = action_views(actions@);
    actions.push(TerminalAction::Sleep(demo.tail_ms() as u64));
    assert(action_views(actions@) =~= perform_plan_spec(*demo, window_id@));
    actions
}

} // verus!
