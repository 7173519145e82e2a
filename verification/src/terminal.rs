//! Terminal demo scripts: how long each step takes when replayed, and the
//! title card, captions and focus zooms that the recorded clip is rendered
//! with.

use vstd::prelude::*;

use crate::number::{decimal, push_decimal};
use crate::render::{Caption, Card};
use crate::text::{chars_of, trim, trim_chars};

verus! {

/// Where a terminal zoom looks: the input line, the output area, the whole
/// window, its center, or a given point. The point's coordinates are carried
/// as the bit patterns of the script's floating-point numbers
/// (`f64::to_bits`); this module never reads them.
#[derive(Debug, Clone, Copy, PartialEq, Eq, Structural)]
pub enum TerminalFocus {
    Input,
    Output,
    Full,
    Center,
    Coord { x: u64, y: u64 },
}

/// The magnification of a zoom: a preset in hundredths (`122` is 1.22×), or
/// the bit pattern of the script's own floating-point scale.
#[derive(Debug, Clone, Copy, PartialEq, Eq, Structural)]
pub enum ZoomScale {
    Hundredths(u32),
    Bits(u64),
}

/// A zoom toward a focus of the terminal window over `[start_ms, end_ms)`.
#[derive(Debug, Clone, Copy, PartialEq, Eq, Structural)]
pub struct FocusZoom {
    pub start_ms: u32,
    pub end_ms: u32,
    pub focus: TerminalFocus,
    pub scale: ZoomScale,
}

/// One step of a terminal demo script.
#[derive(Debug, Clone)]
pub enum TerminalStep {
    Caption { text: String, duration_ms: Option<u32>, focus: Option<TerminalFocus> },
    Type {
        text: String,
        ms_per_char: Option<u32>,
        caption: Option<String>,
        focus: Option<TerminalFocus>,
    },
    Run {
        command: String,
        ms_per_char: Option<u32>,
        wait_ms: Option<u32>,
        caption: Option<String>,
        focus: Option<TerminalFocus>,
    },
    Key { chord: String, caption: Option<String>, hold_ms: Option<u32>, focus: Option<TerminalFocus> },
    Wait { ms: u32, caption: Option<String>, focus: Option<TerminalFocus> },
    Zoom { focus: TerminalFocus, scale: Option<u64>, duration_ms: Option<u32> },
}

/// A terminal demo script.
#[derive(Debug, Clone)]
pub struct TerminalDemo {
    pub title: Option<String>,
    pub cwd: Option<String>,
    pub shell: Option<String>,
    pub cols: Option<u32>,
    pub rows: Option<u32>,
    pub startup_ms: Option<u32>,
    pub tail_ms: Option<u32>,
    pub type_delay_ms: Option<u32>,
    pub settle_ms: Option<u32>,
    pub title_card_ms: Option<u32>,
    pub outro_card_ms: Option<u32>,
    pub outro: Option<String>,
    pub steps: Vec<TerminalStep>,
}

/// The cues a terminal demo is rendered with: cards, captions and focus
/// zooms, all timed in milliseconds of the recorded clip.
#[derive(Debug, Clone)]
pub struct TerminalTimeline {
    pub title_card: Option<Card>,
    pub outro_card: Option<Card>,
    pub captions: Vec<Caption>,
    pub zooms: Vec<FocusZoom>,
}

pub open spec fn or_default(o: Option<u32>, d: u32) -> u32 {
    match o {
        Some(v) => v,
        None => d,
    }
}

pub open spec fn startup_of(demo: TerminalDemo) -> u32 {
    or_default(demo.startup_ms, 800)
}

pub open spec fn tail_of(demo: TerminalDemo) -> u32 {
    or_default(demo.tail_ms, 700)
}

pub open spec fn type_delay_of(demo: TerminalDemo) -> u32 {
    or_default(demo.type_delay_ms, 28)
}

pub open spec fn settle_of(demo: TerminalDemo) -> u32 {
    or_default(demo.settle_ms, 250)
}

/// The title shown on the title card; without one in the script, a name made
/// of the process id `pid`.
pub open spec fn title_of(demo: TerminalDemo, pid: u32) -> Seq<char> {
    match demo.title {
        Some(t) => t@,
        None => "appreels-terminal-"@ + decimal(pid as nat),
    }
}

/// How long typing `len` characters at `ms_per_char` takes: the character
/// count (as a `u32`) times the delay, saturating, and at least one delay.
pub open spec fn type_duration(len: nat, ms_per_char: u32) -> u32 {
    let n = (len as u32) as int;
    let p = if n * ms_per_char > u32::MAX {
        u32::MAX as int
    } else {
        n * ms_per_char
    };
    if p >= ms_per_char {
        p as u32
    } else {
        ms_per_char
    }
}

/// How long a step keeps the terminal busy when replayed.
pub open spec fn step_ms(step: TerminalStep, demo: TerminalDemo) -> int {
    match step {
        TerminalStep::Caption { duration_ms, .. } => or_default(duration_ms, 1400) + settle_of(
            demo,
        ),
        TerminalStep::Type { text, ms_per_char, .. } => type_duration(
            text@.len(),
            or_default(ms_per_char, type_delay_of(demo)),
        ) + settle_of(demo),
        TerminalStep::Run { command, ms_per_char, wait_ms, .. } => type_duration(
            command@.len(),
            or_default(ms_per_char, type_delay_of(demo)),
        ) + or_default(wait_ms, 1800) + settle_of(demo),
        TerminalStep::Key { hold_ms, .. } => or_default(hold_ms, 350) + settle_of(demo),
        TerminalStep::Wait { ms, .. } => ms as int,
        TerminalStep::Zoom { duration_ms, .. } => or_default(duration_ms, 1200) as int,
    }
}

/// How long the steps take together.
pub open spec fn steps_ms(steps: Seq<TerminalStep>, demo: TerminalDemo) -> int
    decreases steps.len(),
{
    if steps.len() == 0 {
        0
    } else {
        steps_ms(steps.drop_last(), demo) + step_ms(steps.last(), demo)
    }
}

/// How long the recording of the demo runs: startup, the steps, and the tail.
pub open spec fn source_ms(demo: TerminalDemo) -> int {
    startup_of(demo) + steps_ms(demo.steps@, demo) + tail_of(demo)
}

/// The demo's timing fits in `u32` milliseconds (beyond that the sums
/// overflow).
pub open spec fn timing_fits(demo: TerminalDemo) -> bool {
    source_ms(demo) <= u32::MAX
}

/// The steps end within `u32` milliseconds of the recording (beyond that,
/// cueing them overflows).
pub open spec fn steps_fit(demo: TerminalDemo) -> bool {
    startup_of(demo) + steps_ms(demo.steps@, demo) <= u32::MAX
}

/// When step `k` starts in the recording.
pub open spec fn step_start(demo: TerminalDemo, k: int) -> int {
    startup_of(demo) + steps_ms(demo.steps@.take(k), demo)
}

pub open spec fn saturating_add_u32(a: u32, b: u32) -> u32 {
    if a + b > u32::MAX {
        u32::MAX
    } else {
        (a + b) as u32
    }
}

/// The caption added for `text` over `duration` from `start`: none for blank
/// text or a zero duration.
pub open spec fn caption_cue(start: u32, duration: u32, text: Seq<char>) -> Seq<
    (u32, u32, Seq<char>),
> {
    if trim(text).len() == 0 || duration == 0 {
        Seq::empty()
    } else {
        seq![(start, saturating_add_u32(start, duration), text)]
    }
}

/// The zoom added toward `focus`: none without a focus, for the whole window,
/// or for a zero duration.
pub open spec fn zoom_cue(start: u32, duration: u32, focus: Option<TerminalFocus>, scale: ZoomScale) -> Seq<FocusZoom> {
    match focus {
        Some(f) => if f == TerminalFocus::Full || duration == 0 {
            Seq::empty()
        } else {
            seq![
                FocusZoom {
                    start_ms: start,
                    end_ms: saturating_add_u32(start, duration),
                    focus: f,
                    scale,
                },
            ]
        },
        None => Seq::empty(),
    }
}

pub open spec fn caption_opt_cue(start: u32, duration: u32, text: Option<String>) -> Seq<
    (u32, u32, Seq<char>),
> {
    match text {
        Some(t) => caption_cue(start, duration, t@),
        None => Seq::empty(),
    }
}

pub open spec fn focus_or(focus: Option<TerminalFocus>, d: TerminalFocus) -> TerminalFocus {
    match focus {
        Some(f) => f,
        None => d,
    }
}

/// The captions a step adds when it starts at `t`.
pub open spec fn step_captions(step: TerminalStep, t: u32, demo: TerminalDemo) -> Seq<
    (u32, u32, Seq<char>),
> {
    match step {
        TerminalStep::Caption { text, duration_ms, .. } => caption_cue(
            t,
            or_default(duration_ms, 1400),
            text@,
        ),
        TerminalStep::Type { caption, .. } => caption_opt_cue(
            t,
            step_ms(step, demo) as u32,
            caption,
        ),
        TerminalStep::Run { caption, .. } => caption_opt_cue(t, step_ms(step, demo) as u32, caption),
        TerminalStep::Key { caption, .. } => caption_opt_cue(t, step_ms(step, demo) as u32, caption),
        TerminalStep::Wait { ms, caption, .. } => caption_opt_cue(t, ms, caption),
        TerminalStep::Zoom { .. } => Seq::empty(),
    }
}

/// The zooms a step adds when it starts at `t`.
pub open spec fn step_zooms(step: TerminalStep, t: u32, demo: TerminalDemo) -> Seq<FocusZoom> {
    match step {
        TerminalStep::Caption { duration_ms, focus, .. } => zoom_cue(
            t,
            or_default(duration_ms, 1400),
            focus,
            ZoomScale::Hundredths(116),
        ),
        TerminalStep::Type { focus, .. } => zoom_cue(
            t,
            step_ms(step, demo) as u32,
            Some(focus_or(focus, TerminalFocus::Input)),
            ZoomScale::Hundredths(122),
        ),
        TerminalStep::Run { command, ms_per_char, wait_ms, focus, .. } => {
            let typed = type_duration(
                command@.len(),
                or_default(ms_per_char, type_delay_of(demo)),
            ) + settle_of(demo);
            zoom_cue(t, typed as u32, Some(TerminalFocus::Input), ZoomScale::Hundredths(122))
                + zoom_cue(
                (t + typed) as u32,
                or_default(wait_ms, 1800),
                Some(focus_or(focus, TerminalFocus::Output)),
                ZoomScale::Hundredths(118),
            )
        },
        TerminalStep::Key { focus, .. } => zoom_cue(
            t,
            step_ms(step, demo) as u32,
            focus,
            ZoomScale::Hundredths(112),
        ),
        TerminalStep::Wait { ms, focus, .. } => zoom_cue(
            t,
            ms,
            Some(focus_or(focus, TerminalFocus::Output)),
            ZoomScale::Hundredths(116),
        ),
        TerminalStep::Zoom { focus, scale, duration_ms } => zoom_cue(
            t,
            or_default(duration_ms, 1200),
            Some(focus),
            match scale {
                Some(b) => ZoomScale::Bits(b),
                None => ZoomScale::Hundredths(120),
            },
        ),
    }
}

/// The captions of the first `n` steps.
pub open spec fn timeline_captions(demo: TerminalDemo, n: nat) -> Seq<(u32, u32, Seq<char>)>
    decreases n,
{
    if n == 0 {
        Seq::empty()
    } else {
        timeline_captions(demo, (n - 1) as nat) + step_captions(
            demo.steps@[n - 1],
            step_start(demo, n - 1) as u32,
            demo,
        )
    }
}

/// The zooms of the first `n` steps.
pub open spec fn timeline_zooms(demo: TerminalDemo, n: nat) -> Seq<FocusZoom>
    decreases n,
{
    if n == 0 {
        Seq::empty()
    } else {
        timeline_zooms(demo, (n - 1) as nat) + step_zooms(
            demo.steps@[n - 1],
            step_start(demo, n - 1) as u32,
            demo,
        )
    }
}

/// The start, end and text of each caption.
pub open spec fn caption_views(captions: Seq<Caption>) -> Seq<(u32, u32, Seq<char>)> {
    captions.map_values(|c: Caption| (c.start_ms, c.end_ms, c.text@))
}

/// How long typing `text` at `ms_per_char` takes.
pub fn type_duration_ms(text: &str, ms_per_char: u32) -> (r: u32)
    ensures
        r == type_duration(text@.len(), ms_per_char),
{
    let n = #[verifier::truncate] (text.unicode_len() as u32);
    assert(n as u64 * ms_per_char as u64 <= u64::MAX) by (nonlinear_arith)
        requires
            n <= u32::MAX,
            ms_per_char <= u32::MAX,
    ;
    let p = n as u64 * ms_per_char as u64;
    let saturated: u32 = if p > u32::MAX as u64 {
        u32::MAX
    } else {
        p as u32
    };
    if saturated >= ms_per_char {
        saturated
    } else {
        ms_per_char
    }
}

/// Adds a caption over `[start_ms, start_ms + duration_ms)` (the end
/// saturating), unless the text is blank or the duration is zero.
pub fn add_caption(timeline: &mut TerminalTimeline, start_ms: u32, duration_ms: u32, text: &str)
    ensures
        caption_views(final(timeline).captions@) == caption_views(old(timeline).captions@)
            + caption_cue(start_ms, duration_ms, text@),
        final(timeline).zooms@ == old(timeline).zooms@,
        final(timeline).title_card == old(timeline).title_card,
        final(timeline).outro_card == old(timeline).outro_card,
{
    let chars = chars_of(text);
    let trimmed = trim_chars(chars.as_slice());
    if trimmed.len() == 0 || duration_ms == 0 {
        assert(caption_views(timeline.captions@) + caption_cue(start_ms, duration_ms, text@)
            =~= caption_views(timeline.captions@));
        return ;
    }
    let ghost before = timeline.captions@;
    timeline.captions.push(
        Caption { start_ms, end_ms: start_ms.saturating_add(duration_ms), text: String::from_str(text) },
    );
    assert(caption_views(timeline.captions@) =~= caption_views(before) + caption_cue(
        start_ms,
        duration_ms,
        text@,
    ));
}

/// Adds a zoom toward `focus` over `[start_ms, start_ms + duration_ms)` (the
/// end saturating), unless there is no focus, the focus is the whole window,
/// or the duration is zero.
pub fn add_focus_zoom(
    timeline: &mut TerminalTimeline,
    start_ms: u32,
    duration_ms: u32,
    focus: Option<TerminalFocus>,
    scale: ZoomScale,
)
    ensures
        final(timeline).zooms@ == old(timeline).zooms@ + zoom_cue(start_ms, duration_ms, focus, scale),
        final(timeline).captions@ == old(timeline).captions@,
        final(timeline).title_card == old(timeline).title_card,
        final(timeline).outro_card == old(timeline).outro_card,
{
    let f = match focus {
        Some(f) => f,
        None => {
            assert(timeline.zooms@ + zoom_cue(start_ms, duration_ms, focus, scale) =~= timeline.zooms@);
            return ;
        },
    };
    let is_full = match f {
        TerminalFocus::Full => true,
        _ => false,
    };
    if is_full || duration_ms == 0 {
        assert(timeline.zooms@ + zoom_cue(start_ms, duration_ms, focus, scale) =~= timeline.zooms@);
        return ;
    }
    let ghost before = timeline.zooms@;
    timeline.zooms.push(
        FocusZoom { start_ms, end_ms: start_ms.saturating_add(duration_ms), focus: f, scale },
    );
    assert(timeline.zooms@ =~= before + zoom_cue(start_ms, duration_ms, focus, scale));
}

fn add_caption_opt(
    timeline: &mut TerminalTimeline,
    start_ms: u32,
    duration_ms: u32,
    text: &Option<String>,
)
    ensures
        caption_views(final(timeline).captions@) == caption_views(old(timeline).captions@)
            + caption_opt_cue(start_ms, duration_ms, *text),
        final(timeline).zooms@ == old(timeline).zooms@,
        final(timeline).title_card == old(timeline).title_card,
        final(timeline).outro_card == old(timeline).outro_card,
{
    match text {
        Some(t) => add_caption(timeline, start_ms, duration_ms, t.as_str()),
        None => {
            assert(caption_views(timeline.captions@) + caption_opt_cue(start_ms, duration_ms, *text)
                =~= caption_views(timeline.captions@));
        },
    }
}

fn focus_or_exec(focus: &Option<TerminalFocus>, d: TerminalFocus) -> (r: TerminalFocus)
    ensures
        r == focus_or(*focus, d),
{
    match focus {
        Some(f) => *f,
        None => d,
    }
}

impl TerminalDemo {
    /// The title shown on the title card: the script's, or one made of the
    /// process id `pid`.
    pub fn title(&self, pid: u32) -> (t: String)
        ensures
            t@ == title_of(*self, pid),
    {
        match &self.title {
            Some(t) => t.clone(),
            None => {
                let mut t = String::from_str("appreels-terminal-");
                push_decimal(&mut t, pid as u64);
                t
            },
        }
    }

    pub fn startup_ms(&self) -> (r: u32)
        ensures
            r == startup_of(*self),
    {
        match self.startup_ms {
            Some(v) => v,
            None => 800,
        }
    }

    pub fn tail_ms(&self) -> (r: u32)
        ensures
            r == tail_of(*self),
    {
        match self.tail_ms {
            Some(v) => v,
            None => 700,
        }
    }

    pub fn type_delay_ms(&self) -> (r: u32)
        ensures
            r == type_delay_of(*self),
    {
        match self.type_delay_ms {
            Some(v) => v,
            None => 28,
        }
    }

    pub fn settle_ms(&self) -> (r: u32)
        ensures
            r == settle_of(*self),
    {
        match self.settle_ms {
            Some(v) => v,
            None => 250,
        }
    }

    /// Whether the steps end within `u32` milliseconds, which cueing them
    /// needs.
    pub fn steps_fit(&self) -> (b: bool)
        ensures
            b == steps_fit(*self),
    {
        let mut total: u64 = self.startup_ms() as u64;
        let mut i: usize = 0;
        while i < self.steps.len()
            invariant
                i <= self.steps@.len(),
                total == startup_of(*self) + steps_ms(self.steps@.take(i as int), *self),
                total <= u32::MAX,
            decreases self.steps.len() - i,
        {
            proof {
                lemma_step_start_next(*self, i as int);
            }
            let d = self.steps[i].estimated_ms_wide(self);
            total = total + d;
            if total > u32::MAX as u64 {
                proof {
                    lemma_steps_prefix_le(self.steps@, *self, i + 1);
                }
                return false;
            }
            i = i + 1;
        }
        assert(self.steps@.take(self.steps@.len() as int) =~= self.steps@);
        true
    }

    /// Whether the whole recording, tail included, lasts at most `u32`
    /// milliseconds, which timing it needs.
    pub fn timing_fits(&self) -> (b: bool)
        ensures
            b == timing_fits(*self),
    {
        if !self.steps_fit() {
            proof {
                lemma_steps_prefix_le(self.steps@, *self, 0);
            }
            return false;
        }
        proof {
            lemma_steps_prefix_le(self.steps@, *self, 0);
        }
        let total = self.steps_total();
        total as u64 + self.tail_ms() as u64 <= u32::MAX as u64
    }

    /// The startup plus all steps.
    fn steps_total(&self) -> (r: u32)
        requires
            steps_fit(*self),
        ensures
            r == startup_of(*self) + steps_ms(self.steps@, *self),
    {
        let mut total: u32 = self.startup_ms();
        let mut i: usize = 0;
        while i < self.steps.len()
            invariant
                i <= self.steps@.len(),
                steps_fit(*self),
                total == startup_of(*self) + steps_ms(self.steps@.take(i as int), *self),
            decreases self.steps.len() - i,
        {
            proof {
                lemma_step_start_next(*self, i as int);
                lemma_steps_prefix_le(self.steps@, *self, i + 1);
                assert(self.steps@.take(self.steps@.len() as int) =~= self.steps@);
            }
            let d = self.steps[i].estimated_ms(self);
            total = total + d;
            i = i + 1;
        }
        assert(self.steps@.take(self.steps@.len() as int) =~= self.steps@);
        total
    }

    /// How long the recording runs: startup, every step, and the tail.
    pub fn estimated_source_ms(&self) -> (r: u32)
        requires
            timing_fits(*self),
        ensures
            r == source_ms(*self),
    {
        proof {
            lemma_steps_prefix_le(self.steps@, *self, 0);
        }
        self.steps_total() + self.tail_ms()
    }

    /// The cues of the demo's recording: a title card (the script's title, or
    /// one made of the process id `pid`), an outro card when the script has
    /// one, and each step's captions and zooms from the moment it starts.
    pub fn to_timeline(&self, pid: u32) -> (tl: TerminalTimeline)
        requires
            steps_fit(*self),
        ensures
            tl.title_card matches Some(c) && c.text@ == title_of(*self, pid) && c.ms == or_default(
                self.title_card_ms,
                900,
            ),
            match self.outro {
                Some(o) => tl.outro_card matches Some(c) && c.text@ == o@ && c.ms == or_default(
                    self.outro_card_ms,
                    900,
                ),
                None => tl.outro_card is None,
            },
            caption_views(tl.captions@) == timeline_captions(*self, self.steps@.len()),
            tl.zooms@ == timeline_zooms(*self, self.steps@.len()),
    {
        let title_card_ms = match self.title_card_ms {
            Some(v) => v,
            None => 900,
        };
        let outro_card = match &self.outro {
            Some(text) => Some(
                Card {
                    text: text.clone(),
                    ms: match self.outro_card_ms {
                        Some(v) => v,
                        None => 900,
                    },
                },
            ),
            None => None,
        };
        let mut tl = TerminalTimeline {
            title_card: Some(Card { text: self.title(pid), ms: title_card_ms }),
            outro_card,
            captions: Vec::new(),
            zooms: Vec::new(),
        };
        let mut t: u32 = self.startup_ms();
        let mut i: usize = 0;
        assert(caption_views(tl.captions@) =~= timeline_captions(*self, 0));
        assert(tl.zooms@ =~= timeline_zooms(*self, 0));
        while i < self.steps.len()
            invariant
                i <= self.steps@.len(),
                steps_fit(*self),
                t == step_start(*self, i as int),
                caption_views(tl.captions@) == timeline_captions(*self, i as nat),
                tl.zooms@ == timeline_zooms(*self, i as nat),
                tl.title_card matches Some(c) && c.text@ == title_of(*self, pid) && c.ms
                    == or_default(self.title_card_ms, 900),
                match self.outro {
                    Some(o) => tl.outro_card matches Some(c) && c.text@ == o@ && c.ms
                        == or_default(self.outro_card_ms, 900),
                    None => tl.outro_card is None,
                },
            decreases self.steps.len() - i,
        {
            proof {
                lemma_step_start_next(*self, i as int);
                lemma_steps_prefix_le(self.steps@, *self, i + 1);
                assert(self.steps@.take(self.steps@.len() as int) =~= self.steps@);
            }
            let step = &self.steps[i];
            step.add_cues(&mut tl, t, self);
            let d = step.estimated_ms(self);
            t = t + d;
            i = i + 1;
        }
        tl
    }
}

impl TerminalStep {
    /// How long this step keeps the terminal busy.
    pub fn estimated_ms(&self, demo: &TerminalDemo) -> (r: u32)
        requires
            step_ms(*self, *demo) <= u32::MAX,
        ensures
            r == step_ms(*self, *demo),
    {
        match self {
            TerminalStep::Caption { duration_ms, .. } => {
                let d = match duration_ms {
                    Some(v) => *v,
                    None => 1400,
                };
                d + demo.settle_ms()
            },
            TerminalStep::Type { text, ms_per_char, .. } => {
                let mpc = match ms_per_char {
                    Some(v) => *v,
                    None => demo.type_delay_ms(),
                };
                type_duration_ms(text.as_str(), mpc) + demo.settle_ms()
            },
            TerminalStep::Run { command, ms_per_char, wait_ms, .. } => {
                let mpc = match ms_per_char {
                    Some(v) => *v,
                    None => demo.type_delay_ms(),
                };
                let wait = match wait_ms {
                    Some(v) => *v,
                    None => 1800,
                };
                type_duration_ms(command.as_str(), mpc) + wait + demo.settle_ms()
            },
            TerminalStep::Key { hold_ms, .. } => {
                let h = match hold_ms {
                    Some(v) => *v,
                    None => 350,
                };
                h + demo.settle_ms()
            },
            TerminalStep::Wait { ms, .. } => *ms,
            TerminalStep::Zoom { duration_ms, .. } => match duration_ms {
                Some(v) => *v,
                None => 1200,
            },
        }
    }

    /// How long this step keeps the terminal busy, in a type wide enough for
    /// any step.
    pub fn estimated_ms_wide(&self, demo: &TerminalDemo) -> (r: u64)
        ensures
            r == step_ms(*self, *demo),
    {
        let settle = demo.settle_ms() as u64;
        match self {
            TerminalStep::Caption { duration_ms, .. } => {
                let d = match duration_ms {
                    Some(v) => *v,
                    None => 1400,
                };
                d as u64 + settle
            },
            TerminalStep::Type { text, ms_per_char, .. } => {
                let mpc = match ms_per_char {
                    Some(v) => *v,
                    None => demo.type_delay_ms(),
                };
                type_duration_ms(text.as_str(), mpc) as u64 + settle
            },
            TerminalStep::Run { command, ms_per_char, wait_ms, .. } => {
                let mpc = match ms_per_char {
                    Some(v) => *v,
                    None => demo.type_delay_ms(),
                };
                let wait = match wait_ms {
                    Some(v) => *v,
                    None => 1800,
                };
                type_duration_ms(command.as_str(), mpc) as u64 + wait as u64 + settle
            },
            TerminalStep::Key { hold_ms, .. } => {
                let h = match hold_ms {
                    Some(v) => *v,
                    None => 350,
                };
                h as u64 + settle
            },
            TerminalStep::Wait { ms, .. } => *ms as u64,
            TerminalStep::Zoom { duration_ms, .. } => match duration_ms {
                Some(v) => *v as u64,
                None => 1200,
            },
        }
    }

    /// Adds the captions and zooms of this step when it starts at `t`.
    pub fn add_cues(&self, timeline: &mut TerminalTimeline, t: u32, demo: &TerminalDemo)
        requires
            t + step_ms(*self, *demo) <= u32::MAX,
        ensures
            caption_views(final(timeline).captions@) == caption_views(old(timeline).captions@)
                + step_captions(*self, t, *demo),
            final(timeline).zooms@ == old(timeline).zooms@ + step_zooms(*self, t, *demo),
            final(timeline).title_card == old(timeline).title_card,
            final(timeline).outro_card == old(timeline).outro_card,
    {
        let ghost caps0 = caption_views(timeline.captions@);
        let ghost zooms0 = timeline.zooms@;
        match self {
            TerminalStep::Caption { text, duration_ms, focus } => {
                let duration = match duration_ms {
                    Some(v) => *v,
                    None => 1400,
                };
                add_caption(timeline, t, duration, text.as_str());
                add_focus_zoom(timeline, t, duration, *focus, ZoomScale::Hundredths(116));
            },
            TerminalStep::Type { text, ms_per_char, caption, focus } => {
                let mpc = match ms_per_char {
                    Some(v) => *v,
                    None => demo.type_delay_ms(),
                };
                let duration = type_duration_ms(text.as_str(), mpc) + demo.settle_ms();
                add_caption_opt(timeline, t, duration, caption);
                add_focus_zoom(
                    timeline,
                    t,
                    duration,
                    Some(focus_or_exec(focus, TerminalFocus::Input)),
                    ZoomScale::Hundredths(122),
                );
            },
            TerminalStep::Run { command, ms_per_char, wait_ms, caption, focus } => {
                let mpc = match ms_per_char {
                    Some(v) => *v,
                    None => demo.type_delay_ms(),
                };
                let type_ms = type_duration_ms(command.as_str(), mpc);
                let wait = match wait_ms {
                    Some(v) => *v,
                    None => 1800,
                };
                let duration = type_ms + wait + demo.settle_ms();
                add_caption_opt(timeline, t, duration, caption);
                add_focus_zoom(
                    timeline,
                    t,
                    type_ms + demo.settle_ms(),
                    Some(TerminalFocus::Input),
                    ZoomScale::Hundredths(122),
                );
                let ghost mid = timeline.zooms@;
                add_focus_zoom(
                    timeline,
                    t + type_ms + demo.settle_ms(),
                    wait,
                    Some(focus_or_exec(focus, TerminalFocus::Output)),
                    ZoomScale::Hundredths(118),
                );
                assert(timeline.zooms@ =~= zooms0 + step_zooms(*self, t, *demo));
            },
            TerminalStep::Key { caption, hold_ms, focus, .. } => {
                let h = match hold_ms {
                    Some(v) => *v,
                    None => 350,
                };
                let duration = h + demo.settle_ms();
                add_caption_opt(timeline, t, duration, caption);
                add_focus_zoom(timeline, t, duration, *focus, ZoomScale::Hundredths(112));
            },
            TerminalStep::Wait { ms, caption, focus } => {
                add_caption_opt(timeline, t, *ms, caption);
                add_focus_zoom(
                    timeline,
                    t,
                    *ms,
                    Some(focus_or_exec(focus, TerminalFocus::Output)),
                    ZoomScale::Hundredths(116),
                );
            },
            TerminalStep::Zoom { focus, scale, duration_ms } => {
                let duration = match duration_ms {
                    Some(v) => *v,
                    None => 1200,
                };
                let s = match scale {
                    Some(b) => ZoomScale::Bits(*b),
                    None => ZoomScale::Hundredths(120),
                };
                assert(caption_views(timeline.captions@) =~= caps0 + step_captions(
                    *self,
                    t,
                    *demo,
                ));
                add_focus_zoom(timeline, t, duration, Some(*focus), s);
            },
        }
    }
}

proof fn lemma_step_ms_nonneg(step: TerminalStep, demo: TerminalDemo)
    ensures
        step_ms(step, demo) >= 0,
{
}

/// A prefix of the steps takes no longer than all of them.
proof fn lemma_steps_prefix_le(steps: Seq<TerminalStep>, demo: TerminalDemo, k: int)
    requires
        0 <= k <= steps.len(),
    ensures
        0 <= steps_ms(steps.take(k), demo) <= steps_ms(steps, demo),
    decreases steps.len(),
{
    if k == steps.len() {
        assert(steps.take(k) =~= steps);
        if steps.len() > 0 {
            lemma_steps_prefix_le(steps.drop_last(), demo, k - 1);
            lemma_step_ms_nonneg(steps.last(), demo);
        }
    } else {
        lemma_steps_prefix_le(steps.drop_last(), demo, k);
        assert(steps.drop_last().take(k) =~= steps.take(k));
        lemma_step_ms_nonneg(steps.last(), demo);
    }
}

/// Step `k + 1` starts when step `k` ends.
proof fn lemma_step_start_next(demo: TerminalDemo, k: int)
    requires
        0 <= k < demo.steps@.len(),
    ensures
        step_start(demo, k + 1) == step_start(demo, k) + step_ms(demo.steps@[k], demo),
{
    let pre = demo.steps@.take(k + 1);
    assert(pre.drop_last() =~= demo.steps@.take(k));
    assert(pre.last() == demo.steps@[k]);
}

/// When the steps fit, each step's own duration fits in a `u32`.
pub(crate) proof fn lemma_step_fits(demo: TerminalDemo, k: int)
    requires
        steps_fit(demo),
        0 <= k < demo.steps@.len(),
    ensures
        step_ms(demo.steps@[k], demo) <= u32::MAX,
{
    lemma_step_start_next(demo, k);
    lemma_steps_prefix_le(demo.steps@, demo, k);
    lemma_steps_prefix_le(demo.steps@, demo, k + 1);
}

/// Every caption starts within `[lo, hi]` and ends after it starts, by `hi`.
pub open spec fn captions_within(cs: Seq<(u32, u32, Seq<char>)>, lo: int, hi: int) -> bool {
    forall|i: int| 0 <= i < cs.len() ==> lo <= #[trigger] cs[i].0 < cs[i].1 <= hi
}

/// The captions come in order of their start.
pub open spec fn captions_in_order(cs: Seq<(u32, u32, Seq<char>)>) -> bool {
    forall|i: int, j: int| 0 <= i <= j < cs.len() ==> #[trigger] cs[i].0 <= #[trigger] cs[j].0
}

/// Every zoom starts within `[lo, hi]`, ends after it starts, by `hi`, and
/// looks at less than the whole window.
pub open spec fn zooms_within(zs: Seq<FocusZoom>, lo: int, hi: int) -> bool {
    forall|i: int|
        0 <= i < zs.len() ==> lo <= #[trigger] zs[i].start_ms < zs[i].end_ms <= hi && zs[i].focus
            != TerminalFocus::Full
}

/// The zooms come in order of their start.
pub open spec fn zooms_in_order(zs: Seq<FocusZoom>) -> bool {
    forall|i: int, j: int|
        0 <= i <= j < zs.len() ==> #[trigger] zs[i].start_ms <= #[trigger] zs[j].start_ms
}

proof fn lemma_captions_concat(
    a: Seq<(u32, u32, Seq<char>)>,
    b: Seq<(u32, u32, Seq<char>)>,
    lo: int,
    mid: int,
    hi: int,
)
    requires
        captions_within(a, lo, mid),
        captions_within(b, mid, hi),
        captions_in_order(a),
        captions_in_order(b),
        lo <= mid <= hi,
    ensures
        captions_within(a + b, lo, hi),
        captions_in_order(a + b),
{
    let c = a + b;
    assert forall|i: int| 0 <= i < c.len() implies lo <= #[trigger] c[i].0 < c[i].1 <= hi by {
        if i < a.len() {
            assert(c[i] == a[i]);
            assert(lo <= a[i].0 < a[i].1 <= mid);
        } else {
            assert(c[i] == b[i - a.len()]);
            assert(mid <= b[i - a.len()].0 < b[i - a.len()].1 <= hi);
        }
    }
    assert forall|i: int, j: int| 0 <= i <= j < c.len() implies #[trigger] c[i].0
        <= #[trigger] c[j].0 by {
        if j < a.len() {
            assert(c[i] == a[i] && c[j] == a[j]);
        } else if i >= a.len() {
            assert(c[i] == b[i - a.len()] && c[j] == b[j - a.len()]);
        } else {
            assert(c[i] == a[i] && c[j] == b[j - a.len()]);
        }
    }
}

proof fn lemma_zooms_concat(a: Seq<FocusZoom>, b: Seq<FocusZoom>, lo: int, mid: int, hi: int)
    requires
        zooms_within(a, lo, mid),
        zooms_within(b, mid, hi),
        zooms_in_order(a),
        zooms_in_order(b),
        lo <= mid <= hi,
    ensures
        zooms_within(a + b, lo, hi),
        zooms_in_order(a + b),
{
    let c = a + b;
    assert forall|i: int| 0 <= i < c.len() implies lo <= #[trigger] c[i].start_ms < c[i].end_ms
        <= hi && c[i].focus != TerminalFocus::Full by {
        if i < a.len() {
            assert(c[i] == a[i]);
            assert(lo <= a[i].start_ms < a[i].end_ms <= mid);
        } else {
            assert(c[i] == b[i - a.len()]);
            assert(mid <= b[i - a.len()].start_ms < b[i - a.len()].end_ms <= hi);
        }
    }
    assert forall|i: int, j: int| 0 <= i <= j < c.len() implies #[trigger] c[i].start_ms
        <= #[trigger] c[j].start_ms by {
        if j < a.len() {
            assert(c[i] == a[i] && c[j] == a[j]);
        } else if i >= a.len() {
            assert(c[i] == b[i - a.len()] && c[j] == b[j - a.len()]);
        } else {
            assert(c[i] == a[i] && c[j] == b[j - a.len()]);
        }
    }
}

proof fn lemma_step_cues_within(step: TerminalStep, t: u32, demo: TerminalDemo)
    requires
        t + step_ms(step, demo) <= u32::MAX,
    ensures
        captions_within(step_captions(step, t, demo), t as int, t + step_ms(step, demo)),
        captions_in_order(step_captions(step, t, demo)),
        zooms_within(step_zooms(step, t, demo), t as int, t + step_ms(step, demo)),
        zooms_in_order(step_zooms(step, t, demo)),
{
    let cs = step_captions(step, t, demo);
    let zs = step_zooms(step, t, demo);
    match step {
        TerminalStep::Run { command, ms_per_char, wait_ms, focus, .. } => {
            let typed = type_duration(
                command@.len(),
                or_default(ms_per_char, type_delay_of(demo)),
            ) + settle_of(demo);
            let z1 = zoom_cue(t, typed as u32, Some(TerminalFocus::Input), ZoomScale::Hundredths(122));
            let z2 = zoom_cue(
                (t + typed) as u32,
                or_default(wait_ms, 1800),
                Some(focus_or(focus, TerminalFocus::Output)),
                ZoomScale::Hundredths(118),
            );
            lemma_zooms_concat(z1, z2, t as int, t + typed, t + step_ms(step, demo));
        },
        _ => {},
    }
}

proof fn lemma_timeline_prefix_within(demo: TerminalDemo, n: nat)
    requires
        steps_fit(demo),
        n <= demo.steps@.len(),
    ensures
        captions_within(timeline_captions(demo, n), startup_of(demo) as int, step_start(demo, n as int)),
        captions_in_order(timeline_captions(demo, n)),
        zooms_within(timeline_zooms(demo, n), startup_of(demo) as int, step_start(demo, n as int)),
        zooms_in_order(timeline_zooms(demo, n)),
        startup_of(demo) <= step_start(demo, n as int) <= startup_of(demo) + steps_ms(demo.steps@, demo),
    decreases n,
{
    lemma_steps_prefix_le(demo.steps@, demo, n as int);
    if n > 0 {
        let k = (n - 1) as int;
        lemma_timeline_prefix_within(demo, (n - 1) as nat);
        lemma_step_start_next(demo, k);
        let t = step_start(demo, k);
        lemma_step_cues_within(demo.steps@[k], t as u32, demo);
        lemma_captions_concat(
            timeline_captions(demo, (n - 1) as nat),
            step_captions(demo.steps@[k], t as u32, demo),
            startup_of(demo) as int,
            t,
            step_start(demo, n as int),
        );
        lemma_zooms_concat(
            timeline_zooms(demo, (n - 1) as nat),
            step_zooms(demo.steps@[k], t as u32, demo),
            startup_of(demo) as int,
            t,
            step_start(demo, n as int),
        );
    }
}

/// Every cue of a demo's timeline falls while the steps are being replayed:
/// each caption and zoom starts no earlier than the end of the startup,
/// ends after it starts, and ends no later than the last step, that is,
/// `tail` before the end of the recording (`source_ms`, which
/// `estimated_source_ms` returns). The captions, and the zooms, come in order
/// of their start, and no zoom is toward the whole window.
pub proof fn law_timeline_cues_within_recording(demo: TerminalDemo)
    requires
        steps_fit(demo),
    ensures
        captions_within(
            timeline_captions(demo, demo.steps@.len()),
            startup_of(demo) as int,
            source_ms(demo) - tail_of(demo),
        ),
        captions_in_order(timeline_captions(demo, demo.steps@.len())),
        zooms_within(
            timeline_zooms(demo, demo.steps@.len()),
            startup_of(demo) as int,
            source_ms(demo) - tail_of(demo),
        ),
        zooms_in_order(timeline_zooms(demo, demo.steps@.len())),
{
    lemma_timeline_prefix_within(demo, demo.steps@.len());
    assert(demo.steps@.take(demo.steps@.len() as int) =~= demo.steps@);
}

/// The captions of the first `n` steps begin the captions of the first `m`.
proof fn lemma_timeline_captions_prefix(demo: TerminalDemo, n: nat, m: nat)
    requires
        n <= m <= demo.steps@.len(),
    ensures
        timeline_captions(demo, n).len() <= timeline_captions(demo, m).len(),
        forall|i: int|
            0 <= i < timeline_captions(demo, n).len() ==> #[trigger] timeline_captions(demo, m)[i]
                == timeline_captions(demo, n)[i],
    decreases m,
{
    if n < m {
        lemma_timeline_captions_prefix(demo, n, (m - 1) as nat);
    }
}

/// A cue that step `k` adds on its own appears in the demo's timeline.
proof fn lemma_step_caption_in_timeline(demo: TerminalDemo, k: int, cue: (u32, u32, Seq<char>))
    requires
        0 <= k < demo.steps@.len(),
        step_captions(demo.steps@[k], step_start(demo, k) as u32, demo) == seq![cue],
    ensures
        exists|i: int|
            0 <= i < timeline_captions(demo, demo.steps@.len()).len() && #[trigger] timeline_captions(
                demo,
                demo.steps@.len(),
            )[i] == cue,
{
    let n = demo.steps@.len();
    let before = timeline_captions(demo, k as nat);
    let upto = timeline_captions(demo, (k + 1) as nat);
    assert(upto == before + seq![cue]);
    let i = before.len() as int;
    assert(upto[i] == cue);
    lemma_timeline_captions_prefix(demo, (k + 1) as nat, n);
    assert(timeline_captions(demo, n)[i] == upto[i]);
}

/// A caption step shows its own caption: a step `{caption: text,
/// durationMs: d}` (1400 ms when no duration is given) with non-blank text and
/// a nonzero duration puts the caption `text` over `[t, t + d)` into the
/// demo's timeline, where `t` is when the step starts in the recording.
pub proof fn law_caption_step_shows_its_caption(
    demo: TerminalDemo,
    k: int,
    text: Seq<char>,
    duration: u32,
)
    requires
        steps_fit(demo),
        0 <= k < demo.steps@.len(),
        demo.steps@[k] matches TerminalStep::Caption { text: t, duration_ms, .. } && t@ == text
            && duration == (match duration_ms {
            Some(v) => v,
            None => 1400,
        }),
        trim(text).len() > 0,
        duration > 0,
    ensures
        exists|i: int|
            0 <= i < timeline_captions(demo, demo.steps@.len()).len() && #[trigger] timeline_captions(
                demo,
                demo.steps@.len(),
            )[i] == (step_start(demo, k) as u32, (step_start(demo, k) + duration) as u32, text),
{
    let start = step_start(demo, k);
    lemma_step_start_next(demo, k);
    lemma_steps_prefix_le(demo.steps@, demo, k);
    lemma_steps_prefix_le(demo.steps@, demo, k + 1);
    assert(start + duration <= u32::MAX);
    assert(step_captions(demo.steps@[k], start as u32, demo) =~= seq![
        (start as u32, (start + duration) as u32, text),
    ]);
    lemma_step_caption_in_timeline(demo, k, (start as u32, (start + duration) as u32, text));
}

/// A typing, run or key step with a non-blank `caption` shows it for as long
/// as the step keeps the terminal busy, from when the step starts; a wait
/// step with one shows it for its `ms`.
pub proof fn law_step_caption_spans_the_step(demo: TerminalDemo, k: int, text: Seq<char>)
    requires
        steps_fit(demo),
        0 <= k < demo.steps@.len(),
        match demo.steps@[k] {
            TerminalStep::Type { caption, .. } => caption matches Some(c) && c@ == text,
            TerminalStep::Run { caption, .. } => caption matches Some(c) && c@ == text,
            TerminalStep::Key { caption, .. } => caption matches Some(c) && c@ == text,
            TerminalStep::Wait { caption, .. } => caption matches Some(c) && c@ == text,
            _ => false,
        },
        trim(text).len() > 0,
        step_ms(demo.steps@[k], demo) > 0,
    ensures
        exists|i: int|
            0 <= i < timeline_captions(demo, demo.steps@.len()).len() && #[trigger] timeline_captions(
                demo,
                demo.steps@.len(),
            )[i] == (
                step_start(demo, k) as u32,
                (step_start(demo, k) + step_ms(demo.steps@[k], demo)) as u32,
                text,
            ),
{
    let start = step_start(demo, k);
    let d = step_ms(demo.steps@[k], demo);
    lemma_step_start_next(demo, k);
    lemma_steps_prefix_le(demo.steps@, demo, k);
    lemma_steps_prefix_le(demo.steps@, demo, k + 1);
    assert(start + d <= u32::MAX);
    let cue = (start as u32, (start + d) as u32, text);
    assert(step_captions(demo.steps@[k], start as u32, demo) =~= seq![cue]);
    lemma_step_caption_in_timeline(demo, k, cue);
}

} // verus!
