//! The dependency health report of `appreels doctor`.

use vstd::prelude::*;

verus! {

/// Whether one external tool is available, and what it is for.
#[derive(Debug)]
pub struct ToolStatus {
    pub name: String,
    pub available: bool,
    pub purpose: String,
}

/// The report: whether recording can work, the tools checked, and a warning
/// for each missing tool.
#[derive(Debug)]
pub struct DoctorReport {
    pub ok: bool,
    pub version: String,
    pub tools: Vec<ToolStatus>,
    pub warnings: Vec<String>,
}

/// How many tools the report checks.
pub open spec fn tool_count() -> int {
    5
}

/// The name of checked tool `i`.
pub open spec fn tool_name(i: int) -> Seq<char> {
    if i == 0 {
        "ffmpeg"@
    } else if i == 1 {
        "ffprobe"@
    } else if i == 2 {
        "xdotool"@
    } else if i == 3 {
        "wmctrl"@
    } else {
        "obs-cmd"@
    }
}

/// What checked tool `i` is for.
pub open spec fn tool_purpose(i: int) -> Seq<char> {
    if i == 0 {
        "raw capture + render"@
    } else if i == 1 {
        "video probing for render"@
    } else if i == 2 {
        "real-cursor input control"@
    } else if i == 3 {
        "window geometry"@
    } else {
        "OBS live-scene capture (optional)"@
    }
}

/// The warning for a missing tool.
pub open spec fn missing_warning(name: Seq<char>, purpose: Seq<char>) -> Seq<char> {
    name + " not found on PATH: "@ + purpose
}

/// The warnings for the missing tools among the first `n`, in order.
pub open spec fn warnings_for(tools: Seq<ToolStatus>, n: nat) -> Seq<Seq<char>>
    decreases n,
{
    if n == 0 {
        Seq::empty()
    } else {
        let t = tools[n - 1];
        let rest = warnings_for(tools, (n - 1) as nat);
        if t.available {
            rest
        } else {
            rest.push(missing_warning(t.name@, t.purpose@))
        }
    }
}

/// `t` reports checked tool `i`: its name and purpose, and as its
/// availability what `has_tool` answered for the name.
pub open spec fn reports_tool<F: Fn(&str) -> bool>(t: ToolStatus, i: int, has_tool: F) -> bool {
    &&& t.name@ == tool_name(i)
    &&& t.purpose@ == tool_purpose(i)
    &&& exists|s: &str| s@ == tool_name(i) && call_ensures(has_tool, (s,), t.available)
}

fn tool_entry(i: usize) -> (r: (&'static str, &'static str))
    requires
        i < 5,
    ensures
        r.0@ == tool_name(i as int),
        r.1@ == tool_purpose(i as int),
{
    if i == 0 {
        ("ffmpeg", "raw capture + render")
    } else if i == 1 {
        ("ffprobe", "video probing for render")
    } else if i == 2 {
        ("xdotool", "real-cursor input control")
    } else if i == 3 {
        ("wmctrl", "window geometry")
    } else {
        ("obs-cmd", "OBS live-scene capture (optional)")
    }
}

/// Checks the five tools with `has_tool`. Each tool's availability is what
/// `has_tool` answered for its name; every missing tool gets a warning, in
/// order; and the report is `ok` exactly when ffmpeg and xdotool, the hard
/// requirements for recording, are available.
pub fn report(version: &str, has_tool: impl Fn(&str) -> bool) -> (r: DoctorReport)
    requires
        forall|s: &str| call_requires(has_tool, (s,)),
    ensures
        r.version@ == version@,
        r.tools@.len() == tool_count(),
        forall|i: int| 0 <= i < tool_count() ==> reports_tool(#[trigger] r.tools@[i], i, has_tool),
        r.warnings.deep_view() == warnings_for(r.tools@, tool_count() as nat),
        r.ok == (r.tools@[0].available && r.tools@[2].available),
{
    let mut tools: Vec<ToolStatus> = Vec::new();
    let mut warnings: Vec<String> = Vec::new();
    let mut i: usize = 0;
    while i < 5
        invariant
            i <= 5,
            forall|s: &str| call_requires(has_tool, (s,)),
            tools@.len() == i,
            forall|j: int| 0 <= j < i ==> reports_tool(#[trigger] tools@[j], j, has_tool),
            warnings.deep_view() == warnings_for(tools@, i as nat),
        decreases 5 - i,
    {
        let (name, purpose) = tool_entry(i);
        let available = has_tool(name);
        let ghost before = tools@;
        let ghost warned = warnings.deep_view();
        tools.push(
            ToolStatus {
                name: String::from_str(name),
                available,
                purpose: String::from_str(purpose),
            },
        );
        proof {
            assert(name@ == tool_name(i as int) && call_ensures(
                has_tool,
                (name,),
                tools@[i as int].available,
            ));
            assert(exists|s: &str|
                s@ == tool_name(i as int) && call_ensures(
                    has_tool,
                    (s,),
                    tools@[i as int].available,
                ));
            assert(reports_tool(tools@[i as int], i as int, has_tool));
            assert forall|j: int| 0 <= j < i implies tools@[j] == before[j] by {}
            assert(warnings_for(tools@, i as nat) == warnings_for(before, i as nat)) by {
                lemma_warnings_prefix(before, tools@, i as nat);
            }
        }
        if !available {
            let mut w = String::from_str(name);
            w.append(" not found on PATH: ");
            w.append(purpose);
            warnings.push(w);
            assert(warnings.deep_view() =~= warned.push(missing_warning(name@, purpose@)));
        }
        i = i + 1;
    }
    let ok = tools[0].available && tools[2].available;
    DoctorReport { ok, version: String::from_str(version), tools, warnings }
}

proof fn lemma_warnings_prefix(a: Seq<ToolStatus>, b: Seq<ToolStatus>, n: nat)
    requires
        n <= a.len(),
        n <= b.len(),
        forall|j: int| 0 <= j < n ==> a[j] == b[j],
    ensures
        warnings_for(a, n) == warnings_for(b, n),
    decreases n,
{
    if n > 0 {
        lemma_warnings_prefix(a, b, (n - 1) as nat);
    }
}

/// A report warns about nothing exactly when every checked tool is
/// available.
pub proof fn law_no_warnings_iff_all_available(tools: Seq<ToolStatus>, n: nat)
    requires
        n <= tools.len(),
    ensures
        warnings_for(tools, n).len() == 0 <==> forall|j: int| 0 <= j < n ==> #[trigger] tools[j].available,
    decreases n,
{
    if n > 0 {
        law_no_warnings_iff_all_available(tools, (n - 1) as nat);
        if !tools[n - 1].available {
            assert(warnings_for(tools, n).len() > 0);
        }
    }
}

} // verus!
