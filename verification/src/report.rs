//! The command line and the texts shown to the user: which command the
//! arguments name, the `get` and `json` reports, and the wording of the
//! screen's panels.
//!
//! The GPU temperature and package power are fractional numbers; the
//! caller formats them and hands their text in.
use vstd::prelude::*;

use crate::app::Focus;
use crate::sysfs::{join_csv, join_csv_spec, FanView, Snapshot, SnapshotView};
use crate::text::{decimal, push_char, push_decimal, same_text};

verus! {

// ------------------------------------------------------------------
// Small pieces
// ------------------------------------------------------------------

pub open spec fn or_dash_spec(v: Option<u32>) -> Seq<char> {
    match v {
        Some(x) => decimal(x as nat),
        None => "-"@,
    }
}

/// A reading, or `-` when there is none.
pub fn or_dash(v: Option<u32>) -> (r: String)
    ensures
        r@ == or_dash_spec(v),
{
    match v {
        Some(x) => {
            let mut r = String::new();
            push_decimal(&mut r, x as u64);
            assert(r@ =~= decimal(x as nat));
            r
        },
        None => String::from_str("-"),
    }
}

pub open spec fn text_or(v: Option<Seq<char>>, default: Seq<char>) -> Seq<char> {
    match v {
        Some(t) => t,
        None => default,
    }
}

fn text_or_exec(v: &Option<String>, default: &str) -> (r: String)
    ensures
        r@ == text_or(v.deep_view(), default@),
{
    match v {
        Some(t) => t.clone(),
        None => String::from_str(default),
    }
}

pub open spec fn spaces(n: nat) -> Seq<char> {
    Seq::new(n, |_i: int| ' ')
}

/// `s` right-aligned in `width` columns (`{:>width}`).
pub open spec fn pad_left(s: Seq<char>, width: nat) -> Seq<char> {
    if s.len() < width {
        spaces((width - s.len()) as nat) + s
    } else {
        s
    }
}

fn pad_left_exec(s: &str, width: usize) -> (r: String)
    ensures
        r@ == pad_left(s@, width as nat),
{
    let n = crate::text::chars_of(s).len();
    let mut r = String::new();
    let mut k = n;
    while k < width
        invariant
            n == s@.len(),
            n <= k <= width || (n > width && k == n),
            r@ == spaces((k - n) as nat),
        decreases width - k,
    {
        push_char(&mut r, ' ');
        assert(r@ =~= spaces((k + 1 - n) as nat));
        k = k + 1;
    }
    r.append(s);
    if n >= width {
        assert(r@ =~= s@);
    }
    r
}

pub open spec fn join_texts(parts: Seq<Seq<char>>, sep: Seq<char>) -> Seq<char>
    decreases parts.len(),
{
    if parts.len() == 0 {
        Seq::<char>::empty()
    } else if parts.len() == 1 {
        parts[0]
    } else {
        join_texts(parts.drop_last(), sep) + sep + parts.last()
    }
}

// ------------------------------------------------------------------
// The command line
// ------------------------------------------------------------------

/// A command of the command line.
#[derive(PartialEq, Eq, Debug)]
pub enum Command {
    Tui,
    Get,
    Json,
    SetMode,
    Help,
    Unknown(String),
}

pub enum CommandView {
    Tui,
    Get,
    Json,
    SetMode,
    Help,
    Unknown(Seq<char>),
}

impl View for Command {
    type V = CommandView;

    open spec fn view(&self) -> CommandView {
        match self {
            Command::Tui => CommandView::Tui,
            Command::Get => CommandView::Get,
            Command::Json => CommandView::Json,
            Command::SetMode => CommandView::SetMode,
            Command::Help => CommandView::Help,
            Command::Unknown(s) => CommandView::Unknown(s@),
        }
    }
}

pub open spec fn command_of_spec(word: Seq<char>) -> CommandView {
    if word == "tui"@ || word == ""@ {
        CommandView::Tui
    } else if word == "get"@ {
        CommandView::Get
    } else if word == "json"@ {
        CommandView::Json
    } else if word == "set"@ {
        CommandView::SetMode
    } else if word == "-h"@ || word == "--help"@ || word == "help"@ {
        CommandView::Help
    } else {
        CommandView::Unknown(word)
    }
}

/// The arguments after the program's name, as texts.
pub open spec fn args_view(args: Seq<String>) -> Seq<Seq<char>> {
    args.map_values(|a: String| a@)
}

/// The command that the arguments (after the program's name) name; none
/// at all means the terminal interface.
pub fn command_of(args: &Vec<String>) -> (c: Command)
    ensures
        c@ == command_of_spec(
            if args.len() > 0 {
                args@[0]@
            } else {
                "tui"@
            },
        ),
{
    let word: &str = if args.len() > 0 {
        args[0].as_str()
    } else {
        "tui"
    };
    if same_text(word, "tui") || same_text(word, "") {
        Command::Tui
    } else if same_text(word, "get") {
        Command::Get
    } else if same_text(word, "json") {
        Command::Json
    } else if same_text(word, "set") {
        Command::SetMode
    } else if same_text(word, "-h") || same_text(word, "--help") || same_text(word, "help") {
        Command::Help
    } else {
        Command::Unknown(String::from_str(word))
    }
}

/// Why `set` cannot go ahead.
#[derive(PartialEq, Eq, Debug)]
pub enum SetError {
    /// No mode was given.
    Usage,
    /// The mode is not one of the three.
    InvalidMode(String),
}

pub open spec fn is_power_mode(m: Seq<char>) -> bool {
    m == "quiet"@ || m == "balanced"@ || m == "performance"@
}

/// The mode that `set` selects: the argument after `set`, which must be
/// `quiet`, `balanced` or `performance`.
pub fn power_mode_arg(args: &Vec<String>) -> (r: Result<String, SetError>)
    ensures
        args.len() < 2 ==> r == Err::<String, SetError>(SetError::Usage),
        args.len() >= 2 && is_power_mode(args@[1]@) ==> (r matches Ok(m) && m@ == args@[1]@),
        args.len() >= 2 && !is_power_mode(args@[1]@) ==> (r matches Err(SetError::InvalidMode(m))
            && m@ == args@[1]@),
        args.len() >= 2 && (args@[1]@ == "quiet"@ || args@[1]@ == "balanced"@ || args@[1]@
            == "performance"@) ==> (r matches Ok(m) && m@ == args@[1]@),
        r matches Err(SetError::InvalidMode(m)) ==> m@ != "quiet"@ && m@ != "balanced"@ && m@
            != "performance"@,
{
    if args.len() < 2 {
        return Err(SetError::Usage);
    }
    let mode = args[1].as_str();
    if same_text(mode, "quiet") || same_text(mode, "balanced") || same_text(mode, "performance") {
        Ok(String::from_str(mode))
    } else {
        Err(SetError::InvalidMode(String::from_str(mode)))
    }
}

// ------------------------------------------------------------------
// The `get` report
// ------------------------------------------------------------------

pub open spec fn level_text(level: Option<u8>, default: Seq<char>) -> Seq<char> {
    match level {
        Some(l) => decimal(l as nat),
        None => default,
    }
}

pub open spec fn fan_line_spec(f: FanView) -> Seq<char> {
    f.label + ": "@ + pad_left(or_dash_spec(f.rpm), 5) + " rpm  mode "@ + text_or(f.mode, "-"@)
        + "  level "@ + level_text(f.level, "-"@)
}

fn level_text_exec(level: Option<u8>, default: &str) -> (r: String)
    ensures
        r@ == level_text(level, default@),
{
    match level {
        Some(l) => {
            let mut r = String::new();
            push_decimal(&mut r, l as u64);
            assert(r@ =~= decimal(l as nat));
            r
        },
        None => String::from_str(default),
    }
}

/// One fan's line of the `get` report.
pub fn fan_line(f: &crate::sysfs::Fan) -> (r: String)
    ensures
        r@ == fan_line_spec(f@),
{
    let mut r = f.label.clone();
    r.append(": ");
    let rpm = or_dash(f.rpm);
    let padded = pad_left_exec(rpm.as_str(), 5);
    r.append(padded.as_str());
    r.append(" rpm  mode ");
    let mode = text_or_exec(&f.mode, "-");
    r.append(mode.as_str());
    r.append("  level ");
    let level = level_text_exec(f.level, "-");
    r.append(level.as_str());
    r
}

/// The lines of the `get` report; `gpu_temp` and `apu_power` are the
/// caller's text for the two hwmon readings.
pub open spec fn get_report_spec(s: SnapshotView, gpu_temp: Seq<char>, apu_power: Seq<char>) -> Seq<
    Seq<char>,
> {
    seq![
        "power mode: "@ + text_or(s.power_mode, "?"@),
        "cpu temp:   "@ + (match s.cpu_temp {
            Some(v) => decimal(v as nat) + " C"@,
            None => "-"@,
        }),
        "gpu temp:   "@ + gpu_temp,
        "apu ppt:    "@ + apu_power,
    ] + s.fans.map_values(|f: FanView| fan_line_spec(f))
}

pub fn get_report(s: &Snapshot, gpu_temp: &str, apu_power: &str) -> (lines: Vec<String>)
    ensures
        lines@.map_values(|l: String| l@) == get_report_spec(s@, gpu_temp@, apu_power@),
        lines.len() == 4 + s.fans.len(),
        forall|i: int| 0 <= i < s.fans.len() ==> #[trigger] lines@[4 + i]@ == fan_line_spec(
            s@.fans[i],
        ),
{
    let mut lines: Vec<String> = Vec::new();
    let mut l0 = String::from_str("power mode: ");
    let pm = text_or_exec(&s.power_mode, "?");
    l0.append(pm.as_str());
    lines.push(l0);
    let mut l1 = String::from_str("cpu temp:   ");
    match s.cpu_temp {
        Some(v) => {
            push_decimal(&mut l1, v as u64);
            l1.append(" C");
            assert(l1@ =~= "cpu temp:   "@ + (decimal(v as nat) + " C"@));
        },
        None => {
            l1.append("-");
        },
    }
    lines.push(l1);
    let mut l2 = String::from_str("gpu temp:   ");
    l2.append(gpu_temp);
    lines.push(l2);
    let mut l3 = String::from_str("apu ppt:    ");
    l3.append(apu_power);
    lines.push(l3);
    let ghost head = get_report_spec(s@, gpu_temp@, apu_power@).take(4);
    assert(lines@.map_values(|l: String| l@)[1] == head[1]);
    assert(lines@.map_values(|l: String| l@) =~= head);
    let mut k: usize = 0;
    while k < s.fans.len()
        invariant
            k <= s.fans.len(),
            lines@.len() == 4 + k,
            lines@.map_values(|l: String| l@) =~= get_report_spec(s@, gpu_temp@, apu_power@).take(
                4 + k,
            ),
        decreases s.fans.len() - k,
    {
        let line = fan_line(&s.fans[k]);
        let ghost before = lines@.map_values(|l: String| l@);
        lines.push(line);
        assert(lines@.map_values(|l: String| l@) =~= before.push(line@));
        assert(get_report_spec(s@, gpu_temp@, apu_power@).take(5 + k) =~= get_report_spec(
            s@,
            gpu_temp@,
            apu_power@,
        ).take(4 + k).push(fan_line_spec(s@.fans[k as int])));
        k = k + 1;
    }
    assert(get_report_spec(s@, gpu_temp@, apu_power@).take(4 + s.fans.len()) =~= get_report_spec(
        s@,
        gpu_temp@,
        apu_power@,
    ));
    proof {
        law_get_report_lines(s@, gpu_temp@, apu_power@);
        assert forall|i: int| 0 <= i < s.fans.len() implies #[trigger] lines@[4 + i]@
            == fan_line_spec(s@.fans[i]) by {
            assert(lines@.map_values(|l: String| l@)[4 + i] == lines@[4 + i]@);
        }
    }
    lines
}

// ------------------------------------------------------------------
// The `json` report
// ------------------------------------------------------------------

pub open spec fn json_text(v: Option<Seq<char>>) -> Seq<char> {
    match v {
        Some(t) => "\""@ + t + "\""@,
        None => "null"@,
    }
}

pub open spec fn json_u32(v: Option<u32>) -> Seq<char> {
    match v {
        Some(x) => decimal(x as nat),
        None => "null"@,
    }
}

pub open spec fn json_curve(v: Option<Seq<i32>>) -> Seq<char> {
    match v {
        Some(c) => "["@ + join_csv_spec(c) + "]"@,
        None => "null"@,
    }
}

pub open spec fn fan_json_spec(f: FanView) -> Seq<char> {
    "{\"label\":\""@ + f.label + "\",\"rpm\":"@ + json_u32(f.rpm) + ",\"mode\":"@ + json_text(
        f.mode,
    ) + ",\"level\":"@ + level_text(f.level, "null"@) + ",\"rampup\":"@ + json_curve(f.rampup)
        + ",\"rampdown\":"@ + json_curve(f.rampdown) + "}"@
}

/// The `json` report, the caller giving the JSON text of the two hwmon
/// readings (a number or `null`).
pub open spec fn json_report_spec(s: SnapshotView, gpu_temp: Seq<char>, apu_power: Seq<char>) -> Seq<
    char,
> {
    "{\"power_mode\":"@ + json_text(s.power_mode) + ",\"cpu_temp\":"@ + json_u32(s.cpu_temp)
        + ",\"cpu_min\":"@ + json_u32(s.cpu_min) + ",\"cpu_max\":"@ + json_u32(s.cpu_max)
        + ",\"gpu_temp\":"@ + gpu_temp + ",\"apu_power\":"@ + apu_power + ",\"fans\":["@
        + join_texts(s.fans.map_values(|f: FanView| fan_json_spec(f)), ","@) + "]}"@
}

fn push_json_text(r: &mut String, v: &Option<String>)
    ensures
        final(r)@ == old(r)@ + json_text(v.deep_view()),
{
    match v {
        Some(t) => {
            r.append("\"");
            r.append(t.as_str());
            r.append("\"");
        },
        None => {
            r.append("null");
        },
    }
}

fn push_json_u32(r: &mut String, v: Option<u32>)
    ensures
        final(r)@ == old(r)@ + json_u32(v),
{
    match v {
        Some(x) => push_decimal(r, x as u64),
        None => r.append("null"),
    }
}

fn push_json_curve(r: &mut String, v: &Option<Vec<i32>>)
    ensures
        final(r)@ == old(r)@ + json_curve(v.deep_view()),
{
    match v {
        Some(c) => {
            assert(c.deep_view() =~= c@);
            r.append("[");
            let t = join_csv(c.as_slice());
            r.append(t.as_str());
            r.append("]");
        },
        None => {
            r.append("null");
        },
    }
}

fn fan_json(f: &crate::sysfs::Fan) -> (r: String)
    ensures
        r@ == fan_json_spec(f@),
{
    let mut r = String::from_str("{\"label\":\"");
    r.append(f.label.as_str());
    r.append("\",\"rpm\":");
    push_json_u32(&mut r, f.rpm);
    r.append(",\"mode\":");
    push_json_text(&mut r, &f.mode);
    r.append(",\"level\":");
    let level = level_text_exec(f.level, "null");
    r.append(level.as_str());
    r.append(",\"rampup\":");
    push_json_curve(&mut r, &f.rampup);
    r.append(",\"rampdown\":");
    push_json_curve(&mut r, &f.rampdown);
    r.append("}");
    r
}

/// The `json` report: the readings as one JSON object.
pub fn json_report(s: &Snapshot, gpu_temp: &str, apu_power: &str) -> (r: String)
    ensures
        r@ == json_report_spec(s@, gpu_temp@, apu_power@),
{
    let mut r = String::from_str("{\"power_mode\":");
    push_json_text(&mut r, &s.power_mode);
    r.append(",\"cpu_temp\":");
    push_json_u32(&mut r, s.cpu_temp);
    r.append(",\"cpu_min\":");
    push_json_u32(&mut r, s.cpu_min);
    r.append(",\"cpu_max\":");
    push_json_u32(&mut r, s.cpu_max);
    r.append(",\"gpu_temp\":");
    r.append(gpu_temp);
    r.append(",\"apu_power\":");
    r.append(apu_power);
    r.append(",\"fans\":[");
    let ghost prefix = r@;
    let ghost parts = s@.fans.map_values(|f: FanView| fan_json_spec(f));
    let mut k: usize = 0;
    assert(parts.take(0) =~= Seq::<Seq<char>>::empty());
    assert(r@ =~= prefix + join_texts(parts.take(0), ","@));
    while k < s.fans.len()
        invariant
            k <= s.fans.len(),
            parts == s@.fans.map_values(|f: FanView| fan_json_spec(f)),
            r@ == prefix + join_texts(parts.take(k as int), ","@),
        decreases s.fans.len() - k,
    {
        let ghost before = r@;
        if k > 0 {
            r.append(",");
        }
        let piece = fan_json(&s.fans[k]);
        r.append(piece.as_str());
        let ghost t = parts.take(k + 1);
        assert(t.drop_last() =~= parts.take(k as int));
        assert(t.last() == fan_json_spec(s@.fans[k as int]));
        if k > 0 {
            assert(r@ =~= prefix + (join_texts(parts.take(k as int), ","@) + ","@ + t.last()));
        } else {
            assert(r@ =~= prefix + t[0]);
        }
        k = k + 1;
    }
    assert(parts.take(s.fans.len() as int) =~= parts);
    r.append("]}");
    r
}

// ------------------------------------------------------------------
// The screen's wording
// ------------------------------------------------------------------

/// The colour that the header gives a power mode.
#[derive(Clone, Copy, PartialEq, Eq, Structural, Debug)]
pub enum ModeColor {
    Green,
    Yellow,
    Red,
    DarkGray,
}

pub open spec fn power_color_spec(mode: Seq<char>) -> ModeColor {
    if mode == "quiet"@ {
        ModeColor::Green
    } else if mode == "balanced"@ {
        ModeColor::Yellow
    } else if mode == "performance"@ {
        ModeColor::Red
    } else {
        ModeColor::DarkGray
    }
}

/// Quiet is green, balanced yellow, performance red, anything else grey.
pub fn power_color(mode: &str) -> (c: ModeColor)
    ensures
        c == power_color_spec(mode@),
{
    if same_text(mode, "quiet") {
        ModeColor::Green
    } else if same_text(mode, "balanced") {
        ModeColor::Yellow
    } else if same_text(mode, "performance") {
        ModeColor::Red
    } else {
        ModeColor::DarkGray
    }
}

pub open spec fn keymap_spec(f: Focus) -> Seq<char> {
    match f {
        Focus::Power => "1 quiet   2 balanced   3 performance   Tab focus   r refresh   q/ctrl+c quit"@,
        Focus::Fan(_) => "m mode   <- / -> level   u ramp-up   d ramp-down   Tab focus   r refresh   q/ctrl+c quit"@,
        Focus::Chart => "<- / -> switch fan/temp   Tab focus   r refresh   q/ctrl+c quit"@,
    }
}

/// The keys that the focused panel takes, for the footer.
pub fn keymap(f: Focus) -> (r: &'static str)
    ensures
        r@ == keymap_spec(f),
{
    match f {
        Focus::Power => "1 quiet   2 balanced   3 performance   Tab focus   r refresh   q/ctrl+c quit",
        Focus::Fan(_) => "m mode   <- / -> level   u ramp-up   d ramp-down   Tab focus   r refresh   q/ctrl+c quit",
        Focus::Chart => "<- / -> switch fan/temp   Tab focus   r refresh   q/ctrl+c quit",
    }
}

/// The top line of a fan's panel: its speed right-aligned, then its mode.
pub open spec fn fan_speed_text_spec(f: FanView) -> Seq<char> {
    pad_left(or_dash_spec(f.rpm), 5) + " rpm  "@
}

pub fn fan_speed_text(f: &crate::sysfs::Fan) -> (r: String)
    ensures
        r@ == fan_speed_text_spec(f@),
{
    let rpm = or_dash(f.rpm);
    let mut r = pad_left_exec(rpm.as_str(), 5);
    r.append(" rpm  ");
    r
}

pub open spec fn fan_mode_text_spec(f: FanView) -> Seq<char> {
    "["@ + text_or(f.mode, "?"@) + "]"@
}

pub fn fan_mode_text(f: &crate::sysfs::Fan) -> (r: String)
    ensures
        r@ == fan_mode_text_spec(f@),
{
    let mut r = String::from_str("[");
    let m = text_or_exec(&f.mode, "?");
    r.append(m.as_str());
    r.append("]");
    r
}

pub open spec fn fan_level_text_spec(f: FanView) -> Seq<char> {
    "level "@ + level_text(f.level, "0"@) + "/5"@
}

/// The label of a fan's level gauge (a missing level shows as 0).
pub fn fan_level_text(f: &crate::sysfs::Fan) -> (r: String)
    ensures
        r@ == fan_level_text_spec(f@),
{
    let mut r = String::from_str("level ");
    let l = level_text_exec(f.level, "0");
    r.append(l.as_str());
    r.append("/5");
    r
}

pub open spec fn curve_text(v: Option<Seq<i32>>) -> Seq<char> {
    match v {
        Some(c) => join_csv_spec(c),
        None => "-"@,
    }
}

pub open spec fn fan_curves_text_spec(f: FanView) -> Seq<char> {
    "up "@ + curve_text(f.rampup) + "  down "@ + curve_text(f.rampdown)
}

fn push_curve_text(r: &mut String, v: &Option<Vec<i32>>)
    ensures
        final(r)@ == old(r)@ + curve_text(v.deep_view()),
{
    match v {
        Some(c) => {
            assert(c.deep_view() =~= c@);
            let t = join_csv(c.as_slice());
            r.append(t.as_str());
        },
        None => r.append("-"),
    }
}

/// The bottom line of a fan's panel: both ramp curves.
pub fn fan_curves_text(f: &crate::sysfs::Fan) -> (r: String)
    ensures
        r@ == fan_curves_text_spec(f@),
{
    let mut r = String::from_str("up ");
    push_curve_text(&mut r, &f.rampup);
    r.append("  down ");
    push_curve_text(&mut r, &f.rampdown);
    r
}

/// The editor's line: its prompt, then what was typed.
pub fn input_line(input: &crate::app::Input) -> (r: String)
    ensures
        r@ == input.prompt@ + input.buffer@,
{
    let mut r = input.prompt.clone();
    r.append(input.buffer.as_str());
    r
}

/// The column of the editor's cursor: after the line's `shown_len`
/// characters, but within the `width` columns that start at `x`.
pub fn cursor_column(x: u16, width: u16, shown_len: usize) -> (c: u16)
    requires
        1 <= x + width <= u16::MAX,
    ensures
        c == if x + shown_len < x + width - 1 {
            x + shown_len
        } else {
            x + width - 1
        },
{
    let end = (x + width) as usize - 1;
    if end < x as usize {
        end as u16
    } else if shown_len < end - x as usize {
        (x as usize + shown_len) as u16
    } else {
        end as u16
    }
}

// ------------------------------------------------------------------
// Laws of the reports
// ------------------------------------------------------------------

/// `set` accepts exactly the three power modes.
pub proof fn law_power_modes(m: Seq<char>)
    ensures
        is_power_mode(m) <==> (m == "quiet"@ || m == "balanced"@ || m == "performance"@),
{
}

/// The `get` report has the four reading lines, then one line per fan,
/// every fan in order.
pub proof fn law_get_report_lines(s: SnapshotView, gpu_temp: Seq<char>, apu_power: Seq<char>)
    ensures
        get_report_spec(s, gpu_temp, apu_power).len() == 4 + s.fans.len(),
        get_report_spec(s, gpu_temp, apu_power)[0] == "power mode: "@ + text_or(s.power_mode, "?"@),
        get_report_spec(s, gpu_temp, apu_power)[2] == "gpu temp:   "@ + gpu_temp,
        get_report_spec(s, gpu_temp, apu_power)[3] == "apu ppt:    "@ + apu_power,
        forall|i: int|
            0 <= i < s.fans.len() ==> #[trigger] get_report_spec(s, gpu_temp, apu_power)[4 + i]
                == fan_line_spec(s.fans[i]),
{
}

/// The parts, each but the first preceded by the separator.
pub open spec fn with_separators(parts: Seq<Seq<char>>, sep: Seq<char>) -> Seq<Seq<char>> {
    Seq::new(
        parts.len(),
        |i: int|
            if i == 0 {
                parts[i]
            } else {
                sep + parts[i]
            },
    )
}

/// Joining puts exactly one separator between each consecutive pair of
/// parts and nowhere else: `n` parts get `n - 1` separators.
pub proof fn law_join_separates_every_pair(parts: Seq<Seq<char>>, sep: Seq<char>)
    ensures
        join_texts(parts, sep) == with_separators(parts, sep).flatten(),
    decreases parts.len(),
{
    if parts.len() == 0 {
        assert(with_separators(parts, sep) =~= Seq::<Seq<char>>::empty());
    } else if parts.len() == 1 {
        let w = with_separators(parts, sep);
        assert(w =~= seq![parts[0]]);
        w.lemma_flatten_one_element();
    } else {
        let p0 = parts.drop_last();
        law_join_separates_every_pair(p0, sep);
        let w = with_separators(parts, sep);
        assert(w =~= with_separators(p0, sep).push(sep + parts.last()));
        with_separators(p0, sep).lemma_flatten_push(sep + parts.last());
        assert(join_texts(parts, sep) == join_texts(p0, sep) + sep + parts.last());
        assert(join_texts(p0, sep) + sep + parts.last() =~= join_texts(p0, sep) + (sep
            + parts.last()));
    }
}

/// The `json` report's fields before the fans array.
pub open spec fn json_head(s: SnapshotView, gpu_temp: Seq<char>, apu_power: Seq<char>) -> Seq<char> {
    "{\"power_mode\":"@ + json_text(s.power_mode) + ",\"cpu_temp\":"@ + json_u32(s.cpu_temp)
        + ",\"cpu_min\":"@ + json_u32(s.cpu_min) + ",\"cpu_max\":"@ + json_u32(s.cpu_max)
        + ",\"gpu_temp\":"@ + gpu_temp + ",\"apu_power\":"@ + apu_power + ",\"fans\":["@
}

/// The fans array of the `json` report holds every fan's object in order,
/// with one comma between each consecutive pair.
pub proof fn law_json_fans_array(s: SnapshotView, gpu_temp: Seq<char>, apu_power: Seq<char>)
    ensures
        json_report_spec(s, gpu_temp, apu_power) == json_head(s, gpu_temp, apu_power)
            + with_separators(s.fans.map_values(|f: FanView| fan_json_spec(f)), ","@).flatten()
            + "]}"@,
{
    law_join_separates_every_pair(s.fans.map_values(|f: FanView| fan_json_spec(f)), ","@);
}

} // verus!
