//! The interactive controls: which panel has the focus, what a key does,
//! the curve editor, and the status line.
//!
//! A key is handled in one step: `App::on_key` updates the state and
//! returns a `Step`, the outside work the key asks for (a sysfs write, and
//! whether to refresh the readings afterwards). The caller performs the
//! write, reports how it went through `App::finish_write`, then refreshes.
use vstd::prelude::*;

use crate::sysfs::{
    curve_attr, fan_file_spec, join_csv, join_csv_spec, lemma_int_text_shape, lemma_join_shape, texts_of, power_mode_path_spec, set_fan_curve, set_fan_level,
    set_fan_mode, set_power_mode, FanView, Snapshot, SnapshotView, Write,
};
use crate::text::{
    chars_of, decimal, lemma_parse_int_text, parse_i32, parse_i32_spec, pop_char, push_char,
    push_decimal, same_text, split_on, trim, trim_range,
};

verus! {

/// The number of fans the board has.
pub const FAN_COUNT: usize = 3;

/// The number of temperature series in the graph (CPU, GPU).
pub const TEMP_SERIES: usize = 2;

/// The panel that keys go to.
#[derive(Clone, Copy, PartialEq, Eq, Structural, Debug)]
pub enum Focus {
    Power,
    Fan(usize),
    Chart,
}

/// What the graph shows.
#[derive(Clone, Copy, PartialEq, Eq, Structural, Debug)]
pub enum ChartMode {
    Temp,
    Fan,
}

/// The curve that the line being edited will set.
#[derive(Clone, Copy, PartialEq, Eq, Structural, Debug)]
pub enum InputTarget {
    FanCurveUp(usize),
    FanCurveDown(usize),
}

/// A line being edited at the bottom of the screen.
pub struct Input {
    pub prompt: String,
    pub buffer: String,
    pub target: InputTarget,
}

pub struct InputView {
    pub prompt: Seq<char>,
    pub buffer: Seq<char>,
    pub target: InputTarget,
}

impl View for Input {
    type V = InputView;

    open spec fn view(&self) -> InputView {
        InputView { prompt: self.prompt@, buffer: self.buffer@, target: self.target }
    }
}

/// The key of a key event.
#[derive(Clone, Copy, PartialEq, Eq, Structural, Debug)]
pub enum KeyCode {
    Char(char),
    Tab,
    BackTab,
    Enter,
    Esc,
    Backspace,
    Left,
    Right,
    Other,
}

/// A key event: the key, whether Control was held, and whether it is the
/// key's release.
#[derive(Clone, Copy, PartialEq, Eq, Structural, Debug)]
pub struct Key {
    pub code: KeyCode,
    pub ctrl: bool,
    pub release: bool,
}

/// The state of the controls.
pub struct App {
    pub snap: Snapshot,
    pub focus: Focus,
    pub status: String,
    pub running: bool,
    pub input: Option<Input>,
    pub chart_mode: ChartMode,
}

pub struct AppView {
    pub snap: SnapshotView,
    pub focus: Focus,
    pub status: Seq<char>,
    pub running: bool,
    pub input: Option<InputView>,
    pub chart_mode: ChartMode,
}

pub open spec fn input_view(i: Option<Input>) -> Option<InputView> {
    match i {
        Some(i) => Some(i@),
        None => None,
    }
}

impl View for App {
    type V = AppView;

    open spec fn view(&self) -> AppView {
        AppView {
            snap: self.snap@,
            focus: self.focus,
            status: self.status@,
            running: self.running,
            input: input_view(self.input),
            chart_mode: self.chart_mode,
        }
    }
}

/// A write that a key asks for, with the status line to show once it
/// succeeded, and whether a failure message adds the permissions hint.
pub struct PendingWrite {
    pub write: Write,
    pub done: String,
    pub hint: bool,
}

pub struct PendingView {
    pub path: Seq<char>,
    pub value: Seq<char>,
    pub done: Seq<char>,
    pub hint: bool,
}

impl View for PendingWrite {
    type V = PendingView;

    open spec fn view(&self) -> PendingView {
        PendingView {
            path: self.write.path@,
            value: self.write.value@,
            done: self.done@,
            hint: self.hint,
        }
    }
}

/// The outside work a key asks for: a write, then (if `refresh`) reading
/// the driver's attributes again.
pub struct Step {
    pub write: Option<PendingWrite>,
    pub refresh: bool,
}

pub struct StepView {
    pub write: Option<PendingView>,
    pub refresh: bool,
}

impl View for Step {
    type V = StepView;

    open spec fn view(&self) -> StepView {
        StepView {
            write: match self.write {
                Some(p) => Some(p@),
                None => None,
            },
            refresh: self.refresh,
        }
    }
}

pub open spec fn no_step() -> StepView {
    StepView { write: None, refresh: false }
}

pub open spec fn refresh_step() -> StepView {
    StepView { write: None, refresh: true }
}

fn quiet_step() -> (s: Step)
    ensures
        s@ == no_step(),
{
    Step { write: None, refresh: false }
}

fn refreshing_step() -> (s: Step)
    ensures
        s@ == refresh_step(),
{
    Step { write: None, refresh: true }
}

// ------------------------------------------------------------------
// Focus and graph mode
// ------------------------------------------------------------------

/// Rust's `%` on integers: the remainder takes the sign of the dividend.
pub open spec fn rem_toward_zero(a: int, b: int) -> int {
    if a >= 0 {
        a % b
    } else {
        -((-a) % b)
    }
}

/// Whether `f` is one of the panels on screen.
pub open spec fn focus_valid(f: Focus) -> bool {
    f matches Focus::Fan(i) ==> i < FAN_COUNT
}

/// The position of a panel in the Tab order: power, the fans, the graph.
pub open spec fn focus_index_spec(f: Focus) -> int {
    match f {
        Focus::Power => 0,
        Focus::Fan(i) => (i as i32) + 1,
        Focus::Chart => FAN_COUNT + 1,
    }
}

/// The panel at position `m` of the Tab order.
pub open spec fn focus_at(m: int) -> Focus {
    if m == 0 {
        Focus::Power
    } else if m == FAN_COUNT + 1 {
        Focus::Chart
    } else {
        Focus::Fan((m - 1) as usize)
    }
}

/// The panel `dir` steps away from `f` in the Tab order, wrapping around.
pub open spec fn cycle_spec(f: Focus, dir: i32) -> Focus {
    let total = FAN_COUNT + 2;
    focus_at(rem_toward_zero(rem_toward_zero(focus_index_spec(f) + dir, total) + total, total))
}

/// Moving `dir` steps from `f` stays within `i32`.
pub open spec fn cycle_ok(f: Focus, dir: i32) -> bool {
    &&& f matches Focus::Fan(i) ==> (i as i32) < i32::MAX
    &&& i32::MIN <= focus_index_spec(f) + dir <= i32::MAX
}

pub open spec fn toggled(m: ChartMode) -> ChartMode {
    match m {
        ChartMode::Temp => ChartMode::Fan,
        ChartMode::Fan => ChartMode::Temp,
    }
}

pub open spec fn ready_status(driver_present: bool) -> Seq<char> {
    if driver_present {
        "ready"@
    } else {
        "ec_su_axb35 driver not loaded"@
    }
}

/// The status line once a write finished: its own message on success;
/// otherwise the error, with the permissions hint where asked for.
pub open spec fn write_status(p: PendingView, error: Option<Seq<char>>) -> Seq<char> {
    match error {
        None => p.done,
        Some(e) => "write failed: "@ + e + if p.hint {
            " (need video group?)"@
        } else {
            Seq::<char>::empty()
        },
    }
}

impl App {
    /// The controls over the first readings: the power panel has the focus,
    /// the graph shows temperatures, and the status line says whether the
    /// driver is there.
    pub fn new(snap: Snapshot) -> (app: App)
        ensures
            app@ == (AppView {
                snap: snap@,
                focus: Focus::Power,
                status: ready_status(snap.driver_present),
                running: true,
                input: None,
                chart_mode: ChartMode::Temp,
            }),
    {
        let status = if snap.driver_present {
            String::from_str("ready")
        } else {
            String::from_str("ec_su_axb35 driver not loaded")
        };
        App {
            snap,
            focus: Focus::Power,
            status,
            running: true,
            input: None,
            chart_mode: ChartMode::Temp,
        }
    }

    fn focus_index(&self) -> (r: i32)
        requires
            self.focus matches Focus::Fan(i) ==> (i as i32) < i32::MAX,
        ensures
            r == focus_index_spec(self.focus),
    {
        match self.focus {
            Focus::Power => 0,
            Focus::Fan(i) => i as i32 + 1,
            Focus::Chart => FAN_COUNT as i32 + 1,
        }
    }

    /// Moves the focus `dir` steps along power, fan 1..3, graph, wrapping.
    pub fn cycle_focus(&mut self, dir: i32)
        requires
            cycle_ok(old(self).focus, dir),
        ensures
            final(self)@ == (AppView { focus: cycle_spec(old(self).focus, dir), ..old(self)@ }),
    {
        let total = (FAN_COUNT + 2) as i32;
        let m = ((self.focus_index() + dir) % total + total) % total;
        self.focus = if m == 0 {
            Focus::Power
        } else if m == total - 1 {
            Focus::Chart
        } else {
            Focus::Fan((m - 1) as usize)
        };
    }

    /// Switches the graph between temperatures and fan speeds.
    pub fn toggle_chart_mode(&mut self)
        ensures
            final(self)@ == (AppView { chart_mode: toggled(old(self).chart_mode), ..old(self)@ }),
    {
        self.chart_mode = match self.chart_mode {
            ChartMode::Temp => ChartMode::Fan,
            ChartMode::Fan => ChartMode::Temp,
        };
    }

    /// Reports how the write of a step went: `Ok`, or the error's message.
    pub fn finish_write(&mut self, pending: &PendingWrite, outcome: &Result<(), String>)
        ensures
            final(self)@ == (AppView {
                status: write_status(
                    pending@,
                    match outcome {
                        Ok(_) => None,
                        Err(e) => Some(e@),
                    },
                ),
                ..old(self)@
            }),
    {
        match outcome {
            Ok(()) => {
                self.status = pending.done.clone();
            },
            Err(e) => {
                let mut s = String::from_str("write failed: ");
                s.append(e.as_str());
                if pending.hint {
                    s.append(" (need video group?)");
                } else {
                    assert(s@ + Seq::<char>::empty() =~= s@);
                }
                self.status = s;
            },
        }
    }
}

// ------------------------------------------------------------------
// Laws of the focus and the graph mode
// ------------------------------------------------------------------

proof fn lemma_rem5(x: int)
    requires
        -0x8000_0000 <= x < 0x8000_0000,
    ensures
        rem_toward_zero(rem_toward_zero(x, 5) + 5, 5) == x % 5,
{
}

/// Moving the focus lands on a panel on screen, at the position `dir`
/// steps along the Tab order, wrapping around.
pub proof fn law_cycle_position(f: Focus, dir: i32)
    requires
        cycle_ok(f, dir),
    ensures
        focus_valid(cycle_spec(f, dir)),
        focus_valid(f) ==> focus_index_spec(cycle_spec(f, dir)) == (focus_index_spec(f) + dir)
            % (FAN_COUNT + 2) as int,
{
    let x = focus_index_spec(f) + dir;
    lemma_rem5(x);
    let m = x % 5;
    assert(0 <= m < 5);
    if m != 0 && m != 4 {
        assert(((m - 1) as usize) as i32 == m - 1);
    }
}

/// Moving the focus back undoes moving it forward.
pub proof fn law_cycle_round_trip(f: Focus, dir: i32)
    requires
        focus_valid(f),
        -0x4000_0000 <= dir <= 0x4000_0000,
    ensures
        cycle_ok(f, dir),
        cycle_ok(cycle_spec(f, dir), -dir as i32),
        cycle_spec(cycle_spec(f, dir), -dir as i32) == f,
{
    if let Focus::Fan(i) = f {
        assert((i as i32) == i);
    }
    law_cycle_position(f, dir);
    let g = cycle_spec(f, dir);
    if let Focus::Fan(j) = g {
        assert((j as i32) == j);
    }
    law_cycle_position(g, -dir as i32);
    let h = cycle_spec(g, -dir as i32);
    let a = focus_index_spec(f);
    let b = focus_index_spec(g);
    assert(b == (a + dir) % 5);
    assert((b - dir) % 5 == a) by (nonlinear_arith)
        requires
            b == (a + dir) % 5,
            0 <= a < 5,
    ;
    if let Focus::Fan(k) = h {
        assert((k as i32) == k);
    }
}

/// Switching the graph twice shows what it showed.
pub proof fn law_toggle_twice(m: ChartMode)
    ensures
        toggled(toggled(m)) == m,
{
}

// ------------------------------------------------------------------
// What a key does
// ------------------------------------------------------------------

/// The mode that `m` selects after `cur`: auto, fixed, curve, then auto.
pub open spec fn next_mode(cur: Seq<char>) -> Seq<char> {
    if cur == "auto"@ {
        "fixed"@
    } else if cur == "fixed"@ {
        "curve"@
    } else {
        "auto"@
    }
}

/// How a key moves a fan's level: up by one, down by one, or not at all.
pub open spec fn level_delta(code: KeyCode) -> int {
    if code == KeyCode::Right || code == KeyCode::Char('+') || code == KeyCode::Char('=') {
        1
    } else if code == KeyCode::Left || code == KeyCode::Char('-') {
        -1
    } else {
        0
    }
}

/// A fan's level as the signed byte that the adjustment starts from
/// (none counts as 0).
pub open spec fn level_base(fan: FanView) -> int {
    (match fan.level {
        Some(l) => l,
        None => 0u8,
    } as i8) as int
}

/// `x` held to the levels 0..=5.
pub open spec fn clamp_level(x: int) -> u8 {
    if x < 0 {
        0
    } else if x > 5 {
        5
    } else {
        x as u8
    }
}

pub open spec fn curve_of(fan: FanView, up: bool) -> Option<Seq<i32>> {
    if up {
        fan.rampup
    } else {
        fan.rampdown
    }
}

pub open spec fn curve_prompt(label: Seq<char>, up: bool) -> Seq<char> {
    label + " "@ + (if up {
        "ramp-up"@
    } else {
        "ramp-down"@
    }) + " curve (5 vals 0-100, comma-sep): "@
}

/// The editor opened on a fan's curve: its prompt, the curve as it stands,
/// and the curve it will set.
pub open spec fn curve_input(fan: FanView, i: usize, up: bool) -> InputView {
    InputView {
        prompt: curve_prompt(fan.label, up),
        buffer: match curve_of(fan, up) {
            Some(v) => join_csv_spec(v),
            None => Seq::<char>::empty(),
        },
        target: if up {
            InputTarget::FanCurveUp(i)
        } else {
            InputTarget::FanCurveDown(i)
        },
    }
}

pub open spec fn write_step(path: Seq<char>, value: Seq<char>, done: Seq<char>, hint: bool) -> StepView {
    StepView {
        write: Some(PendingView { path, value, done, hint }),
        refresh: true,
    }
}

pub open spec fn power_step(pre: AppView, mode: Seq<char>) -> (AppView, StepView) {
    (pre, write_step(power_mode_path_spec(), mode, "power mode -> "@ + mode, true))
}

/// A key on the panel of fan `i`.
pub open spec fn fan_key_step(pre: AppView, i: usize, code: KeyCode) -> (AppView, StepView) {
    let fan = pre.snap.fans[i as int];
    let label = fan.label;
    if code == KeyCode::Char('m') {
        let next = next_mode(
            match fan.mode {
                Some(m) => m,
                None => Seq::<char>::empty(),
            },
        );
        (pre, write_step(fan_file_spec(i as nat, "mode"@), next, label + " mode -> "@ + next, false))
    } else if level_delta(code) != 0 {
        let level = clamp_level(level_base(fan) + level_delta(code));
        (
            pre,
            write_step(
                fan_file_spec(i as nat, "level"@),
                decimal(level as nat),
                label + " level -> "@ + decimal(level as nat),
                false,
            ),
        )
    } else if code == KeyCode::Char('u') || code == KeyCode::Char('d') {
        (
            AppView { input: Some(curve_input(fan, i, code == KeyCode::Char('u'))), ..pre },
            refresh_step(),
        )
    } else {
        (pre, refresh_step())
    }
}

/// The values typed in the editor: comma-separated pieces, trimmed, blank
/// ones skipped, and each that is not an `i32` counted as -1.
pub open spec fn entry_items(pieces: Seq<Seq<char>>) -> Seq<i32>
    decreases pieces.len(),
{
    if pieces.len() == 0 {
        Seq::<i32>::empty()
    } else {
        let rest = entry_items(pieces.drop_last());
        let t = trim(pieces.last());
        if t.len() == 0 {
            rest
        } else {
            rest.push(
                match parse_i32_spec(t) {
                    Some(v) => v,
                    None => -1i32,
                },
            )
        }
    }
}

pub open spec fn curve_entries(buffer: Seq<char>) -> Seq<i32> {
    entry_items(split_on(buffer, ','))
}

/// A curve the driver takes: five values from 0 to 100.
pub open spec fn valid_curve(v: Seq<i32>) -> bool {
    v.len() == 5 && forall|k: int| 0 <= k < 5 ==> 0 <= #[trigger] v[k] <= 100
}

pub open spec fn target_fan(t: InputTarget) -> usize {
    match t {
        InputTarget::FanCurveUp(i) => i,
        InputTarget::FanCurveDown(i) => i,
    }
}

pub open spec fn target_up(t: InputTarget) -> bool {
    t is FanCurveUp
}

/// Enter in the editor: the editor closes; a valid curve is written to
/// the fan, anything else only gets a complaint.
pub open spec fn commit_step(pre: AppView) -> (AppView, StepView) {
    let input = pre.input.unwrap();
    let vals = curve_entries(input.buffer);
    let closed = AppView { input: None, ..pre };
    if !valid_curve(vals) {
        (
            AppView {
                status: "invalid curve: need 5 values 0-100 (got '"@ + input.buffer + "')"@,
                ..closed
            },
            no_step(),
        )
    } else {
        let i = target_fan(input.target);
        let up = target_up(input.target);
        let label = pre.snap.fans[i as int].label;
        (
            closed,
            write_step(
                fan_file_spec(i as nat, curve_attr(up)),
                join_csv_spec(vals),
                label + " curve set to "@ + join_csv_spec(vals),
                false,
            ),
        )
    }
}

/// A key while the editor is open.
pub open spec fn input_key_step(pre: AppView, code: KeyCode) -> (AppView, StepView) {
    let input = pre.input.unwrap();
    match code {
        KeyCode::Esc => (AppView { input: None, status: "input cancelled"@, ..pre }, no_step()),
        KeyCode::Enter => commit_step(pre),
        KeyCode::Backspace => (
            AppView {
                input: Some(
                    InputView {
                        buffer: if input.buffer.len() > 0 {
                            input.buffer.drop_last()
                        } else {
                            input.buffer
                        },
                        ..input
                    },
                ),
                ..pre
            },
            no_step(),
        ),
        KeyCode::Char(c) => (
            AppView { input: Some(InputView { buffer: input.buffer.push(c), ..input }), ..pre },
            no_step(),
        ),
        _ => (pre, no_step()),
    }
}

/// What a key does to the controls, and the outside work it asks for.
pub open spec fn key_step(pre: AppView, key: Key) -> (AppView, StepView) {
    let code = key.code;
    if key.release {
        (pre, no_step())
    } else if key.ctrl && code == KeyCode::Char('c') {
        (AppView { running: false, ..pre }, no_step())
    } else if pre.input is Some {
        input_key_step(pre, code)
    } else if code == KeyCode::Char('q') || code == KeyCode::Esc {
        (AppView { running: false, ..pre }, no_step())
    } else if code == KeyCode::Tab {
        (AppView { focus: cycle_spec(pre.focus, 1), ..pre }, no_step())
    } else if code == KeyCode::BackTab {
        (AppView { focus: cycle_spec(pre.focus, -1i32), ..pre }, no_step())
    } else if code == KeyCode::Char('r') {
        (AppView { status: "refreshed"@, ..pre }, refresh_step())
    } else if code == KeyCode::Char('1') {
        power_step(pre, "quiet"@)
    } else if code == KeyCode::Char('2') {
        power_step(pre, "balanced"@)
    } else if code == KeyCode::Char('3') {
        power_step(pre, "performance"@)
    } else {
        match pre.focus {
            Focus::Fan(i) => fan_key_step(pre, i, code),
            Focus::Chart => if code == KeyCode::Left || code == KeyCode::Right {
                (AppView { chart_mode: toggled(pre.chart_mode), ..pre }, no_step())
            } else {
                (pre, no_step())
            },
            Focus::Power => (pre, no_step()),
        }
    }
}

/// The keys that can be handled in state `pre` without indexing past the
/// fans read, and without the level or focus arithmetic overflowing.
pub open spec fn key_safe(pre: AppView, key: Key) -> bool {
    let code = key.code;
    if key.release || (key.ctrl && code == KeyCode::Char('c')) {
        true
    } else if pre.input is Some {
        (code == KeyCode::Enter && valid_curve(curve_entries(pre.input.unwrap().buffer)))
            ==> target_fan(pre.input.unwrap().target) < pre.snap.fans.len()
    } else if code == KeyCode::Char('q') || code == KeyCode::Esc || code == KeyCode::Char('r')
        || code == KeyCode::Char('1') || code == KeyCode::Char('2') || code == KeyCode::Char(
        '3',
    ) {
        true
    } else if code == KeyCode::Tab {
        cycle_ok(pre.focus, 1)
    } else if code == KeyCode::BackTab {
        cycle_ok(pre.focus, -1i32)
    } else {
        match pre.focus {
            Focus::Fan(i) => i < pre.snap.fans.len() && (level_delta(code) != 0 ==> i8::MIN
                <= level_base(pre.snap.fans[i as int]) + level_delta(code) <= i8::MAX),
            _ => true,
        }
    }
}

/// The mode after `cur`.
fn next_fan_mode(cur: &str) -> (r: &'static str)
    ensures
        r@ == next_mode(cur@),
{
    if same_text(cur, "auto") {
        "fixed"
    } else if same_text(cur, "fixed") {
        "curve"
    } else {
        "auto"
    }
}

/// The values typed in the editor, as `curve_entries` reads them.
pub fn parse_entries(buffer: &str) -> (v: Vec<i32>)
    ensures
        v@ == curve_entries(buffer@),
{
    let cs = chars_of(buffer);
    let n = cs.len();
    let mut out: Vec<i32> = Vec::new();
    let mut p: usize = 0;
    let mut k: usize = 0;
    proof {
        assert(cs@.subrange(0, 0) =~= Seq::<char>::empty());
        assert(split_on(Seq::<char>::empty(), ',') == seq![Seq::<char>::empty()]);
        assert(seq![Seq::<char>::empty()].drop_last() =~= Seq::<Seq<char>>::empty());
    }
    while k < n
        invariant
            p <= k <= n == cs.len(),
            split_on(cs@.subrange(0, k as int), ',').len() >= 1,
            out@ == entry_items(split_on(cs@.subrange(0, k as int), ',').drop_last()),
            split_on(cs@.subrange(0, k as int), ',').last() == cs@.subrange(p as int, k as int),
        decreases n - k,
    {
        let ghost pre = cs@.subrange(0, k as int);
        let ghost next = cs@.subrange(0, k + 1);
        let ghost sp = split_on(pre, ',');
        assert(next.drop_last() =~= pre);
        assert(next.last() == cs@[k as int]);
        if cs[k] == ',' {
            let (x, y) = trim_range(&cs, p, k);
            if x < y {
                let v = match parse_i32(&cs, x, y) {
                    Some(v) => v,
                    None => -1,
                };
                out.push(v);
            }
            proof {
                assert(split_on(next, ',') == sp.push(Seq::<char>::empty()));
                assert(sp.push(Seq::<char>::empty()).drop_last() =~= sp);
                assert(cs@.subrange(k + 1, k + 1) =~= Seq::<char>::empty());
            }
            p = k + 1;
        } else {
            proof {
                let q = split_on(next, ',');
                assert(q == sp.update(sp.len() - 1, sp.last().push(cs@[k as int])));
                assert(q.drop_last() =~= sp.drop_last());
                assert(sp.last().push(cs@[k as int]) =~= cs@.subrange(p as int, k + 1));
            }
        }
        k = k + 1;
    }
    assert(cs@.subrange(0, n as int) =~= buffer@);
    let (x, y) = trim_range(&cs, p, n);
    if x < y {
        let v = match parse_i32(&cs, x, y) {
            Some(v) => v,
            None => -1,
        };
        out.push(v);
    }
    out
}

/// Whether the values make a curve the driver takes.
pub fn is_valid_curve(v: &Vec<i32>) -> (b: bool)
    ensures
        b == valid_curve(v@),
        b <==> (v.len() == 5 && forall|k: int| 0 <= k < v.len() ==> 0 <= #[trigger] v@[k] <= 100),
{
    if v.len() != 5 {
        return false;
    }
    let mut k: usize = 0;
    while k < 5
        invariant
            v.len() == 5,
            k <= 5,
            forall|j: int| 0 <= j < k ==> 0 <= #[trigger] v@[j] <= 100,
        decreases 5 - k,
    {
        if v[k] < 0 || v[k] > 100 {
            return false;
        }
        k = k + 1;
    }
    true
}

fn level_delta_of(code: KeyCode) -> (d: i8)
    ensures
        d == level_delta(code),
{
    if code == KeyCode::Right || code == KeyCode::Char('+') || code == KeyCode::Char('=') {
        1
    } else if code == KeyCode::Left || code == KeyCode::Char('-') {
        -1
    } else {
        0
    }
}

impl App {
    fn cycle_fits(&self, dir: i32) -> (b: bool)
        ensures
            b == cycle_ok(self.focus, dir),
    {
        let index: i64 = match self.focus {
            Focus::Power => 0,
            Focus::Fan(i) => {
                let x = i as i32;
                if x == i32::MAX {
                    return false;
                }
                x as i64 + 1
            },
            Focus::Chart => FAN_COUNT as i64 + 1,
        };
        let sum = index + dir as i64;
        i32::MIN as i64 <= sum && sum <= i32::MAX as i64
    }

    /// Whether `key` can be handled now: `on_key` needs `key_safe`.
    pub fn handles_key(&self, key: Key) -> (b: bool)
        ensures
            b == key_safe(self@, key),
    {
        let code = key.code;
        if key.release || (key.ctrl && code == KeyCode::Char('c')) {
            return true;
        }
        match &self.input {
            Some(input) => {
                if code == KeyCode::Enter {
                    let vals = parse_entries(input.buffer.as_str());
                    if is_valid_curve(&vals) {
                        let i = match input.target {
                            InputTarget::FanCurveUp(i) => i,
                            InputTarget::FanCurveDown(i) => i,
                        };
                        return i < self.snap.fans.len();
                    }
                }
                return true;
            },
            None => {},
        }
        if code == KeyCode::Char('q') || code == KeyCode::Esc || code == KeyCode::Char('r')
            || code == KeyCode::Char('1') || code == KeyCode::Char('2') || code == KeyCode::Char(
            '3',
        ) {
            true
        } else if code == KeyCode::Tab {
            self.cycle_fits(1)
        } else if code == KeyCode::BackTab {
            self.cycle_fits(-1)
        } else {
            match self.focus {
                Focus::Fan(i) => {
                    if i >= self.snap.fans.len() {
                        return false;
                    }
                    let d = level_delta_of(code);
                    if d == 0 {
                        return true;
                    }
                    let cur = match self.snap.fans[i].level {
                        Some(l) => l,
                        None => 0,
                    } as i8;
                    let x = cur as i16 + d as i16;
                    i8::MIN as i16 <= x && x <= i8::MAX as i16
                },
                _ => true,
            }
        }
    }

    /// Handles one key; returns the outside work it asks for.
    pub fn on_key(&mut self, key: Key) -> (step: Step)
        requires
            key_safe(old(self)@, key),
        ensures
            (final(self)@, step@) == key_step(old(self)@, key),
    {
        if key.release {
            return quiet_step();
        }
        if key.ctrl && key.code == KeyCode::Char('c') {
            self.running = false;
            return quiet_step();
        }
        if self.input.is_some() {
            return self.on_input_key(key.code);
        }
        match key.code {
            KeyCode::Char('q') | KeyCode::Esc => {
                self.running = false;
                quiet_step()
            },
            KeyCode::Tab => {
                self.cycle_focus(1);
                quiet_step()
            },
            KeyCode::BackTab => {
                self.cycle_focus(-1);
                quiet_step()
            },
            KeyCode::Char('r') => {
                self.status = String::from_str("refreshed");
                refreshing_step()
            },
            KeyCode::Char('1') => self.set_power("quiet"),
            KeyCode::Char('2') => self.set_power("balanced"),
            KeyCode::Char('3') => self.set_power("performance"),
            _ => match self.focus {
                Focus::Fan(i) => self.on_fan_key(i, key.code),
                Focus::Chart => {
                    if key.code == KeyCode::Left || key.code == KeyCode::Right {
                        self.toggle_chart_mode();
                    }
                    quiet_step()
                },
                Focus::Power => quiet_step(),
            },
        }
    }

    fn on_input_key(&mut self, code: KeyCode) -> (step: Step)
        requires
            old(self).input is Some,
            (code == KeyCode::Enter && valid_curve(curve_entries(old(self)@.input.unwrap().buffer)))
                ==> target_fan(old(self)@.input.unwrap().target) < old(self).snap.fans.len(),
        ensures
            (final(self)@, step@) == input_key_step(old(self)@, code),
    {
        match code {
            KeyCode::Esc => {
                self.input = None;
                self.status = String::from_str("input cancelled");
                quiet_step()
            },
            KeyCode::Enter => self.commit_input(),
            KeyCode::Backspace => {
                let mut input = self.input.take().unwrap();
                let _ = pop_char(&mut input.buffer);
                self.input = Some(input);
                quiet_step()
            },
            KeyCode::Char(c) => {
                let mut input = self.input.take().unwrap();
                push_char(&mut input.buffer, c);
                self.input = Some(input);
                quiet_step()
            },
            _ => quiet_step(),
        }
    }

    fn set_power(&self, mode: &str) -> (step: Step)
        ensures
            step@ == write_step(power_mode_path_spec(), mode@, "power mode -> "@ + mode@, true),
    {
        let mut done = String::from_str("power mode -> ");
        done.append(mode);
        Step {
            write: Some(PendingWrite { write: set_power_mode(mode), done, hint: true }),
            refresh: true,
        }
    }

    fn on_fan_key(&mut self, i: usize, code: KeyCode) -> (step: Step)
        requires
            i < old(self).snap.fans.len(),
            level_delta(code) != 0 ==> i8::MIN <= level_base(old(self)@.snap.fans[i as int])
                + level_delta(code) <= i8::MAX,
        ensures
            (final(self)@, step@) == fan_key_step(old(self)@, i, code),
    {
        let ghost fan = self@.snap.fans[i as int];
        assert(fan == self.snap.fans@[i as int]@);
        let label = self.snap.fans[i].label.clone();
        if code == KeyCode::Char('m') {
            let cur = match &self.snap.fans[i].mode {
                Some(m) => m.clone(),
                None => String::new(),
            };
            let next = next_fan_mode(cur.as_str());
            let mut done = label;
            done.append(" mode -> ");
            done.append(next);
            return Step {
                write: Some(PendingWrite { write: set_fan_mode(i, next), done, hint: false }),
                refresh: true,
            };
        }
        let d = level_delta_of(code);
        if d != 0 {
            return self.adjust_level(i, d, label);
        }
        if code == KeyCode::Char('u') {
            self.start_curve_input(i, true);
        } else if code == KeyCode::Char('d') {
            self.start_curve_input(i, false);
        }
        refreshing_step()
    }

    fn adjust_level(&self, i: usize, delta: i8, label: String) -> (step: Step)
        requires
            i < self.snap.fans.len(),
            delta == 1 || delta == -1,
            i8::MIN <= level_base(self@.snap.fans[i as int]) + delta <= i8::MAX,
            label@ == self@.snap.fans[i as int].label,
        ensures
            ({
                let level = clamp_level(level_base(self@.snap.fans[i as int]) + delta);
                step@ == write_step(
                    fan_file_spec(i as nat, "level"@),
                    decimal(level as nat),
                    label@ + " level -> "@ + decimal(level as nat),
                    false,
                )
            }),
    {
        let cur = match self.snap.fans[i].level {
            Some(l) => l,
            None => 0,
        } as i8;
        let x = cur + delta;
        let level: u8 = if x < 0 {
            0
        } else if x > 5 {
            5
        } else {
            x as u8
        };
        let mut done = label;
        done.append(" level -> ");
        push_decimal(&mut done, level as u64);
        Step {
            write: Some(PendingWrite { write: set_fan_level(i, level), done, hint: false }),
            refresh: true,
        }
    }

    fn start_curve_input(&mut self, i: usize, up: bool)
        requires
            i < old(self).snap.fans.len(),
        ensures
            final(self)@ == (AppView {
                input: Some(curve_input(old(self)@.snap.fans[i as int], i, up)),
                ..old(self)@
            }),
    {
        let ghost fan = self@.snap.fans[i as int];
        assert(fan == self.snap.fans@[i as int]@);
        let fan = &self.snap.fans[i];
        let current = if up {
            &fan.rampup
        } else {
            &fan.rampdown
        };
        let buffer = match current {
            Some(v) => {
                assert(v.deep_view() =~= v@);
                join_csv(v.as_slice())
            },
            None => String::new(),
        };
        let mut prompt = fan.label.clone();
        prompt.append(" ");
        prompt.append(
            if up {
                "ramp-up"
            } else {
                "ramp-down"
            },
        );
        prompt.append(" curve (5 vals 0-100, comma-sep): ");
        let target = if up {
            InputTarget::FanCurveUp(i)
        } else {
            InputTarget::FanCurveDown(i)
        };
        self.input = Some(Input { prompt, buffer, target });
    }

    fn commit_input(&mut self) -> (step: Step)
        requires
            old(self).input is Some,
            valid_curve(curve_entries(old(self)@.input.unwrap().buffer)) ==> target_fan(
                old(self)@.input.unwrap().target,
            ) < old(self).snap.fans.len(),
        ensures
            (final(self)@, step@) == commit_step(old(self)@),
    {
        let input = self.input.take().unwrap();
        let vals = parse_entries(input.buffer.as_str());
        if !is_valid_curve(&vals) {
            let mut s = String::from_str("invalid curve: need 5 values 0-100 (got '");
            s.append(input.buffer.as_str());
            s.append("')");
            self.status = s;
            return quiet_step();
        }
        let (i, up) = match input.target {
            InputTarget::FanCurveUp(i) => (i, true),
            InputTarget::FanCurveDown(i) => (i, false),
        };
        let ghost fan = self@.snap.fans[i as int];
        assert(fan == self.snap.fans@[i as int]@);
        let mut done = self.snap.fans[i].label.clone();
        done.append(" curve set to ");
        let text = join_csv(vals.as_slice());
        done.append(text.as_str());
        Step {
            write: Some(
                PendingWrite { write: set_fan_curve(i, up, vals.as_slice()), done, hint: false },
            ),
            refresh: true,
        }
    }
}

// ------------------------------------------------------------------
// Laws of the keys
// ------------------------------------------------------------------

/// A key's release does nothing.
pub proof fn law_release_ignored(pre: AppView, key: Key)
    requires
        key.release,
    ensures
        key_safe(pre, key),
        key_step(pre, key) == (pre, no_step()),
{
}

/// Ctrl+C quits from any state, and `q` or Esc quit unless a line is being
/// edited; quitting changes nothing else and asks for no outside work.
pub proof fn law_quit(pre: AppView, key: Key)
    requires
        !key.release,
        (key.ctrl && key.code == KeyCode::Char('c')) || (pre.input is None && (key.code
            == KeyCode::Char('q') || key.code == KeyCode::Esc)),
    ensures
        key_safe(pre, key),
        key_step(pre, key) == (AppView { running: false, ..pre }, no_step()),
{
}

/// In the editor, Esc closes it with nothing written.
pub proof fn law_escape_cancels(pre: AppView)
    requires
        pre.input is Some,
    ensures
        ({
            let key = Key { code: KeyCode::Esc, ctrl: false, release: false };
            &&& key_safe(pre, key)
            &&& key_step(pre, key) == (
                AppView { input: None, status: "input cancelled"@, ..pre },
                no_step(),
            )
        }),
{
}

/// In the editor, typing a character and then Backspace leaves the
/// controls as they were.
pub proof fn law_backspace_undoes_typing(pre: AppView, c: char)
    requires
        pre.input is Some,
    ensures
        ({
            let typed = Key { code: KeyCode::Char(c), ctrl: false, release: false };
            let back = Key { code: KeyCode::Backspace, ctrl: false, release: false };
            let (mid, s1) = key_step(pre, typed);
            let (post, s2) = key_step(mid, back);
            &&& key_safe(pre, typed) && key_safe(mid, back)
            &&& s1 == no_step() && s2 == no_step()
            &&& post == pre
        }),
{
    let input = pre.input.unwrap();
    assert(input.buffer.push(c).drop_last() =~= input.buffer);
}

/// In the editor, Enter on anything but five values from 0 to 100 closes
/// the editor with nothing written and nothing refreshed.
pub proof fn law_invalid_curve_refused(pre: AppView)
    requires
        pre.input is Some,
        !valid_curve(curve_entries(pre.input.unwrap().buffer)),
    ensures
        ({
            let enter = Key { code: KeyCode::Enter, ctrl: false, release: false };
            let (post, step) = key_step(pre, enter);
            &&& key_safe(pre, enter)
            &&& post.input is None && post.snap == pre.snap && post.focus == pre.focus
            &&& step == no_step()
        }),
{
}

/// On a fan's panel, → raises a level of 0..=5 by one up to 5 and ←
/// lowers it by one down to 0; no level is written outside 0..=5.
pub proof fn law_level_steps(pre: AppView, i: usize, right: bool)
    requires
        pre.input is None,
        pre.focus == Focus::Fan(i),
        i < pre.snap.fans.len(),
        pre.snap.fans[i as int].level matches Some(l) ==> l <= 5,
    ensures
        ({
            let code = if right {
                KeyCode::Right
            } else {
                KeyCode::Left
            };
            let key = Key { code, ctrl: false, release: false };
            let l = match pre.snap.fans[i as int].level {
                Some(l) => l as int,
                None => 0,
            };
            let expected: int = if right {
                if l < 5 {
                    l + 1
                } else {
                    5
                }
            } else {
                if l > 0 {
                    l - 1
                } else {
                    0
                }
            };
            let (post, step) = key_step(pre, key);
            &&& key_safe(pre, key)
            &&& post == pre
            &&& step.refresh
            &&& step.write matches Some(w) && w.path == fan_file_spec(i as nat, "level"@)
                && w.value == decimal(expected as nat)
        }),
{
    let fan = pre.snap.fans[i as int];
    let lv = match fan.level {
        Some(l) => l,
        None => 0u8,
    };
    assert((lv as i8) as int == lv as int);
}

/// No key changes the readings, and the focus stays on a panel on screen.
pub proof fn law_keys_keep_readings_and_focus(pre: AppView, key: Key)
    requires
        focus_valid(pre.focus),
        key_safe(pre, key),
    ensures
        key_step(pre, key).0.snap == pre.snap,
        focus_valid(key_step(pre, key).0.focus),
{
    if !key.release && !(key.ctrl && key.code == KeyCode::Char('c')) && pre.input is None {
        if key.code == KeyCode::Tab {
            law_cycle_position(pre.focus, 1);
        } else if key.code == KeyCode::BackTab {
            law_cycle_position(pre.focus, -1i32);
        }
    }
}

/// Enter in the editor closes it, and writes a curve exactly when the
/// values typed are five and each of them lies in 0..=100; the values
/// written are the ones typed. A value above 100 anywhere means no write.
pub proof fn law_commit_writes_only_valid_curves(pre: AppView)
    requires
        pre.input is Some,
    ensures
        ({
            let enter = Key { code: KeyCode::Enter, ctrl: false, release: false };
            let vals = curve_entries(pre.input.unwrap().buffer);
            let (post, step) = key_step(pre, enter);
            &&& post.input is None
            &&& (step.write is Some <==> (vals.len() == 5 && forall|k: int|
                0 <= k < vals.len() ==> 0 <= #[trigger] vals[k] <= 100))
            &&& (exists|k: int| 0 <= k < vals.len() && #[trigger] vals[k] > 100) ==> step.write
                is None
            &&& (exists|k: int| 0 <= k < vals.len() && #[trigger] vals[k] < 0) ==> step.write
                is None
            &&& vals.len() != 5 ==> step.write is None
            &&& step.write matches Some(w) ==> w.value == join_csv_spec(vals)
        }),
{
    let vals = curve_entries(pre.input.unwrap().buffer);
    if exists|k: int| 0 <= k < vals.len() && #[trigger] vals[k] > 100 {
        let k = choose|k: int| 0 <= k < vals.len() && #[trigger] vals[k] > 100;
        assert(!valid_curve(vals)) by {
            if vals.len() == 5 {
                assert(!(0 <= vals[k] <= 100));
            }
        }
    }
    if exists|k: int| 0 <= k < vals.len() && #[trigger] vals[k] < 0 {
        let k = choose|k: int| 0 <= k < vals.len() && #[trigger] vals[k] < 0;
        assert(!valid_curve(vals)) by {
            if vals.len() == 5 {
                assert(!(0 <= vals[k] <= 100));
            }
        }
    }
}

/// `m` on a fan's panel steps its mode through auto, fixed, curve and back
/// to auto: three presses return to the mode started from, and each press
/// changes it.
pub proof fn law_mode_cycle(m: Seq<char>)
    requires
        m == "auto"@ || m == "fixed"@ || m == "curve"@,
    ensures
        next_mode(m) != m,
        next_mode(next_mode(next_mode(m))) == m,
{
    reveal_strlit("auto");
    reveal_strlit("fixed");
    reveal_strlit("curve");
    assert("auto"@ != "fixed"@) by {
        assert("auto"@[0] != "fixed"@[0]);
    }
    assert("auto"@ != "curve"@) by {
        assert("auto"@[0] != "curve"@[0]);
    }
    assert("fixed"@ != "curve"@) by {
        assert("fixed"@[0] != "curve"@[0]);
    }
}

proof fn lemma_entries_of_texts(v: Seq<i32>)
    ensures
        entry_items(texts_of(v)) == v,
    decreases v.len(),
{
    if v.len() == 0 {
        assert(texts_of(v) =~= Seq::<Seq<char>>::empty());
    } else {
        let v0 = v.drop_last();
        lemma_entries_of_texts(v0);
        assert(texts_of(v).drop_last() =~= texts_of(v0));
        let x = v.last();
        assert(texts_of(v).last() == crate::text::int_text(x as int));
        lemma_int_text_shape(x as int);
        lemma_parse_int_text(x as int);
        assert(v0.push(x) =~= v);
    }
}

/// `u` or `d` on a fan's panel opens the editor on that curve as it
/// stands; Enter right away writes back the same values to the same curve.
pub proof fn law_curve_editor_round_trip(pre: AppView, i: usize, up: bool, v: Seq<i32>)
    requires
        pre.input is None,
        pre.focus == Focus::Fan(i),
        i < pre.snap.fans.len(),
        curve_of(pre.snap.fans[i as int], up) == Some(v),
        valid_curve(v),
    ensures
        ({
            let open = Key {
                code: KeyCode::Char(
                    if up {
                        'u'
                    } else {
                        'd'
                    },
                ),
                ctrl: false,
                release: false,
            };
            let enter = Key { code: KeyCode::Enter, ctrl: false, release: false };
            let (mid, s1) = key_step(pre, open);
            let (post, s2) = key_step(mid, enter);
            &&& key_safe(pre, open) && key_safe(mid, enter)
            &&& mid.input == Some(curve_input(pre.snap.fans[i as int], i, up))
            &&& s1 == refresh_step()
            &&& post.input is None
            &&& s2.write matches Some(w) && w.path == fan_file_spec(i as nat, curve_attr(up))
                && w.value == join_csv_spec(v)
        }),
{
    lemma_join_shape(v);
    lemma_entries_of_texts(v);
    assert(curve_entries(join_csv_spec(v)) == v);
}

} // verus!
