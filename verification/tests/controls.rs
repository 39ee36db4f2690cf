use m5ctl::app::{App, ChartMode, Focus, Input, InputTarget, Key, KeyCode, Step};
use m5ctl::sysfs::{Fan, Snapshot};

fn fan(n: usize, mode: Option<&str>, level: Option<u8>, up: Option<Vec<i32>>) -> Fan {
    Fan {
        label: format!("fan{}", n),
        rpm: Some(1000 * n as u32),
        mode: mode.map(|m| m.to_string()),
        level,
        rampup: up,
        rampdown: Some(vec![30, 40, 50, 60, 70]),
    }
}

fn snapshot() -> Snapshot {
    Snapshot {
        driver_present: true,
        power_mode: Some("balanced".to_string()),
        cpu_temp: Some(50),
        cpu_min: Some(40),
        cpu_max: Some(80),
        fans: vec![
            fan(1, Some("auto"), Some(2), Some(vec![40, 50, 60, 70, 80])),
            fan(2, Some("curve"), Some(5), None),
            fan(3, None, Some(0), Some(vec![1, 2, 3])),
        ],
    }
}

fn press(code: KeyCode) -> Key {
    Key { code, ctrl: false, release: false }
}

fn key(app: &mut App, code: KeyCode) -> Step {
    let k = press(code);
    assert!(app.handles_key(k));
    app.on_key(k)
}

fn write_of(step: &Step) -> (String, String, String, bool) {
    let p = step.write.as_ref().expect("a write");
    (p.write.path.clone(), p.write.value.clone(), p.done.clone(), p.hint)
}

#[test]
fn new_reports_driver() {
    let app = App::new(snapshot());
    assert_eq!(app.status, "ready");
    assert!(app.running);
    assert!(app.focus == Focus::Power);
    assert!(app.chart_mode == ChartMode::Temp);
    assert!(app.input.is_none());
    let mut s = snapshot();
    s.driver_present = false;
    assert_eq!(App::new(s).status, "ec_su_axb35 driver not loaded");
}

#[test]
fn tab_order_wraps() {
    let mut app = App::new(snapshot());
    let order = [Focus::Fan(0), Focus::Fan(1), Focus::Fan(2), Focus::Chart, Focus::Power];
    for f in order {
        let step = key(&mut app, KeyCode::Tab);
        assert!(step.write.is_none() && !step.refresh);
        assert!(app.focus == f);
    }
    key(&mut app, KeyCode::BackTab);
    assert!(app.focus == Focus::Chart);
}

#[test]
fn cycle_round_trip() {
    let mut app = App::new(snapshot());
    for start in [Focus::Power, Focus::Fan(0), Focus::Fan(2), Focus::Chart] {
        for dir in [1, -1, 3, 7, -12] {
            app.focus = start;
            app.cycle_focus(dir);
            app.cycle_focus(-dir);
            assert!(app.focus == start);
        }
    }
    app.focus = Focus::Fan(7);
    app.cycle_focus(1);
    assert!(app.focus == Focus::Chart);
}

#[test]
fn toggle_twice_restores() {
    let mut app = App::new(snapshot());
    app.toggle_chart_mode();
    assert!(app.chart_mode == ChartMode::Fan);
    app.toggle_chart_mode();
    assert!(app.chart_mode == ChartMode::Temp);
}

#[test]
fn graph_arrows_switch_series() {
    let mut app = App::new(snapshot());
    app.focus = Focus::Chart;
    key(&mut app, KeyCode::Right);
    assert!(app.chart_mode == ChartMode::Fan);
    key(&mut app, KeyCode::Left);
    assert!(app.chart_mode == ChartMode::Temp);
    key(&mut app, KeyCode::Char('m'));
    assert!(app.chart_mode == ChartMode::Temp);
}

#[test]
fn power_keys_write_the_mode() {
    let mut app = App::new(snapshot());
    for (c, mode) in [('1', "quiet"), ('2', "balanced"), ('3', "performance")] {
        let step = key(&mut app, KeyCode::Char(c));
        assert!(step.refresh);
        let (path, value, done, hint) = write_of(&step);
        assert_eq!(path, "/sys/class/ec_su_axb35/apu/power_mode");
        assert_eq!(value, mode);
        assert_eq!(done, format!("power mode -> {}", mode));
        assert!(hint);
    }
}

#[test]
fn finish_write_sets_status() {
    let mut app = App::new(snapshot());
    let step = key(&mut app, KeyCode::Char('1'));
    let pending = step.write.unwrap();
    app.finish_write(&pending, &Ok(()));
    assert_eq!(app.status, "power mode -> quiet");
    app.finish_write(&pending, &Err("Permission denied (os error 13)".to_string()));
    assert_eq!(app.status, "write failed: Permission denied (os error 13) (need video group?)");
    app.focus = Focus::Fan(0);
    let step = key(&mut app, KeyCode::Char('m'));
    app.finish_write(&step.write.unwrap(), &Err("No such file or directory (os error 2)".to_string()));
    assert_eq!(app.status, "write failed: No such file or directory (os error 2)");
}

#[test]
fn refresh_key() {
    let mut app = App::new(snapshot());
    let step = key(&mut app, KeyCode::Char('r'));
    assert!(step.refresh && step.write.is_none());
    assert_eq!(app.status, "refreshed");
}

#[test]
fn quit_keys() {
    let mut app = App::new(snapshot());
    key(&mut app, KeyCode::Char('q'));
    assert!(!app.running);
    let mut app = App::new(snapshot());
    key(&mut app, KeyCode::Esc);
    assert!(!app.running);
    let mut app = App::new(snapshot());
    app.on_key(Key { code: KeyCode::Char('c'), ctrl: true, release: false });
    assert!(!app.running);
}

#[test]
fn release_is_ignored() {
    let mut app = App::new(snapshot());
    let step = app.on_key(Key { code: KeyCode::Char('q'), ctrl: false, release: true });
    assert!(app.running && step.write.is_none() && !step.refresh);
}

#[test]
fn mode_key_cycles_modes() {
    let mut app = App::new(snapshot());
    app.focus = Focus::Fan(0);
    let (path, value, done, hint) = write_of(&key(&mut app, KeyCode::Char('m')));
    assert_eq!(path, "/sys/class/ec_su_axb35/fan1/mode");
    assert_eq!((value.as_str(), done.as_str(), hint), ("fixed", "fan1 mode -> fixed", false));
    app.focus = Focus::Fan(1);
    let (_, value, _, _) = write_of(&key(&mut app, KeyCode::Char('m')));
    assert_eq!(value, "auto");
    app.focus = Focus::Fan(2);
    let (_, value, _, _) = write_of(&key(&mut app, KeyCode::Char('m')));
    assert_eq!(value, "auto");
    app.snap.fans[2].mode = Some("fixed".to_string());
    let (_, value, _, _) = write_of(&key(&mut app, KeyCode::Char('m')));
    assert_eq!(value, "curve");
}

#[test]
fn level_keys_stay_in_range() {
    let mut app = App::new(snapshot());
    app.focus = Focus::Fan(0);
    let (path, value, done, _) = write_of(&key(&mut app, KeyCode::Right));
    assert_eq!(path, "/sys/class/ec_su_axb35/fan1/level");
    assert_eq!((value.as_str(), done.as_str()), ("3", "fan1 level -> 3"));
    let (_, value, _, _) = write_of(&key(&mut app, KeyCode::Char('-')));
    assert_eq!(value, "1");
    app.focus = Focus::Fan(1);
    let (_, value, _, _) = write_of(&key(&mut app, KeyCode::Char('+')));
    assert_eq!(value, "5");
    app.focus = Focus::Fan(2);
    let (_, value, _, _) = write_of(&key(&mut app, KeyCode::Left));
    assert_eq!(value, "0");
    let (_, value, _, _) = write_of(&key(&mut app, KeyCode::Char('=')));
    assert_eq!(value, "1");
    app.snap.fans[2].level = Some(200);
    let (_, value, _, _) = write_of(&key(&mut app, KeyCode::Right));
    assert_eq!(value, "0");
}

#[test]
fn level_overflow_is_refused() {
    let mut app = App::new(snapshot());
    app.focus = Focus::Fan(0);
    app.snap.fans[0].level = Some(127);
    assert!(!app.handles_key(press(KeyCode::Right)));
    assert!(app.handles_key(press(KeyCode::Left)));
}

#[test]
fn fan_keys_need_the_fan() {
    let mut s = snapshot();
    s.fans.clear();
    let mut app = App::new(s);
    app.focus = Focus::Fan(1);
    assert!(!app.handles_key(press(KeyCode::Char('m'))));
    assert!(!app.handles_key(press(KeyCode::Char('x'))));
    assert!(app.handles_key(press(KeyCode::Tab)));
}

#[test]
fn other_fan_keys_only_refresh() {
    let mut app = App::new(snapshot());
    app.focus = Focus::Fan(0);
    let step = key(&mut app, KeyCode::Char('x'));
    assert!(step.refresh && step.write.is_none());
    app.focus = Focus::Power;
    let step = key(&mut app, KeyCode::Char('x'));
    assert!(!step.refresh && step.write.is_none());
}

#[test]
fn curve_editor_round_trip() {
    let mut app = App::new(snapshot());
    app.focus = Focus::Fan(0);
    let step = key(&mut app, KeyCode::Char('u'));
    assert!(step.refresh && step.write.is_none());
    let input = app.input.as_ref().unwrap();
    assert_eq!(input.prompt, "fan1 ramp-up curve (5 vals 0-100, comma-sep): ");
    assert_eq!(input.buffer, "40,50,60,70,80");
    assert!(input.target == InputTarget::FanCurveUp(0));
    let step = key(&mut app, KeyCode::Enter);
    assert!(app.input.is_none());
    let (path, value, done, hint) = write_of(&step);
    assert_eq!(path, "/sys/class/ec_su_axb35/fan1/rampup_curve");
    assert_eq!(value, "40,50,60,70,80");
    assert_eq!(done, "fan1 curve set to 40,50,60,70,80");
    assert!(!hint && step.refresh);
}

#[test]
fn curve_editor_ramp_down_and_editing() {
    let mut app = App::new(snapshot());
    app.focus = Focus::Fan(1);
    key(&mut app, KeyCode::Char('d'));
    assert_eq!(app.input.as_ref().unwrap().prompt, "fan2 ramp-down curve (5 vals 0-100, comma-sep): ");
    for _ in 0..2 {
        key(&mut app, KeyCode::Backspace);
    }
    for c in "100".chars() {
        key(&mut app, KeyCode::Char(c));
    }
    key(&mut app, KeyCode::Char('q'));
    key(&mut app, KeyCode::Backspace);
    assert!(app.running);
    assert_eq!(app.input.as_ref().unwrap().buffer, "30,40,50,60,100");
    let (path, value, _, _) = write_of(&key(&mut app, KeyCode::Enter));
    assert_eq!(path, "/sys/class/ec_su_axb35/fan2/rampdown_curve");
    assert_eq!(value, "30,40,50,60,100");
}

#[test]
fn empty_curve_starts_blank() {
    let mut app = App::new(snapshot());
    app.focus = Focus::Fan(1);
    key(&mut app, KeyCode::Char('u'));
    assert_eq!(app.input.as_ref().unwrap().buffer, "");
    key(&mut app, KeyCode::Backspace);
    assert_eq!(app.input.as_ref().unwrap().buffer, "");
}

#[test]
fn invalid_curve_is_refused() {
    let mut app = App::new(snapshot());
    app.input = Some(Input { prompt: String::new(), buffer: "1,2,3".to_string(), target: InputTarget::FanCurveUp(0) });
    let step = key(&mut app, KeyCode::Enter);
    assert!(step.write.is_none() && !step.refresh);
    assert!(app.input.is_none());
    assert_eq!(app.status, "invalid curve: need 5 values 0-100 (got '1,2,3')");
    for bad in ["1,2,3,4,101", "1,2,x,4,5", "-1,2,3,4,5", "1,2,3,4,5,6"] {
        app.input = Some(Input { prompt: String::new(), buffer: bad.to_string(), target: InputTarget::FanCurveDown(2) });
        let step = key(&mut app, KeyCode::Enter);
        assert!(step.write.is_none());
    }
}

#[test]
fn curve_entries_are_trimmed_and_blank_ones_skipped() {
    let mut app = App::new(snapshot());
    app.input = Some(Input { prompt: String::new(), buffer: " 0, 25 ,,50, 75,100 ,".to_string(), target: InputTarget::FanCurveDown(2) });
    let (path, value, done, _) = write_of(&key(&mut app, KeyCode::Enter));
    assert_eq!(path, "/sys/class/ec_su_axb35/fan3/rampdown_curve");
    assert_eq!(value, "0,25,50,75,100");
    assert_eq!(done, "fan3 curve set to 0,25,50,75,100");
}

#[test]
fn commit_needs_the_fan() {
    let mut s = snapshot();
    s.fans.truncate(1);
    let mut app = App::new(s);
    app.input = Some(Input { prompt: String::new(), buffer: "1,2,3,4,5".to_string(), target: InputTarget::FanCurveUp(2) });
    assert!(!app.handles_key(press(KeyCode::Enter)));
    app.input.as_mut().unwrap().buffer = "1,2".to_string();
    assert!(app.handles_key(press(KeyCode::Enter)));
}

#[test]
fn escape_cancels_input() {
    let mut app = App::new(snapshot());
    app.focus = Focus::Fan(0);
    key(&mut app, KeyCode::Char('u'));
    let step = key(&mut app, KeyCode::Esc);
    assert!(step.write.is_none() && !step.refresh);
    assert!(app.input.is_none());
    assert!(app.running);
    assert_eq!(app.status, "input cancelled");
}

#[test]
fn typing_then_backspace_restores() {
    let mut app = App::new(snapshot());
    app.input = Some(Input { prompt: "p".to_string(), buffer: "1,2".to_string(), target: InputTarget::FanCurveUp(0) });
    key(&mut app, KeyCode::Char('é'));
    assert_eq!(app.input.as_ref().unwrap().buffer, "1,2é");
    key(&mut app, KeyCode::Backspace);
    assert_eq!(app.input.as_ref().unwrap().buffer, "1,2");
    key(&mut app, KeyCode::Tab);
    assert!(app.focus == Focus::Power);
}

#[test]
fn keys_keep_readings_and_focus_on_screen() {
    let mut app = App::new(snapshot());
    let codes = [
        KeyCode::Tab, KeyCode::Char('m'), KeyCode::Right, KeyCode::Tab, KeyCode::Char('u'),
        KeyCode::Char('9'), KeyCode::Enter, KeyCode::BackTab, KeyCode::BackTab, KeyCode::BackTab,
        KeyCode::Left, KeyCode::Char('2'), KeyCode::Other, KeyCode::Tab, KeyCode::Char('d'),
        KeyCode::Esc,
    ];
    for code in codes {
        key(&mut app, code);
        assert_eq!(app.snap.fans.len(), 3);
        assert_eq!(app.snap.fans[0].level, Some(2));
        assert_eq!(app.snap.power_mode.as_deref(), Some("balanced"));
        match app.focus {
            Focus::Fan(i) => assert!(i < 3),
            _ => {}
        }
    }
    assert!(!app.running);
}
