use m5ctl::app::{Focus, Input, InputTarget};
use m5ctl::report::{
    command_of, cursor_column, fan_curves_text, fan_level_text, fan_line, fan_mode_text,
    fan_speed_text, get_report, input_line, json_report, keymap, or_dash, power_color,
    power_mode_arg, Command, ModeColor, SetError,
};
use m5ctl::sysfs::{Fan, Snapshot};

fn args(v: &[&str]) -> Vec<String> {
    v.iter().map(|s| s.to_string()).collect()
}

fn fans() -> Vec<Fan> {
    vec![
        Fan { label: "fan1".into(), rpm: Some(2100), mode: Some("auto".into()), level: Some(3), rampup: Some(vec![40, 50, 60, 70, 80]), rampdown: None },
        Fan { label: "fan2".into(), rpm: None, mode: None, level: None, rampup: None, rampdown: Some(vec![-1, 2]) },
    ]
}

fn snap() -> Snapshot {
    Snapshot { driver_present: true, power_mode: Some("quiet".into()), cpu_temp: Some(48), cpu_min: None, cpu_max: Some(90), fans: fans() }
}

#[test]
fn dash_for_missing() {
    assert_eq!(or_dash(Some(42)), "42");
    assert_eq!(or_dash(None), "-");
}

#[test]
fn commands() {
    assert_eq!(command_of(&args(&[])), Command::Tui);
    assert_eq!(command_of(&args(&["tui"])), Command::Tui);
    assert_eq!(command_of(&args(&[""])), Command::Tui);
    assert_eq!(command_of(&args(&["get"])), Command::Get);
    assert_eq!(command_of(&args(&["json", "x"])), Command::Json);
    assert_eq!(command_of(&args(&["set", "quiet"])), Command::SetMode);
    assert_eq!(command_of(&args(&["-h"])), Command::Help);
    assert_eq!(command_of(&args(&["--help"])), Command::Help);
    assert_eq!(command_of(&args(&["help"])), Command::Help);
    assert_eq!(command_of(&args(&["bogus"])), Command::Unknown("bogus".into()));
}

#[test]
fn set_arguments() {
    assert_eq!(power_mode_arg(&args(&["set"])), Err(SetError::Usage));
    assert_eq!(power_mode_arg(&args(&["set", "quiet"])), Ok("quiet".to_string()));
    assert_eq!(power_mode_arg(&args(&["set", "performance", "x"])), Ok("performance".to_string()));
    assert_eq!(power_mode_arg(&args(&["set", "turbo"])), Err(SetError::InvalidMode("turbo".into())));
}

#[test]
fn get_lines() {
    let lines = get_report(&snap(), "61 C", "-");
    assert_eq!(
        lines,
        vec![
            "power mode: quiet",
            "cpu temp:   48 C",
            "gpu temp:   61 C",
            "apu ppt:    -",
            "fan1:  2100 rpm  mode auto  level 3",
            "fan2:     - rpm  mode -  level -",
        ]
    );
    let mut s = snap();
    s.power_mode = None;
    s.cpu_temp = None;
    s.fans.clear();
    assert_eq!(get_report(&s, "-", "12.5 W"), vec!["power mode: ?", "cpu temp:   -", "gpu temp:   -", "apu ppt:    12.5 W"]);
}

#[test]
fn fan_line_wide_rpm() {
    let mut f = fans().remove(0);
    f.rpm = Some(123456);
    assert_eq!(fan_line(&f), "fan1: 123456 rpm  mode auto  level 3");
}

#[test]
fn json() {
    assert_eq!(
        json_report(&snap(), "55.5", "null"),
        "{\"power_mode\":\"quiet\",\"cpu_temp\":48,\"cpu_min\":null,\"cpu_max\":90,\"gpu_temp\":55.5,\"apu_power\":null,\"fans\":[{\"label\":\"fan1\",\"rpm\":2100,\"mode\":\"auto\",\"level\":3,\"rampup\":[40,50,60,70,80],\"rampdown\":null},{\"label\":\"fan2\",\"rpm\":null,\"mode\":null,\"level\":null,\"rampup\":null,\"rampdown\":[-1,2]}]}"
    );
    let mut s = snap();
    s.fans.clear();
    s.power_mode = None;
    assert_eq!(
        json_report(&s, "null", "7"),
        "{\"power_mode\":null,\"cpu_temp\":48,\"cpu_min\":null,\"cpu_max\":90,\"gpu_temp\":null,\"apu_power\":7,\"fans\":[]}"
    );
}

#[test]
fn colours() {
    assert!(power_color("quiet") == ModeColor::Green);
    assert!(power_color("balanced") == ModeColor::Yellow);
    assert!(power_color("performance") == ModeColor::Red);
    assert!(power_color("unknown") == ModeColor::DarkGray);
}

#[test]
fn keymaps() {
    assert_eq!(keymap(Focus::Power), "1 quiet   2 balanced   3 performance   Tab focus   r refresh   q/ctrl+c quit");
    assert_eq!(keymap(Focus::Fan(2)), "m mode   <- / -> level   u ramp-up   d ramp-down   Tab focus   r refresh   q/ctrl+c quit");
    assert_eq!(keymap(Focus::Chart), "<- / -> switch fan/temp   Tab focus   r refresh   q/ctrl+c quit");
}

#[test]
fn fan_panel_texts() {
    let f = fans();
    assert_eq!(fan_speed_text(&f[0]), " 2100 rpm  ");
    assert_eq!(fan_speed_text(&f[1]), "    - rpm  ");
    assert_eq!(fan_mode_text(&f[0]), "[auto]");
    assert_eq!(fan_mode_text(&f[1]), "[?]");
    assert_eq!(fan_level_text(&f[0]), "level 3/5");
    assert_eq!(fan_level_text(&f[1]), "level 0/5");
    assert_eq!(fan_curves_text(&f[0]), "up 40,50,60,70,80  down -");
    assert_eq!(fan_curves_text(&f[1]), "up -  down -1,2");
}

#[test]
fn editor_line_and_cursor() {
    let input = Input { prompt: "p: ".into(), buffer: "1,2".into(), target: InputTarget::FanCurveUp(0) };
    assert_eq!(input_line(&input), "p: 1,2");
    assert_eq!(cursor_column(1, 98, 6), 7);
    assert_eq!(cursor_column(1, 10, 50), 10);
    assert_eq!(cursor_column(5, 0, 3), 4);
}
