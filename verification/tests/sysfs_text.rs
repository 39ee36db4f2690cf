use m5ctl::history::{History, HISTORY_LEN, HISTORY_SPAN};
use m5ctl::sysfs::{
    cpu_file, fan_base, fan_file, is_amdgpu_name, join_csv, power_mode_path, read_cpu_max,
    read_cpu_min, read_cpu_temp, read_curve, read_fan, read_power_mode, read_snapshot,
    read_trim, read_u32, read_u8, set_fan_curve, set_fan_level, set_fan_mode, set_power_mode,
    EcFiles, Fan, FanFiles, Snapshot,
};
use m5ctl::text::{decimal_string, trimmed};

fn raw(s: &str) -> Option<String> {
    Some(s.to_string())
}

fn fan_files(rpm: &str, mode: &str, level: &str, up: &str, down: &str) -> FanFiles {
    FanFiles { rpm: raw(rpm), mode: raw(mode), level: raw(level), rampup: raw(up), rampdown: raw(down) }
}

#[test]
fn trims_unicode_whitespace() {
    assert_eq!(trimmed("  quiet\n"), "quiet");
    assert_eq!(trimmed("\u{A0}\u{3000}x y\u{2003}\t"), "x y");
    assert_eq!(trimmed(" \n "), "");
}

#[test]
fn decimal_text() {
    assert_eq!(decimal_string(0), "0");
    assert_eq!(decimal_string(12345), "12345");
    assert_eq!(decimal_string(u64::MAX), u64::MAX.to_string());
}

#[test]
fn join_csv_formats_like_display() {
    assert_eq!(join_csv(&[10, -5, 0]), "10,-5,0");
    assert_eq!(join_csv(&[]), "");
    assert_eq!(join_csv(&[i32::MIN, i32::MAX]), "-2147483648,2147483647");
}

#[test]
fn paths() {
    assert_eq!(power_mode_path(), "/sys/class/ec_su_axb35/apu/power_mode");
    assert_eq!(fan_base(0), "/sys/class/ec_su_axb35/fan1");
    assert_eq!(fan_file(2, "rpm"), "/sys/class/ec_su_axb35/fan3/rpm");
    assert_eq!(cpu_file("max"), "/sys/class/ec_su_axb35/temp1/max");
}

#[test]
fn read_trim_drops_blank_and_missing() {
    assert_eq!(read_trim(&raw(" balanced\n")), Some("balanced".to_string()));
    assert_eq!(read_trim(&raw("\n")), None);
    assert_eq!(read_trim(&None), None);
    assert_eq!(read_power_mode(&raw("performance\n")), Some("performance".to_string()));
}

#[test]
fn read_u32_follows_parse() {
    assert_eq!(read_u32(&raw(" 42\n")), Some(42));
    assert_eq!(read_u32(&raw("+7")), Some(7));
    assert_eq!(read_u32(&raw("007")), Some(7));
    assert_eq!(read_u32(&raw("-1")), None);
    assert_eq!(read_u32(&raw("+")), None);
    assert_eq!(read_u32(&raw("4294967295")), Some(u32::MAX));
    assert_eq!(read_u32(&raw("4294967296")), None);
    assert_eq!(read_u32(&raw("99999999999999999999")), None);
    assert_eq!(read_u32(&raw("12a")), None);
    assert_eq!(read_u32(&raw("1 2")), None);
    assert_eq!(read_u32(&None), None);
    assert_eq!(read_cpu_temp(&raw("55\n")), Some(55));
    assert_eq!(read_cpu_min(&raw("31")), Some(31));
    assert_eq!(read_cpu_max(&raw("")), None);
}

#[test]
fn read_u8_range() {
    assert_eq!(read_u8(&raw("255")), Some(255));
    assert_eq!(read_u8(&raw("256")), None);
    assert_eq!(read_u8(&raw("5\n")), Some(5));
}

#[test]
fn read_curve_skips_unparsable_pieces() {
    assert_eq!(read_curve(&raw("40,50,60,70,80\n")), Some(vec![40, 50, 60, 70, 80]));
    assert_eq!(
        read_curve(&raw(" 30, 40 ,abc,,-2147483648,2147483648,-0 ")),
        Some(vec![30, 40, -2147483648, 0])
    );
    assert_eq!(read_curve(&raw("x")), Some(vec![]));
    assert_eq!(read_curve(&raw("  ")), None);
    assert_eq!(read_curve(&None), None);
}

#[test]
fn curve_written_reads_back() {
    for v in [vec![40, 50, 60, 70, 80], vec![-3], vec![0, i32::MIN, i32::MAX, 7]] {
        let w = set_fan_curve(0, true, &v);
        assert_eq!(read_curve(&Some(w.value)), Some(v));
    }
}

#[test]
fn level_written_reads_back() {
    for level in [0u8, 5, 9, 10, 255] {
        let w = set_fan_level(1, level);
        assert_eq!(read_u8(&Some(w.value)), Some(level));
    }
}

#[test]
fn mode_written_reads_back() {
    let w = set_fan_mode(0, "curve");
    assert_eq!(read_trim(&Some(w.value)), Some("curve".to_string()));
}

#[test]
fn writes() {
    let w = set_power_mode("quiet");
    assert_eq!(w.path, "/sys/class/ec_su_axb35/apu/power_mode");
    assert_eq!(w.value, "quiet");
    let w = set_fan_mode(1, "fixed");
    assert_eq!(w.path, "/sys/class/ec_su_axb35/fan2/mode");
    assert_eq!(w.value, "fixed");
    let w = set_fan_level(2, 3);
    assert_eq!(w.path, "/sys/class/ec_su_axb35/fan3/level");
    assert_eq!(w.value, "3");
    let w = set_fan_curve(0, false, &[10, 20, 30, 40, 50]);
    assert_eq!(w.path, "/sys/class/ec_su_axb35/fan1/rampdown_curve");
    assert_eq!(w.value, "10,20,30,40,50");
    let w = set_fan_curve(0, true, &[1, 2, 3, 4, 5]);
    assert_eq!(w.path, "/sys/class/ec_su_axb35/fan1/rampup_curve");
}

#[test]
fn reads_a_fan() {
    let f = read_fan(1, &fan_files("2100\n", "auto\n", "3\n", "40,50,60,70,80\n", "35,45,55,65,75\n"));
    assert_eq!(f.label, "fan2");
    assert_eq!(f.rpm, Some(2100));
    assert_eq!(f.mode, Some("auto".to_string()));
    assert_eq!(f.level, Some(3));
    assert_eq!(f.rampup, Some(vec![40, 50, 60, 70, 80]));
    assert_eq!(f.rampdown, Some(vec![35, 45, 55, 65, 75]));
    let empty = FanFiles { rpm: None, mode: None, level: raw("x"), rampup: None, rampdown: raw("") };
    let f = read_fan(0, &empty);
    assert_eq!(f.label, "fan1");
    assert_eq!((f.rpm, f.mode, f.level, f.rampup, f.rampdown), (None, None, None, None, None));
}

#[test]
fn snapshot_without_driver_is_empty() {
    let s = read_snapshot(&None);
    assert!(!s.driver_present);
    assert_eq!(s.power_mode, None);
    assert_eq!((s.cpu_temp, s.cpu_min, s.cpu_max), (None, None, None));
    assert!(s.fans.is_empty());
}

#[test]
fn snapshot_with_driver() {
    let files = EcFiles {
        power_mode: raw("balanced\n"),
        cpu_temp: raw("61\n"),
        cpu_min: raw("35\n"),
        cpu_max: raw("88\n"),
        fans: vec![
            fan_files("1200", "auto", "2", "1,2,3,4,5", "1,2,3,4,5"),
            fan_files("0", "fixed", "0", "", ""),
            fan_files("", "curve", "5", "x", "9"),
        ],
    };
    let s = read_snapshot(&Some(files));
    assert!(s.driver_present);
    assert_eq!(s.power_mode, Some("balanced".to_string()));
    assert_eq!((s.cpu_temp, s.cpu_min, s.cpu_max), (Some(61), Some(35), Some(88)));
    assert_eq!(s.fans.len(), 3);
    assert_eq!(s.fans[2].label, "fan3");
    assert_eq!(s.fans[2].rpm, None);
    assert_eq!(s.fans[2].rampdown, Some(vec![9]));
    assert_eq!(s.fan_rpm(0), 1200);
    assert_eq!(s.fan_rpm(2), 0);
    assert_eq!(s.fan_rpm(7), 0);
}

#[test]
fn amdgpu_name() {
    assert!(is_amdgpu_name("amdgpu\n"));
    assert!(!is_amdgpu_name("radeon\n"));
    assert!(!is_amdgpu_name("amdgpu2"));
}

fn snapshot_with(fans: Vec<Fan>) -> Snapshot {
    Snapshot { driver_present: true, power_mode: None, cpu_temp: None, cpu_min: None, cpu_max: None, fans }
}

#[test]
fn fan_rpm_sample() {
    let f = Fan { label: "fan1".into(), rpm: None, mode: None, level: None, rampup: None, rampdown: None };
    let s = snapshot_with(vec![f]);
    assert_eq!(s.fan_rpm(0), 0);
}

#[test]
fn history_drops_samples_older_than_span() {
    let mut h: History<f64> = History::new();
    h.record(0, 40.0);
    h.record(30 * 1_000_000_000, 45.0);
    h.record(60 * 1_000_000_000, 50.0);
    assert_eq!(h.samples.len(), 3);
    h.record(61 * 1_000_000_000, 55.0);
    assert_eq!(h.samples.len(), 3);
    assert_eq!(h.samples[0], (30 * 1_000_000_000, 45.0));
    assert_eq!(h.samples[2], (61 * 1_000_000_000, 55.0));
    h.record(200 * 1_000_000_000, 60.0);
    assert_eq!(h.samples, vec![(200 * 1_000_000_000, 60.0)]);
}

#[test]
fn history_keeps_a_lone_old_sample() {
    let mut h: History<u32> = History::new();
    h.record(5 * HISTORY_SPAN, 1);
    assert_eq!(h.samples, vec![(5 * HISTORY_SPAN, 1)]);
}

#[test]
fn history_is_capped() {
    let mut h: History<usize> = History::new();
    for i in 0..(HISTORY_LEN + 100) {
        h.record(i as u64, i);
    }
    assert_eq!(h.samples.len(), HISTORY_LEN);
    assert_eq!(h.samples[0].1, 100);
    assert_eq!(h.samples[HISTORY_LEN - 1].1, HISTORY_LEN + 99);
}
