//! The sysfs interface of the `ec_su_axb35` driver: where each attribute
//! lives, how the text read from an attribute is interpreted, and what
//! text a setting writes to which attribute.
//!
//! Reading and writing files is the caller's part: readers here take what
//! `fs::read_to_string(path).ok()` gave for the attribute, and setters
//! return the `Write` (a path and the text to write there).
use vstd::prelude::*;

use crate::text::{
    chars_of, decimal, has_char, int_text, is_digit, is_space, lemma_decimal,
    lemma_parse_decimal, lemma_parse_int_text, lemma_split_extend, lemma_split_sep_extend,
    parse_i32, parse_i32_spec, parse_u32, parse_u32_spec, parse_u8, parse_u8_spec, push_char,
    push_decimal, push_int, same_text, split_on, string_of, trim, trim_end, trim_range,
    trim_start,
};

verus! {

/// Root of the driver's sysfs class.
pub const EC_BASE: &'static str = "/sys/class/ec_su_axb35";

/// Root of the hwmon class, where the amdgpu sensors live.
pub const HWMON_ROOT: &'static str = "/sys/class/hwmon";

// ------------------------------------------------------------------
// Comma-separated values
// ------------------------------------------------------------------

/// Integers written by `Display` and joined by commas (`join(",")`).
pub open spec fn join_csv_spec(v: Seq<i32>) -> Seq<char>
    decreases v.len(),
{
    if v.len() == 0 {
        Seq::<char>::empty()
    } else if v.len() == 1 {
        int_text(v[0] as int)
    } else {
        join_csv_spec(v.drop_last()) + seq![','] + int_text(v.last() as int)
    }
}

/// The values of `v` written in decimal and joined by commas.
pub fn join_csv(v: &[i32]) -> (r: String)
    ensures
        r@ == join_csv_spec(v@),
{
    let mut r = String::new();
    let mut k: usize = 0;
    assert(v@.take(0) =~= Seq::<i32>::empty());
    while k < v.len()
        invariant
            k <= v.len(),
            r@ == join_csv_spec(v@.take(k as int)),
        decreases v.len() - k,
    {
        let ghost before = r@;
        if k > 0 {
            push_char(&mut r, ',');
        }
        push_int(&mut r, v[k] as i64);
        let ghost t = v@.take(k + 1);
        assert(t.drop_last() =~= v@.take(k as int));
        assert(t.last() == v@[k as int]);
        if k > 0 {
            assert(r@ =~= before + seq![','] + int_text(v@[k as int] as int));
        } else {
            assert(r@ =~= int_text(v@[k as int] as int));
        }
        k = k + 1;
    }
    assert(v@.take(v.len() as int) =~= v@);
    r
}

// ------------------------------------------------------------------
// Paths
// ------------------------------------------------------------------

pub open spec fn power_mode_path_spec() -> Seq<char> {
    EC_BASE@ + "/apu/power_mode"@
}

pub open spec fn fan_base_spec(i: nat) -> Seq<char> {
    EC_BASE@ + "/fan"@ + decimal(i + 1)
}

pub open spec fn fan_file_spec(i: nat, attr: Seq<char>) -> Seq<char> {
    fan_base_spec(i) + "/"@ + attr
}

pub open spec fn cpu_file_spec(attr: Seq<char>) -> Seq<char> {
    EC_BASE@ + "/temp1/"@ + attr
}

/// The power-mode attribute.
pub fn power_mode_path() -> (r: String)
    ensures
        r@ == power_mode_path_spec(),
{
    let mut r = String::from_str(EC_BASE);
    r.append("/apu/power_mode");
    r
}

/// The directory of fan `i` (counted from 0; the driver counts from 1).
pub fn fan_base(i: usize) -> (r: String)
    requires
        i < usize::MAX,
    ensures
        r@ == fan_base_spec(i as nat),
{
    let mut r = String::from_str(EC_BASE);
    r.append("/fan");
    push_decimal(&mut r, (i + 1) as u64);
    r
}

/// The attribute `attr` of fan `i`.
pub fn fan_file(i: usize, attr: &str) -> (r: String)
    requires
        i < usize::MAX,
    ensures
        r@ == fan_file_spec(i as nat, attr@),
{
    let mut r = fan_base(i);
    r.append("/");
    r.append(attr);
    r
}

/// The attribute `attr` (`temp`, `min` or `max`) of the CPU temperature.
pub fn cpu_file(attr: &str) -> (r: String)
    ensures
        r@ == cpu_file_spec(attr@),
{
    let mut r = String::from_str(EC_BASE);
    r.append("/temp1/");
    r.append(attr);
    r
}

// ------------------------------------------------------------------
// Reading attributes
// ------------------------------------------------------------------

/// An attribute's text, trimmed; nothing when it could not be read or
/// holds only whitespace.
pub open spec fn read_trim_spec(raw: Option<Seq<char>>) -> Option<Seq<char>> {
    match raw {
        Some(s) => if trim(s).len() > 0 {
            Some(trim(s))
        } else {
            None
        },
        None => None,
    }
}

pub open spec fn read_u32_spec(raw: Option<Seq<char>>) -> Option<u32> {
    match read_trim_spec(raw) {
        Some(t) => parse_u32_spec(t),
        None => None,
    }
}

pub open spec fn read_u8_spec(raw: Option<Seq<char>>) -> Option<u8> {
    match read_trim_spec(raw) {
        Some(t) => parse_u8_spec(t),
        None => None,
    }
}

/// The integers among the comma-separated pieces, each trimmed; pieces
/// that are not an `i32` are skipped.
pub open spec fn curve_items(pieces: Seq<Seq<char>>) -> Seq<i32>
    decreases pieces.len(),
{
    if pieces.len() == 0 {
        Seq::<i32>::empty()
    } else {
        let rest = curve_items(pieces.drop_last());
        match parse_i32_spec(trim(pieces.last())) {
            Some(v) => rest.push(v),
            None => rest,
        }
    }
}

pub open spec fn read_curve_spec(raw: Option<Seq<char>>) -> Option<Seq<i32>> {
    match read_trim_spec(raw) {
        Some(t) => Some(curve_items(split_on(t, ','))),
        None => None,
    }
}

/// The characters of a raw attribute, if it was read.
fn raw_chars(raw: &Option<String>) -> (r: Option<Vec<char>>)
    ensures
        raw.deep_view() matches Some(s) ==> r matches Some(v) && v@ == s,
        raw is None ==> r is None,
{
    match raw {
        Some(s) => Some(chars_of(s.as_str())),
        None => None,
    }
}

/// The trimmed text of an attribute (`None` when unread or blank).
pub fn read_trim(raw: &Option<String>) -> (r: Option<String>)
    ensures
        r.deep_view() == read_trim_spec(raw.deep_view()),
{
    match raw_chars(raw) {
        Some(cs) => {
            let (a, b) = trim_range(&cs, 0, cs.len());
            assert(cs@.subrange(0, cs@.len() as int) =~= cs@);
            if a == b {
                None
            } else {
                Some(string_of(&cs, a, b))
            }
        },
        None => None,
    }
}

/// An attribute holding an unsigned 32-bit number.
pub fn read_u32(raw: &Option<String>) -> (r: Option<u32>)
    ensures
        r == read_u32_spec(raw.deep_view()),
{
    match raw_chars(raw) {
        Some(cs) => {
            let (a, b) = trim_range(&cs, 0, cs.len());
            assert(cs@.subrange(0, cs@.len() as int) =~= cs@);
            if a == b {
                None
            } else {
                parse_u32(&cs, a, b)
            }
        },
        None => None,
    }
}

/// An attribute holding an unsigned 8-bit number.
pub fn read_u8(raw: &Option<String>) -> (r: Option<u8>)
    ensures
        r == read_u8_spec(raw.deep_view()),
{
    match raw_chars(raw) {
        Some(cs) => {
            let (a, b) = trim_range(&cs, 0, cs.len());
            assert(cs@.subrange(0, cs@.len() as int) =~= cs@);
            if a == b {
                None
            } else {
                parse_u8(&cs, a, b)
            }
        },
        None => None,
    }
}

/// The current power mode (`apu/power_mode`).
pub fn read_power_mode(raw: &Option<String>) -> (r: Option<String>)
    ensures
        r.deep_view() == read_trim_spec(raw.deep_view()),
{
    read_trim(raw)
}

/// The CPU temperature in °C (`temp1/temp`).
pub fn read_cpu_temp(raw: &Option<String>) -> (r: Option<u32>)
    ensures
        r == read_u32_spec(raw.deep_view()),
{
    read_u32(raw)
}

/// The lowest CPU temperature since the driver loaded (`temp1/min`).
pub fn read_cpu_min(raw: &Option<String>) -> (r: Option<u32>)
    ensures
        r == read_u32_spec(raw.deep_view()),
{
    read_u32(raw)
}

/// The highest CPU temperature since the driver loaded (`temp1/max`).
pub fn read_cpu_max(raw: &Option<String>) -> (r: Option<u32>)
    ensures
        r == read_u32_spec(raw.deep_view()),
{
    read_u32(raw)
}

/// A ramp curve: comma-separated integers.
pub fn read_curve(raw: &Option<String>) -> (r: Option<Vec<i32>>)
    ensures
        r.deep_view() == read_curve_spec(raw.deep_view()),
{
    let cs = match raw_chars(raw) {
        Some(cs) => cs,
        None => return None,
    };
    let (a, b) = trim_range(&cs, 0, cs.len());
    assert(cs@.subrange(0, cs@.len() as int) =~= cs@);
    if a == b {
        return None;
    }
    let ghost t = cs@.subrange(a as int, b as int);
    let mut out: Vec<i32> = Vec::new();
    let mut p = a;
    let mut k = a;
    proof {
        assert(cs@.subrange(a as int, a as int) =~= Seq::<char>::empty());
        assert(split_on(Seq::<char>::empty(), ',') == seq![Seq::<char>::empty()]);
        assert(seq![Seq::<char>::empty()].drop_last() =~= Seq::<Seq<char>>::empty());
    }
    while k < b
        invariant
            a <= p <= k <= b <= cs.len(),
            t == cs@.subrange(a as int, b as int),
            split_on(cs@.subrange(a as int, k as int), ',').len() >= 1,
            out@ == curve_items(split_on(cs@.subrange(a as int, k as int), ',').drop_last()),
            split_on(cs@.subrange(a as int, k as int), ',').last() == cs@.subrange(
                p as int,
                k as int,
            ),
        decreases b - k,
    {
        let ghost pre = cs@.subrange(a as int, k as int);
        let ghost next = cs@.subrange(a as int, k + 1);
        let ghost sp = split_on(pre, ',');
        assert(next.drop_last() =~= pre);
        assert(next.last() == cs@[k as int]);
        if cs[k] == ',' {
            let (x, y) = trim_range(&cs, p, k);
            let v = parse_i32(&cs, x, y);
            if let Some(n) = v {
                out.push(n);
            }
            proof {
                assert(split_on(next, ',') == sp.push(Seq::<char>::empty()));
                assert(sp.push(Seq::<char>::empty()).drop_last() =~= sp);
                assert(curve_items(sp) == match parse_i32_spec(trim(sp.last())) {
                    Some(n) => curve_items(sp.drop_last()).push(n),
                    None => curve_items(sp.drop_last()),
                });
                assert(cs@.subrange(k + 1, k + 1) =~= Seq::<char>::empty());
            }
            p = k + 1;
        } else {
            proof {
                let q = split_on(next, ',');
                assert(q == sp.update(sp.len() - 1, sp.last().push(cs@[k as int])));
                assert(q.drop_last() =~= sp.drop_last());
                assert(sp.last().push(cs@[k as int]) =~= cs@.subrange(p as int, k + 1));
            }
        }
        k = k + 1;
    }
    let (x, y) = trim_range(&cs, p, b);
    let v = parse_i32(&cs, x, y);
    if let Some(n) = v {
        out.push(n);
    }
    proof {
        let sp = split_on(t, ',');
        assert(curve_items(sp) == match parse_i32_spec(trim(sp.last())) {
            Some(n) => curve_items(sp.drop_last()).push(n),
            None => curve_items(sp.drop_last()),
        });
    }
    Some(out)
}

/// Whether an hwmon `name` attribute names the amdgpu driver.
pub fn is_amdgpu_name(name: &str) -> (b: bool)
    ensures
        b == (trim(name@) == "amdgpu"@),
{
    let t = crate::text::trimmed(name);
    same_text(t.as_str(), "amdgpu")
}

// ------------------------------------------------------------------
// Fans and snapshots
// ------------------------------------------------------------------

/// One fan as the driver reports it.
#[derive(Clone, Debug)]
pub struct Fan {
    pub label: String,
    pub rpm: Option<u32>,
    pub mode: Option<String>,
    pub level: Option<u8>,
    pub rampup: Option<Vec<i32>>,
    pub rampdown: Option<Vec<i32>>,
}

pub struct FanView {
    pub label: Seq<char>,
    pub rpm: Option<u32>,
    pub mode: Option<Seq<char>>,
    pub level: Option<u8>,
    pub rampup: Option<Seq<i32>>,
    pub rampdown: Option<Seq<i32>>,
}

impl View for Fan {
    type V = FanView;

    open spec fn view(&self) -> FanView {
        FanView {
            label: self.label@,
            rpm: self.rpm,
            mode: self.mode.deep_view(),
            level: self.level,
            rampup: self.rampup.deep_view(),
            rampdown: self.rampdown.deep_view(),
        }
    }
}

/// What was read from the attributes of one fan.
pub struct FanFiles {
    pub rpm: Option<String>,
    pub mode: Option<String>,
    pub level: Option<String>,
    pub rampup: Option<String>,
    pub rampdown: Option<String>,
}

pub open spec fn fan_label_spec(i: nat) -> Seq<char> {
    "fan"@ + decimal(i + 1)
}

pub open spec fn read_fan_spec(i: nat, files: FanFiles) -> FanView {
    FanView {
        label: fan_label_spec(i),
        rpm: read_u32_spec(files.rpm.deep_view()),
        mode: read_trim_spec(files.mode.deep_view()),
        level: read_u8_spec(files.level.deep_view()),
        rampup: read_curve_spec(files.rampup.deep_view()),
        rampdown: read_curve_spec(files.rampdown.deep_view()),
    }
}

/// Fan `i` from what its attributes (`rpm`, `mode`, `level`,
/// `rampup_curve`, `rampdown_curve`) held.
pub fn read_fan(i: usize, files: &FanFiles) -> (f: Fan)
    requires
        i < usize::MAX,
    ensures
        f@ == read_fan_spec(i as nat, *files),
{
    let mut label = String::from_str("fan");
    push_decimal(&mut label, (i + 1) as u64);
    Fan {
        label,
        rpm: read_u32(&files.rpm),
        mode: read_trim(&files.mode),
        level: read_u8(&files.level),
        rampup: read_curve(&files.rampup),
        rampdown: read_curve(&files.rampdown),
    }
}

/// What was read from the driver's attributes.
pub struct EcFiles {
    pub power_mode: Option<String>,
    pub cpu_temp: Option<String>,
    pub cpu_min: Option<String>,
    pub cpu_max: Option<String>,
    /// One entry per fan, fan 0 first.
    pub fans: Vec<FanFiles>,
}

/// The driver's readings at one moment. (The GPU temperature and package
/// power come from hwmon as fractional numbers and are kept by the caller.)
#[derive(Clone, Debug)]
pub struct Snapshot {
    pub driver_present: bool,
    pub power_mode: Option<String>,
    pub cpu_temp: Option<u32>,
    pub cpu_min: Option<u32>,
    pub cpu_max: Option<u32>,
    pub fans: Vec<Fan>,
}

pub struct SnapshotView {
    pub driver_present: bool,
    pub power_mode: Option<Seq<char>>,
    pub cpu_temp: Option<u32>,
    pub cpu_min: Option<u32>,
    pub cpu_max: Option<u32>,
    pub fans: Seq<FanView>,
}

impl View for Snapshot {
    type V = SnapshotView;

    open spec fn view(&self) -> SnapshotView {
        SnapshotView {
            driver_present: self.driver_present,
            power_mode: self.power_mode.deep_view(),
            cpu_temp: self.cpu_temp,
            cpu_min: self.cpu_min,
            cpu_max: self.cpu_max,
            fans: self.fans@.map_values(|f: Fan| f@),
        }
    }
}

/// The readings from the driver's attributes; `None` when the driver is
/// not loaded, which leaves every reading empty.
pub fn read_snapshot(files: &Option<EcFiles>) -> (s: Snapshot)
    requires
        files matches Some(f) ==> f.fans.len() < usize::MAX,
    ensures
        s.driver_present == files is Some,
        files is None ==> s@.power_mode is None && s.cpu_temp is None && s.cpu_min is None
            && s.cpu_max is None && s.fans.len() == 0,
        files matches Some(f) ==> {
            &&& s@.power_mode == read_trim_spec(f.power_mode.deep_view())
            &&& s.cpu_temp == read_u32_spec(f.cpu_temp.deep_view())
            &&& s.cpu_min == read_u32_spec(f.cpu_min.deep_view())
            &&& s.cpu_max == read_u32_spec(f.cpu_max.deep_view())
            &&& s.fans.len() == f.fans.len()
            &&& forall|i: int|
                0 <= i < s.fans.len() ==> #[trigger] s.fans@[i]@ == read_fan_spec(
                    i as nat,
                    f.fans@[i],
                )
        },
{
    match files {
        None => Snapshot {
            driver_present: false,
            power_mode: None,
            cpu_temp: None,
            cpu_min: None,
            cpu_max: None,
            fans: Vec::new(),
        },
        Some(f) => {
            let mut fans: Vec<Fan> = Vec::new();
            let mut i: usize = 0;
            while i < f.fans.len()
                invariant
                    i <= f.fans.len() < usize::MAX,
                    fans.len() == i,
                    forall|j: int|
                        0 <= j < i ==> #[trigger] fans@[j]@ == read_fan_spec(j as nat, f.fans@[j]),
                decreases f.fans.len() - i,
            {
                fans.push(read_fan(i, &f.fans[i]));
                i = i + 1;
            }
            Snapshot {
                driver_present: true,
                power_mode: read_power_mode(&f.power_mode),
                cpu_temp: read_cpu_temp(&f.cpu_temp),
                cpu_min: read_cpu_min(&f.cpu_min),
                cpu_max: read_cpu_max(&f.cpu_max),
                fans,
            }
        },
    }
}

impl Snapshot {
    /// The speed of fan `i` as the graph samples it: 0 when the fan or its
    /// reading is missing.
    pub fn fan_rpm(&self, i: usize) -> (r: u32)
        ensures
            r == (if i < self.fans.len() {
                match self.fans@[i as int].rpm {
                    Some(v) => v,
                    None => 0,
                }
            } else {
                0
            }),
    {
        if i < self.fans.len() {
            match self.fans[i].rpm {
                Some(v) => v,
                None => 0,
            }
        } else {
            0
        }
    }
}

// ------------------------------------------------------------------
// Writing attributes
// ------------------------------------------------------------------

/// Text to be written to a sysfs attribute.
pub struct Write {
    pub path: String,
    pub value: String,
}

/// Selects a power mode (`quiet`, `balanced` or `performance`).
pub fn set_power_mode(mode: &str) -> (w: Write)
    ensures
        w.path@ == power_mode_path_spec(),
        w.value@ == mode@,
{
    Write { path: power_mode_path(), value: String::from_str(mode) }
}

/// Selects the mode (`auto`, `fixed` or `curve`) of fan `i`.
pub fn set_fan_mode(i: usize, mode: &str) -> (w: Write)
    requires
        i < usize::MAX,
    ensures
        w.path@ == fan_file_spec(i as nat, "mode"@),
        w.value@ == mode@,
{
    Write { path: fan_file(i, "mode"), value: String::from_str(mode) }
}

/// Sets the fixed level of fan `i`.
pub fn set_fan_level(i: usize, level: u8) -> (w: Write)
    requires
        i < usize::MAX,
    ensures
        w.path@ == fan_file_spec(i as nat, "level"@),
        w.value@ == decimal(level as nat),
{
    let mut value = String::new();
    push_decimal(&mut value, level as u64);
    assert(value@ =~= decimal(level as nat));
    Write { path: fan_file(i, "level"), value }
}

pub open spec fn curve_attr(up: bool) -> Seq<char> {
    if up {
        "rampup_curve"@
    } else {
        "rampdown_curve"@
    }
}

/// Sets the ramp-up (`up`) or ramp-down curve of fan `i`.
pub fn set_fan_curve(i: usize, up: bool, values: &[i32]) -> (w: Write)
    requires
        i < usize::MAX,
    ensures
        w.path@ == fan_file_spec(i as nat, curve_attr(up)),
        w.value@ == join_csv_spec(values@),
{
    let field = if up {
        "rampup_curve"
    } else {
        "rampdown_curve"
    };
    Write { path: fan_file(i, field), value: join_csv(values) }
}

// ------------------------------------------------------------------
// What a read gives back of a write
// ------------------------------------------------------------------

proof fn lemma_digit_not_space(c: char)
    requires
        is_digit(c),
    ensures
        !is_space(c),
{
}

proof fn lemma_trim_unchanged(s: Seq<char>)
    requires
        s.len() > 0,
        !is_space(s[0]),
        !is_space(s.last()),
    ensures
        trim(s) == s,
{
    assert(trim_start(s) == s);
    assert(trim_end(s) == s);
}

pub proof fn lemma_int_text_shape(x: int)
    ensures
        int_text(x).len() > 0,
        !is_space(int_text(x)[0]),
        !is_space(int_text(x).last()),
        !has_char(int_text(x), ','),
        trim(int_text(x)) == int_text(x),
{
    let n: nat = if x < 0 {
        (-x) as nat
    } else {
        x as nat
    };
    lemma_decimal(n);
    let d = decimal(n);
    let t = int_text(x);
    assert(is_digit(d[0]));
    assert(is_digit(d[d.len() - 1]));
    if x < 0 {
        assert(t[0] == '-');
        assert(t.last() == d.last());
        assert forall|i: int| 0 <= i < t.len() implies t[i] != ',' by {
            if i > 0 {
                assert(t[i] == d[i - 1]);
                assert(is_digit(d[i - 1]));
            }
        }
    } else {
        assert forall|i: int| 0 <= i < t.len() implies t[i] != ',' by {
            assert(is_digit(d[i]));
        }
    }
    lemma_trim_unchanged(t);
}

/// The texts of the values, in order.
pub open spec fn texts_of(v: Seq<i32>) -> Seq<Seq<char>> {
    v.map_values(|x: i32| int_text(x as int))
}

pub proof fn lemma_join_shape(v: Seq<i32>)
    requires
        v.len() > 0,
    ensures
        join_csv_spec(v).len() > 0,
        join_csv_spec(v)[0] == int_text(v[0] as int)[0],
        join_csv_spec(v).last() == int_text(v.last() as int).last(),
        split_on(join_csv_spec(v), ',') == texts_of(v),
    decreases v.len(),
{
    let l = v.last();
    lemma_int_text_shape(l as int);
    if v.len() == 1 {
        let t = int_text(v[0] as int);
        lemma_split_extend(Seq::<char>::empty(), t, ',');
        assert(Seq::<char>::empty() + t =~= t);
        assert(seq![Seq::<char>::empty()].update(0, Seq::<char>::empty() + t) =~= seq![t]);
        assert(split_on(Seq::<char>::empty(), ',') == seq![Seq::<char>::empty()]);
        assert(texts_of(v) =~= seq![t]);
    } else {
        let v0 = v.drop_last();
        lemma_join_shape(v0);
        let j0 = join_csv_spec(v0);
        let t = int_text(l as int);
        assert(join_csv_spec(v) == j0 + seq![','] + t);
        assert((j0 + seq![','] + t)[0] == j0[0]);
        assert(v0[0] == v[0]);
        assert((j0 + seq![','] + t).last() == t.last());
        lemma_split_sep_extend(j0, t, ',');
        assert(texts_of(v0).push(t) =~= texts_of(v));
    }
}

proof fn lemma_items_of_texts(v: Seq<i32>)
    ensures
        curve_items(texts_of(v)) == v,
    decreases v.len(),
{
    if v.len() == 0 {
        assert(texts_of(v) =~= Seq::<Seq<char>>::empty());
    } else {
        let v0 = v.drop_last();
        lemma_items_of_texts(v0);
        assert(texts_of(v).drop_last() =~= texts_of(v0));
        let x = v.last();
        assert(texts_of(v).last() == int_text(x as int));
        lemma_int_text_shape(x as int);
        lemma_parse_int_text(x as int);
        assert(parse_i32_spec(int_text(x as int)) == Some(x));
        assert(v0.push(x) =~= v);
    }
}

/// Reading back an attribute that holds text without surrounding
/// whitespace gives that text: what `set_power_mode` and `set_fan_mode`
/// write is what `read_power_mode` and `read_fan` report.
pub proof fn law_text_read_back(text: Seq<char>)
    requires
        text.len() > 0,
        trim(text) == text,
    ensures
        read_trim_spec(Some(text)) == Some(text),
{
}

/// Reading back the level that `set_fan_level` wrote gives that level.
pub proof fn law_level_read_back(level: u8)
    ensures
        read_u8_spec(Some(decimal(level as nat))) == Some(level),
{
    let d = decimal(level as nat);
    lemma_decimal(level as nat);
    lemma_parse_decimal(level as nat);
    assert(is_digit(d[0]));
    assert(is_digit(d[d.len() - 1]));
    lemma_trim_unchanged(d);
}

/// Reading back a curve that `set_fan_curve` wrote gives its values.
pub proof fn law_curve_read_back(values: Seq<i32>)
    requires
        values.len() > 0,
    ensures
        read_curve_spec(Some(join_csv_spec(values))) == Some(values),
{
    lemma_join_shape(values);
    let j = join_csv_spec(values);
    lemma_int_text_shape(values[0] as int);
    lemma_int_text_shape(values.last() as int);
    lemma_trim_unchanged(j);
    lemma_items_of_texts(values);
}

} // verus!
