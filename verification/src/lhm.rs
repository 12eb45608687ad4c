//! The LibreHardwareMonitor sensor tree: walking it into flat sensor records
//! and deciding where each sensor goes in a thermal snapshot.
//!
//! Sensor values are kept as the numeric text the tree gives (in a form that
//! `f32::from_str` accepts); turning them into temperatures and comparing them
//! is floating point and stays with the application.

use vstd::prelude::*;
use crate::collector::{join_words, str_views};
use crate::text::{
    chars_of, contains_str, eq_str, find_str, is_digit, lowercase_of, push_all, push_str,
    spec_contains, spec_find, spec_trim, string_of, sub_chars, to_lowercase, trim,
};
use crate::thermal::{
    is_cpu_hardware, is_gpu_hardware, is_storage_hardware, lemma_storage_vendors, spec_is_cpu_hardware,
    spec_is_gpu_hardware, spec_is_storage_hardware,
};

verus! {

/// One node of the sensor tree: hardware, a sensor category, or a sensor.
#[derive(Debug)]
pub struct LhmNode {
    /// Display text, e.g. "Intel Core i7-10700K" or "CPU Core #1: 65 °C".
    pub text: String,
    pub children: Vec<LhmNode>,
    pub min: String,
    pub max: String,
    /// Current value of a sensor, e.g. "65.2 °C" or "1200 RPM"; empty otherwise.
    pub value: String,
    pub image_url: String,
}

/// A sensor found in the tree.
#[derive(Debug, Clone)]
pub struct ParsedSensor {
    /// Names of the hardware nodes above the sensor, outermost first.
    pub hardware_path: Vec<String>,
    /// Sensor name: the node text before any colon.
    pub name: String,
    /// The sensor's numeric value as text, with '.' as decimal point.
    pub value_text: String,
    /// Category of the sensor: "Temperatures", "Fans", ...
    pub category: String,
}

// ── Sensor values ─────────────────────────────────────────────────

/// Characters a sensor value's leading number is made of.
pub open spec fn number_char(c: char) -> bool {
    is_digit(c) || c == '.' || c == '-' || c == ','
}

/// The longest prefix of `s` made of number characters.
pub open spec fn leading_number(s: Seq<char>) -> Seq<char>
    decreases s.len(),
{
    if s.len() > 0 && number_char(s[0]) {
        seq![s[0]] + leading_number(s.drop_first())
    } else {
        Seq::empty()
    }
}

/// `s` with every ',' replaced by '.'.
pub open spec fn comma_to_dot(s: Seq<char>) -> Seq<char> {
    s.map_values(|c: char| if c == ',' { '.' } else { c })
}

/// Text over digits, '.' and '-' that `f32::from_str` accepts: an optional
/// minus sign, then digits with at most one '.', and at least one digit.
pub open spec fn float_text_ok(t: Seq<char>) -> bool {
    float_body_ok(without_minus(t))
}

/// `t` without a leading minus sign.
pub open spec fn without_minus(t: Seq<char>) -> Seq<char> {
    if t.len() > 0 && t[0] == '-' {
        t.drop_first()
    } else {
        t
    }
}

/// Digits with at most one '.', and at least one digit.
pub open spec fn float_body_ok(b: Seq<char>) -> bool {
    &&& forall|i: int| 0 <= i < b.len() ==> is_digit(#[trigger] b[i]) || b[i] == '.'
    &&& forall|i: int, j: int| 0 <= i < j < b.len() && #[trigger] b[i] == '.' ==> #[trigger] b[j] != '.'
    &&& exists|i: int| 0 <= i < b.len() && is_digit(#[trigger] b[i])
}

/// The numeric text of a sensor value, if it has one that parses.
pub open spec fn spec_sensor_number(s: Seq<char>) -> Option<Seq<char>> {
    let t = spec_trim(s);
    if t.len() == 0 || t == "-"@ || t == "N/A"@ {
        None
    } else {
        let n = comma_to_dot(leading_number(t));
        if float_text_ok(n) {
            Some(n)
        } else {
            None
        }
    }
}

/// The numeric text of a sensor value such as "65.2 °C" or "1200 RPM", if its
/// leading number parses as `f32`.
pub fn sensor_number_text(s: &str) -> (r: Option<String>)
    ensures
        match r {
            Some(t) => spec_sensor_number(s@) == Some(t@),
            None => spec_sensor_number(s@) is None,
        },
{
    let cs = chars_of(s);
    let t = trim(cs.as_slice());
    if t.len() == 0 || eq_str(t.as_slice(), "-") || eq_str(t.as_slice(), "N/A") {
        return None;
    }
    // Leading number, commas as decimal points.
    let mut n: Vec<char> = Vec::new();
    let mut i: usize = 0;
    proof {
        assert(t@.skip(0) =~= t@);
    }
    while i < t.len() && (('0' <= t[i] && t[i] <= '9') || t[i] == '.' || t[i] == '-' || t[i] == ',')
        invariant
            i <= t@.len(),
            leading_number(t@) == t@.take(i as int) + leading_number(t@.skip(i as int)),
            n@ == comma_to_dot(t@.take(i as int)),
        decreases t@.len() - i,
    {
        proof {
            assert(t@.skip(i as int).drop_first() =~= t@.skip(i + 1));
            assert(t@.skip(i as int)[0] == t@[i as int]);
            assert(t@.take(i + 1) =~= t@.take(i as int).push(t@[i as int]));
            assert(t@.take(i as int) + seq![t@[i as int]] =~= t@.take(i + 1));
        }
        n.push(if t[i] == ',' { '.' } else { t[i] });
        proof {
            assert(n@ =~= comma_to_dot(t@.take(i + 1)));
        }
        i = i + 1;
    }
    proof {
        assert(leading_number(t@.skip(i as int)) =~= Seq::<char>::empty());
        assert(leading_number(t@) =~= t@.take(i as int));
    }
    // Check the float syntax.
    let start: usize = if n.len() > 0 && n[0] == '-' { 1 } else { 0 };
    let body = sub_chars(n.as_slice(), start, n.len());
    proof {
        assert(body@ =~= if n@.len() > 0 && n@[0] == '-' { n@.drop_first() } else { n@ });
    }
    let mut seen_dot = false;
    let mut digits = false;
    let mut ok = true;
    let mut q: usize = 0;
    while q < body.len()
        invariant
            q <= body@.len(),
            ok ==> forall|a: int| 0 <= a < q ==> is_digit(#[trigger] body@[a]) || body@[a] == '.',
            ok ==> (seen_dot <==> exists|a: int| 0 <= a < q && #[trigger] body@[a] == '.'),
            ok ==> forall|a: int, b: int| 0 <= a < b < q && #[trigger] body@[a] == '.' ==> #[trigger] body@[b] != '.',
            digits <==> exists|a: int| 0 <= a < q && is_digit(#[trigger] body@[a]),
            !ok ==> (exists|a: int| 0 <= a < body@.len() && !(is_digit(#[trigger] body@[a]) || body@[a] == '.'))
                || (exists|a: int, b: int| 0 <= a < b < body@.len() && #[trigger] body@[a] == '.' && #[trigger] body@[b] == '.'),
        decreases body@.len() - q,
    {
        let c = body[q];
        if '0' <= c && c <= '9' {
            digits = true;
        } else if c == '.' {
            if ok && seen_dot {
                proof {
                    let a = choose|a: int| 0 <= a < q && #[trigger] body@[a] == '.';
                    assert(body@[a] == '.' && body@[q as int] == '.');
                }
                ok = false;
            }
            seen_dot = true;
        } else {
            proof {
                assert(!(is_digit(body@[q as int]) || body@[q as int] == '.'));
            }
            ok = false;
        }
        q = q + 1;
    }
    if ok && digits {
        proof {
            let bd = if n@.len() > 0 && n@[0] == '-' { n@.drop_first() } else { n@ };
            assert(bd == body@);
            assert(q == body@.len());
            assert(forall|a: int| 0 <= a < bd.len() ==> is_digit(#[trigger] bd[a]) || bd[a] == '.');
            assert(forall|a: int, b: int| 0 <= a < b < bd.len() && #[trigger] bd[a] == '.' ==> #[trigger] bd[b] != '.');
            let w = choose|a: int| 0 <= a < q && is_digit(#[trigger] body@[a]);
            assert(is_digit(bd[w]));
            assert(without_minus(n@) == bd);
            assert(float_body_ok(bd));
            assert(float_text_ok(n@));
            assert(n@ == comma_to_dot(leading_number(t@)));
        }
        Some(string_of(n.as_slice()))
    } else {
        proof {
            if !ok {
                if exists|a: int| 0 <= a < body@.len() && !(is_digit(#[trigger] body@[a]) || body@[a] == '.') {
                    let a = choose|a: int| 0 <= a < body@.len() && !(is_digit(#[trigger] body@[a]) || body@[a] == '.');
                    assert(!(is_digit(body@[a]) || body@[a] == '.'));
                } else {
                    let (a, b) = choose|a: int, b: int| 0 <= a < b < body@.len() && #[trigger] body@[a] == '.' && #[trigger] body@[b] == '.';
                    assert(body@[a] == '.' && body@[b] == '.');
                }
            }
        }
        None
    }
}

// ── Walking the tree ──────────────────────────────────────────────

/// The plain values of a parsed sensor: path, name, value text, category.
pub type SensorView = (Seq<Seq<char>>, Seq<char>, Seq<char>, Seq<char>);

pub open spec fn sensor_view(s: ParsedSensor) -> SensorView {
    (str_views(s.hardware_path@), s.name@, s.value_text@, s.category@)
}

/// Node texts that name a sensor category.
pub open spec fn is_category_text(t: Seq<char>) -> bool {
    t == "Temperatures"@ || t == "Fans"@ || t == "Voltages"@ || t == "Clocks"@ || t == "Powers"@ || t
        == "Load"@ || t == "Data"@ || t == "Throughput"@
}

/// A sensor's name: its text before the first colon, trimmed, or the whole text.
pub open spec fn sensor_name(text: Seq<char>) -> Seq<char> {
    match spec_find(text, ":"@) {
        Some(p) => spec_trim(text.take(p)),
        None => text,
    }
}

/// The sensors under `n`, in tree order, given the hardware path above it and
/// the current category; also the category in force afterwards.
pub open spec fn walk(n: LhmNode, path: Seq<Seq<char>>, cat: Seq<char>) -> (Seq<SensorView>, Seq<char>)
    decreases n,
{
    let text = spec_trim(n.text@);
    let is_cat = is_category_text(text);
    let cat1 = if is_cat { text } else { cat };
    let here = if n.value@.len() > 0 && n.children@.len() == 0 && cat1.len() > 0 {
        match spec_sensor_number(n.value@) {
            Some(v) => seq![(path, sensor_name(text), v, cat1)],
            None => Seq::empty(),
        }
    } else {
        Seq::empty()
    };
    let is_hw = !is_cat && text.len() > 0 && n.value@.len() == 0;
    let path1 = if is_hw { path.push(text) } else { path };
    let (below, cat2) = walk_list(n.children@, path1, cat1);
    (here + below, if is_cat { Seq::empty() } else { cat2 })
}

/// `walk` over a list of sibling nodes, in order.
pub open spec fn walk_list(s: Seq<LhmNode>, path: Seq<Seq<char>>, cat: Seq<char>) -> (Seq<SensorView>, Seq<char>)
    decreases s,
{
    if s.len() == 0 {
        (Seq::empty(), cat)
    } else {
        let (o1, c1) = walk_list(s.drop_last(), path, cat);
        let (o2, c2) = walk(s.last(), path, c1);
        (o1 + o2, c2)
    }
}

/// All sensors of a tree.
pub open spec fn sensors_of(root: LhmNode) -> Seq<SensorView> {
    walk(root, Seq::empty(), Seq::empty()).0
}

fn copy_path(v: &Vec<String>) -> (r: Vec<String>)
    ensures
        r@ == v@,
{
    let mut r: Vec<String> = Vec::new();
    let mut i: usize = 0;
    while i < v.len()
        invariant
            i <= v@.len(),
            r@ == v@.take(i as int),
        decreases v@.len() - i,
    {
        r.push(v[i].clone());
        proof {
            assert(r@ =~= v@.take(i + 1));
        }
        i = i + 1;
    }
    proof {
        assert(v@.take(v@.len() as int) =~= v@);
    }
    r
}

fn sensor_name_exec(text: &[char]) -> (r: Vec<char>)
    ensures
        r@ == sensor_name(text@),
{
    match find_str(text, ":") {
        Some(p) => {
            let before = sub_chars(text, 0, p);
            proof {
                assert(before@ =~= text@.take(p as int));
            }
            trim(before.as_slice())
        },
        None => {
            let r = sub_chars(text, 0, text.len());
            proof {
                assert(r@ =~= text@);
            }
            r
        },
    }
}

fn walk_exec(node: &LhmNode, path: &mut Vec<String>, cat: &mut String, out: &mut Vec<ParsedSensor>)
    ensures
        final(path)@ == old(path)@,
        final(out)@.map_values(|s: ParsedSensor| sensor_view(s)) == old(out)@.map_values(|s: ParsedSensor| sensor_view(s))
            + walk(*node, str_views(old(path)@), old(cat)@).0,
        final(cat)@ == walk(*node, str_views(old(path)@), old(cat)@).1,
    decreases node,
{
    let ghost path0 = str_views(path@);
    let ghost cat0 = cat@;
    let ghost out0 = out@.map_values(|s: ParsedSensor| sensor_view(s));
    let tc = chars_of(node.text.as_str());
    let text = trim(tc.as_slice());
    let is_cat = eq_str(text.as_slice(), "Temperatures") || eq_str(text.as_slice(), "Fans") || eq_str(
        text.as_slice(),
        "Voltages",
    ) || eq_str(text.as_slice(), "Clocks") || eq_str(text.as_slice(), "Powers") || eq_str(
        text.as_slice(),
        "Load",
    ) || eq_str(text.as_slice(), "Data") || eq_str(text.as_slice(), "Throughput");
    let text_s = string_of(text.as_slice());
    if is_cat {
        *cat = text_s.clone();
    }
    let ghost cat1 = cat@;
    let vc = chars_of(node.value.as_str());
    if vc.len() > 0 && node.children.len() == 0 {
        if let Some(v) = sensor_number_text(node.value.as_str()) {
            let cc = chars_of(cat.as_str());
            if cc.len() > 0 {
                let name = sensor_name_exec(text.as_slice());
                let ghost before = out@;
                out.push(ParsedSensor {
                    hardware_path: copy_path(path),
                    name: string_of(name.as_slice()),
                    value_text: v,
                    category: cat.clone(),
                });
                proof {
                    assert(out@.map_values(|s: ParsedSensor| sensor_view(s)) =~= before.map_values(
                        |s: ParsedSensor| sensor_view(s),
                    ).push(sensor_view(out@.last())));
                }
            }
        }
    }
    let ghost here_out = out@.map_values(|s: ParsedSensor| sensor_view(s));
    let is_hw = !is_cat && text.len() > 0 && vc.len() == 0;
    let ghost pv0 = path@;
    if is_hw {
        path.push(text_s);
    }
    let ghost pv1 = path@;
    let ghost path1 = str_views(path@);
    proof {
        if is_hw {
            assert(path1 =~= path0.push(text@));
        } else {
            assert(path1 == path0);
        }
    }
    let mut i: usize = 0;
    while i < node.children.len()
        invariant
            i <= node.children@.len(),
            path@ == pv1,
            str_views(path@) == path1,
            out@.map_values(|s: ParsedSensor| sensor_view(s)) == here_out + walk_list(node.children@.take(i as int), path1, cat1).0,
            cat@ == walk_list(node.children@.take(i as int), path1, cat1).1,
        decreases node.children@.len() - i,
    {
        proof {
            assert(node.children@.take(i + 1).drop_last() =~= node.children@.take(i as int));
            assert(node.children@.take(i + 1).last() == node.children@[i as int]);
        }
        let ghost out_before = out@.map_values(|s: ParsedSensor| sensor_view(s));
        walk_exec(&node.children[i], path, cat, out);
        proof {
            assert(out@.map_values(|s: ParsedSensor| sensor_view(s)) =~= here_out + walk_list(node.children@.take(i + 1), path1, cat1).0);
        }
        i = i + 1;
    }
    proof {
        assert(node.children@.take(node.children@.len() as int) =~= node.children@);
    }
    if is_hw {
        path.pop();
        proof {
            assert(path@ =~= pv0);
        }
    }
    if is_cat {
        *cat = String::new();
    }
    proof {
        assert(out@.map_values(|s: ParsedSensor| sensor_view(s)) =~= out0 + walk(*node, path0, cat0).0);
    }
}

/// Flattens the sensor tree into its sensors, in tree order.
pub fn collect_sensors(root: &LhmNode) -> (r: Vec<ParsedSensor>)
    ensures
        r@.map_values(|s: ParsedSensor| sensor_view(s)) == sensors_of(*root),
{
    let mut path: Vec<String> = Vec::new();
    let mut cat = String::new();
    let mut out: Vec<ParsedSensor> = Vec::new();
    walk_exec(root, &mut path, &mut cat, &mut out);
    proof {
        assert(str_views(Seq::<String>::empty()) =~= Seq::<Seq<char>>::empty());
        assert(out@.map_values(|s: ParsedSensor| sensor_view(s)) =~= sensors_of(*root));
    }
    out
}

// ── Where a sensor goes ───────────────────────────────────────────

/// The place of a sensor in a thermal snapshot.
#[derive(Debug, Clone, Copy, PartialEq, Eq, Structural)]
pub enum SensorSlot {
    /// CPU package (or total) temperature.
    CpuPackage,
    /// A CPU core temperature.
    CpuCore,
    /// Another CPU temperature: counts towards the CPU maximum only.
    CpuOther,
    /// GPU hot spot temperature.
    GpuHotspot,
    /// GPU temperature.
    GpuTemp,
    /// Another GPU temperature: counts towards the GPU maximum only.
    GpuOther,
    /// A drive temperature.
    Storage,
    /// Motherboard, chipset or other temperature.
    Motherboard,
    /// A fan speed.
    Fan,
    /// Not shown (voltages, clocks, loads, ...).
    Ignored,
}

/// The slot of a sensor of `category` whose lowercased hardware path (names
/// joined with spaces) is `path` and whose lowercased name is `name`.
pub open spec fn spec_sensor_slot(category: Seq<char>, path: Seq<char>, name: Seq<char>) -> SensorSlot {
    if category == "Temperatures"@ {
        if spec_is_cpu_hardware(path) {
            if spec_contains(name, "package"@) || spec_contains(name, "cpu total"@) {
                SensorSlot::CpuPackage
            } else if spec_contains(name, "core"@) {
                SensorSlot::CpuCore
            } else {
                SensorSlot::CpuOther
            }
        } else if spec_is_gpu_hardware(path) {
            if spec_contains(name, "hot spot"@) || spec_contains(name, "hotspot"@) {
                SensorSlot::GpuHotspot
            } else if spec_contains(name, "gpu"@) || spec_contains(name, "temperature"@) {
                SensorSlot::GpuTemp
            } else {
                SensorSlot::GpuOther
            }
        } else if spec_is_storage_hardware(path) {
            SensorSlot::Storage
        } else {
            SensorSlot::Motherboard
        }
    } else if category == "Fans"@ {
        SensorSlot::Fan
    } else {
        SensorSlot::Ignored
    }
}

/// A temperature on hardware that is neither CPU nor GPU goes with the drive
/// temperatures when the hardware path names a drive vendor or kind (such as
/// kingston, samsung, nvme or ssd), and with the motherboard temperatures
/// otherwise; fan speeds go with the fans, and other sensors are not shown.
pub proof fn lemma_temperature_slots(category: Seq<char>, path: Seq<char>, name: Seq<char>)
    ensures
        category == "Temperatures"@ && !spec_is_cpu_hardware(path) && !spec_is_gpu_hardware(path)
            && (spec_contains(path, "kingston"@) || spec_contains(path, "samsung"@) || spec_contains(path, "nvme"@)
            || spec_contains(path, "ssd"@) || spec_contains(path, "crucial"@) || spec_contains(path, "hynix"@)
            || spec_contains(path, "western digital"@) || spec_contains(path, "wd "@)) ==> spec_sensor_slot(
            category,
            path,
            name,
        ) == SensorSlot::Storage,
        category == "Temperatures"@ && !spec_is_cpu_hardware(path) && !spec_is_gpu_hardware(path)
            && !spec_is_storage_hardware(path) ==> spec_sensor_slot(category, path, name) == SensorSlot::Motherboard,
        category == "Fans"@ ==> spec_sensor_slot(category, path, name) == SensorSlot::Fan,
{
    lemma_storage_vendors(path);
    reveal_strlit("Temperatures");
    reveal_strlit("Fans");
    assert("Temperatures"@.len() == 12);
    assert("Fans"@.len() == 4);
}

fn join_path(path: &Vec<String>) -> (r: String)
    ensures
        r@ == join_words(str_views(path@)),
{
    let mut v: Vec<char> = Vec::new();
    let mut i: usize = 0;
    while i < path.len()
        invariant
            i <= path@.len(),
            v@ == join_words(str_views(path@).take(i as int)),
        decreases path@.len() - i,
    {
        proof {
            assert(str_views(path@).take(i + 1).drop_last() =~= str_views(path@).take(i as int));
        }
        if i > 0 {
            push_str(&mut v, " ");
        }
        push_str(&mut v, path[i].as_str());
        i = i + 1;
    }
    proof {
        assert(str_views(path@).take(path@.len() as int) =~= str_views(path@));
    }
    string_of(v.as_slice())
}

/// Where a parsed sensor goes in the thermal snapshot.
pub fn classify_sensor(sensor: &ParsedSensor) -> (r: SensorSlot)
    ensures
        r == spec_sensor_slot(
            sensor.category@,
            lowercase_of(join_words(str_views(sensor.hardware_path@))),
            lowercase_of(sensor.name@),
        ),
{
    let cat = chars_of(sensor.category.as_str());
    if eq_str(cat.as_slice(), "Temperatures") {
        let joined = join_path(&sensor.hardware_path);
        let path = to_lowercase(joined.as_str());
        let lname = to_lowercase(sensor.name.as_str());
        let name = chars_of(lname.as_str());
        if is_cpu_hardware(path.as_str()) {
            if contains_str(name.as_slice(), "package") || contains_str(name.as_slice(), "cpu total") {
                SensorSlot::CpuPackage
            } else if contains_str(name.as_slice(), "core") {
                SensorSlot::CpuCore
            } else {
                SensorSlot::CpuOther
            }
        } else if is_gpu_hardware(path.as_str()) {
            if contains_str(name.as_slice(), "hot spot") || contains_str(name.as_slice(), "hotspot") {
                SensorSlot::GpuHotspot
            } else if contains_str(name.as_slice(), "gpu") || contains_str(name.as_slice(), "temperature") {
                SensorSlot::GpuTemp
            } else {
                SensorSlot::GpuOther
            }
        } else if is_storage_hardware(path.as_str()) {
            SensorSlot::Storage
        } else {
            SensorSlot::Motherboard
        }
    } else if eq_str(cat.as_slice(), "Fans") {
        SensorSlot::Fan
    } else {
        SensorSlot::Ignored
    }
}

} // verus!
