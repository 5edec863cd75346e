//! Clock frequency and temperature readings, computed from the text of the
//! kernel's cpufreq and hwmon files.
//!
//! Frequencies are whole MHz, as the kernel files give them after division
//! by 1000. Temperatures are thousandths of a degree Celsius, which is what
//! hwmon files hold.

use vstd::prelude::*;
use crate::constants::{DEFAULT_CRITICAL_TEMP, FULL_PERCENT};
use crate::smoother::seq_sum;
use crate::text::{
    ascii_lower, bytes_equal, contains, ends_with, has_prefix, has_substring, has_suffix,
    i32_text, lit, parse_i32, parse_u32, starts_with, to_ascii_lower, trim, trimmed, u32_text,
};

verus! {

/// Per-core frequencies; `per_core[i]` and `max_per_core[i]` describe the
/// same core, 0 where a file could not be read.
#[derive(Clone, Debug)]
pub struct CpuFrequency {
    /// Current frequency of each core (MHz).
    pub per_core: Vec<u32>,
    /// Maximum frequency of each core (MHz).
    pub max_per_core: Vec<u32>,
}

/// The view of an optional file content.
pub open spec fn opt_bytes(o: Option<Vec<u8>>) -> Option<Seq<u8>> {
    match o {
        Some(v) => Some(v@),
        None => None,
    }
}

/// MHz from the text of a cpufreq file in kHz; 0 when it is missing or
/// does not hold a number.
pub open spec fn khz_file_mhz(f: Option<Seq<u8>>) -> u32 {
    match f {
        Some(t) => match u32_text(trimmed(t)) {
            Some(k) => (k / 1000) as u32,
            None => 0,
        },
        None => 0,
    }
}

/// One core's frequency as thousandths of a percent of its maximum; 0 when
/// the core or its maximum is unknown.
pub open spec fn core_percent(per: Seq<u32>, max: Seq<u32>, i: int) -> nat {
    if 0 <= i < per.len() && i < max.len() && max[i] > 0 {
        (per[i] as nat * FULL_PERCENT as nat) / (max[i] as nat)
    } else {
        0
    }
}

pub open spec fn percent_sum(per: Seq<u32>, max: Seq<u32>, k: int) -> nat
    decreases k,
{
    if k <= 0 {
        0
    } else {
        percent_sum(per, max, k - 1) + core_percent(per, max, k - 1)
    }
}

impl Default for CpuFrequency {
    fn default() -> (r: Self)
        ensures
            r.per_core@.len() == 0,
            r.max_per_core@.len() == 0,
    {
        CpuFrequency { per_core: Vec::new(), max_per_core: Vec::new() }
    }
}

/// MHz from the text of a cpufreq file in kHz, 0 when it holds no number.
pub fn mhz_from_khz_text(text: &[u8]) -> (r: u32)
    ensures
        r == khz_file_mhz(Some(text@)),
{
    match parse_u32(trim(text)) {
        Some(k) => k / 1000,
        None => 0,
    }
}

fn file_mhz(f: &Option<Vec<u8>>) -> (r: u32)
    ensures
        r == khz_file_mhz(opt_bytes(*f)),
{
    match f {
        Some(v) => mhz_from_khz_text(v.as_slice()),
        None => 0,
    }
}

impl CpuFrequency {
    /// Builds the readings from the contents of each core's current and
    /// maximum frequency files, in core order (`None`: unreadable).
    pub fn read(files: &Vec<(Option<Vec<u8>>, Option<Vec<u8>>)>) -> (r: CpuFrequency)
        ensures
            r.per_core@.len() == files@.len(),
            r.max_per_core@.len() == files@.len(),
            forall|i: int|
                0 <= i < files@.len() ==> #[trigger] r.per_core@[i] == khz_file_mhz(
                    opt_bytes(files@[i].0),
                ) && r.max_per_core@[i] == khz_file_mhz(opt_bytes(files@[i].1)),
    {
        let mut per_core: Vec<u32> = Vec::new();
        let mut max_per_core: Vec<u32> = Vec::new();
        let mut i: usize = 0;
        while i < files.len()
            invariant
                i <= files@.len(),
                per_core@.len() == i,
                max_per_core@.len() == i,
                forall|j: int|
                    0 <= j < i ==> #[trigger] per_core@[j] == khz_file_mhz(opt_bytes(files@[j].0))
                        && max_per_core@[j] == khz_file_mhz(opt_bytes(files@[j].1)),
            decreases files@.len() - i,
        {
            let cur = file_mhz(&files[i].0);
            let max = file_mhz(&files[i].1);
            per_core.push(cur);
            max_per_core.push(max);
            i = i + 1;
        }
        CpuFrequency { per_core, max_per_core }
    }

    /// Mean current frequency over the cores, rounded down; 0 with no cores.
    pub fn average_mhz(&self) -> (r: u32)
        ensures
            self.per_core@.len() == 0 ==> r == 0,
            self.per_core@.len() > 0 ==> r as int == seq_sum(self.per_core@) / (
            self.per_core@.len() as int),
    {
        let n = self.per_core.len();
        if n == 0 {
            return 0;
        }
        let mut sum: u128 = 0;
        let mut i: usize = 0;
        while i < n
            invariant
                n == self.per_core@.len(),
                i <= n,
                sum == seq_sum(self.per_core@.subrange(0, i as int)),
                sum <= i * (u32::MAX as int),
            decreases n - i,
        {
            proof {
                let s = self.per_core@.subrange(0, i + 1);
                assert(s.drop_last() =~= self.per_core@.subrange(0, i as int));
                assert((i + 1) * (u32::MAX as int) == i * (u32::MAX as int) + u32::MAX) by (nonlinear_arith);
                assert(i * (u32::MAX as int) <= 0x1_0000_0000_0000_0000 * (u32::MAX as int)) by (nonlinear_arith)
                    requires i <= 0x1_0000_0000_0000_0000int;
            }
            sum = sum + self.per_core[i] as u128;
            i = i + 1;
        }
        assert(self.per_core@.subrange(0, n as int) =~= self.per_core@);
        proof {
            vstd::arithmetic::div_mod::lemma_div_is_ordered(sum as int, n * (u32::MAX as int), n as int);
            vstd::arithmetic::div_mod::lemma_div_by_multiple(u32::MAX as int, n as int);
            assert(n * (u32::MAX as int) == (u32::MAX as int) * n) by (nonlinear_arith);
        }
        (sum / (n as u128)) as u32
    }

    /// One core's frequency in thousandths of a percent of its maximum; 0 for
    /// an unknown core or a zero maximum.
    pub fn percentage(&self, core: usize) -> (r: u64)
        ensures
            r as nat == core_percent(self.per_core@, self.max_per_core@, core as int),
    {
        if core < self.per_core.len() && core < self.max_per_core.len() {
            let max = self.max_per_core[core];
            if max > 0 {
                let cur = self.per_core[core] as u64;
                assert(cur * 100_000 <= u32::MAX as int * 100_000) by (nonlinear_arith)
                    requires cur <= u32::MAX;
                return cur * (FULL_PERCENT as u64) / (max as u64);
            }
        }
        0
    }

    /// Mean of the per-core percentages, rounded down; 0 with no cores.
    pub fn average_percentage(&self) -> (r: u64)
        ensures
            self.per_core@.len() == 0 ==> r == 0,
            self.per_core@.len() > 0 ==> r as int == percent_sum(
                self.per_core@,
                self.max_per_core@,
                self.per_core@.len() as int,
            ) as int / (self.per_core@.len() as int),
    {
        let n = self.per_core.len();
        if n == 0 {
            return 0;
        }
        let bound: u128 = (u32::MAX as u128) * (FULL_PERCENT as u128);
        let mut sum: u128 = 0;
        let mut i: usize = 0;
        while i < n
            invariant
                n == self.per_core@.len(),
                i <= n,
                bound == (u32::MAX as int) * (FULL_PERCENT as int),
                sum == percent_sum(self.per_core@, self.max_per_core@, i as int),
                sum <= i * bound,
            decreases n - i,
        {
            let p = self.percentage(i);
            proof {
                let (per, max) = (self.per_core@, self.max_per_core@);
                if i < max.len() && max[i as int] > 0 {
                    let a = per[i as int] as int * FULL_PERCENT as int;
                    assert(a <= bound) by (nonlinear_arith)
                        requires a == per[i as int] as int * FULL_PERCENT as int,
                            per[i as int] <= u32::MAX, bound == (u32::MAX as int) * (FULL_PERCENT as int);
                    vstd::arithmetic::div_mod::lemma_div_is_ordered(a, bound as int, max[i as int] as int);
                    vstd::arithmetic::div_mod::lemma_div_is_ordered_by_denominator(bound as int, 1, max[i as int] as int);
                }
                assert((i + 1) * bound == i * bound + bound) by (nonlinear_arith);
                assert(i * bound <= 0x1_0000_0000_0000_0000 * bound) by (nonlinear_arith)
                    requires i <= 0x1_0000_0000_0000_0000int, bound >= 0;
            }
            sum = sum + p as u128;
            i = i + 1;
        }
        proof {
            vstd::arithmetic::div_mod::lemma_div_is_ordered(sum as int, n * bound, n as int);
            vstd::arithmetic::div_mod::lemma_div_by_multiple(bound as int, n as int);
            assert(n * bound == bound * n) by (nonlinear_arith);
        }
        (sum / (n as u128)) as u64
    }
}


/// Temperatures from one hardware sensor; not every sensor gives every
/// field.
#[derive(Clone, Debug)]
pub struct CpuTemperature {
    /// Per-core temperatures.
    pub per_core: Vec<i32>,
    /// Package or die temperature.
    pub package: Option<i32>,
    /// Temperature at which the CPU throttles.
    pub critical: Option<i32>,
}

impl Default for CpuTemperature {
    fn default() -> (r: Self)
        ensures
            r.per_core@.len() == 0,
            r.package is None,
            r.critical is None,
    {
        CpuTemperature { per_core: Vec::new(), package: None, critical: None }
    }
}

/// One file of a hwmon directory: its name and its content (`None`:
/// unreadable).
#[derive(Clone, Debug)]
pub struct HwmonEntry {
    pub file_name: Vec<u8>,
    pub content: Option<Vec<u8>>,
}

/// One hwmon device: the content of its `name` file and its other files.
#[derive(Clone, Debug)]
pub struct HwmonDevice {
    pub name: Option<Vec<u8>>,
    pub entries: Vec<HwmonEntry>,
}

/// What a sensor scan has found so far: per-core readings, the package
/// reading, the critical threshold.
pub type TempScan = (Seq<i32>, Option<i32>, Option<i32>);

/// A `temp<N>_input` file.
pub open spec fn is_input_file(n: Seq<u8>) -> bool {
    starts_with(n, lit("temp")) && ends_with(n, lit("_input"))
}

/// A `temp<N>_crit` file.
pub open spec fn is_crit_file(n: Seq<u8>) -> bool {
    starts_with(n, lit("temp")) && ends_with(n, lit("_crit"))
}

/// The label file that belongs to an input file: `_input` becomes `_label`.
pub open spec fn label_file(n: Seq<u8>) -> Seq<u8> {
    n.subrange(0, n.len() - lit("_input").len()) + lit("_label")
}

/// The trimmed, lower-cased label from the first entry named `want`, at or
/// after index `j`; empty when there is none or it cannot be read.
///
/// Labels are lower-cased in ASCII only; other bytes are compared as they
/// are.
pub open spec fn label_from(entries: Seq<HwmonEntry>, want: Seq<u8>, j: int) -> Seq<u8>
    decreases entries.len() - j,
    when j >= 0
{
    if j >= entries.len() {
        Seq::empty()
    } else if entries[j].file_name@ == want {
        match entries[j].content {
            Some(c) => ascii_lower(trimmed(c@)),
            None => Seq::empty(),
        }
    } else {
        label_from(entries, want, j + 1)
    }
}

/// Millidegrees from the text of a hwmon file.
pub open spec fn millidegrees(c: Option<Vec<u8>>) -> Option<i32> {
    match c {
        Some(v) => i32_text(trimmed(v@)),
        None => None,
    }
}

pub open spec fn is_package_label(l: Seq<u8>) -> bool {
    contains(l, lit("package")) || contains(l, lit("tctl")) || contains(l, lit("tdie"))
}

/// Files one reading: a package label sets the package temperature, a core
/// label adds a core, and an unlabelled reading becomes the package
/// temperature while nothing else has been found.
pub open spec fn classify(acc: TempScan, label: Seq<u8>, t: i32) -> TempScan {
    if is_package_label(label) {
        (acc.0, Some(t), acc.2)
    } else if contains(label, lit("core")) {
        (acc.0.push(t), acc.1, acc.2)
    } else if acc.1 is None && acc.0.len() == 0 {
        (acc.0, Some(t), acc.2)
    } else {
        acc
    }
}

/// The scan of the first `k` entries of a hwmon directory, in order.
pub open spec fn hwmon_scan(entries: Seq<HwmonEntry>, k: int) -> TempScan
    decreases k,
{
    if k <= 0 {
        (Seq::empty(), None, None)
    } else {
        let acc = hwmon_scan(entries, k - 1);
        let e = entries[k - 1];
        let n = e.file_name@;
        let acc1 = if is_input_file(n) {
            match millidegrees(e.content) {
                Some(t) => classify(acc, label_from(entries, label_file(n), 0), t),
                None => acc,
            }
        } else {
            acc
        };
        if is_crit_file(n) {
            match millidegrees(e.content) {
                Some(t) => (acc1.0, acc1.1, Some(t)),
                None => acc1,
            }
        } else {
            acc1
        }
    }
}

/// Drivers known to report CPU temperatures.
pub open spec fn is_cpu_driver(n: Seq<u8>) -> bool {
    n == lit("coretemp") || n == lit("k10temp") || n == lit("zenpower") || n == lit("amdgpu")
        || starts_with(n, lit("cpu"))
}

pub open spec fn scan_has_data(s: TempScan) -> bool {
    s.0.len() > 0 || s.1 is Some
}

/// The first device, at or after index `k`, with a CPU driver and some
/// reading; nothing when there is none.
pub open spec fn first_sensor(devices: Seq<HwmonDevice>, k: int) -> TempScan
    decreases devices.len() - k,
    when k >= 0
{
    if k >= devices.len() {
        (Seq::empty(), None, None)
    } else {
        let d = devices[k];
        let s = hwmon_scan(d.entries@, d.entries@.len() as int);
        match d.name {
            Some(nm) => if is_cpu_driver(trimmed(nm@)) && scan_has_data(s) {
                s
            } else {
                first_sensor(devices, k + 1)
            },
            None => first_sensor(devices, k + 1),
        }
    }
}

/// Largest per-core reading, and never below 0.
pub open spec fn max_core(s: Seq<i32>) -> int
    decreases s.len(),
{
    if s.len() == 0 {
        0
    } else {
        let m = max_core(s.drop_last());
        if s.last() as int > m {
            s.last() as int
        } else {
            m
        }
    }
}

/// The hottest reading: the larger of the package reading (0 if absent) and
/// the per-core maximum.
pub open spec fn max_temp_of(per_core: Seq<i32>, package: Option<i32>) -> int {
    let p = match package {
        Some(v) => v as int,
        None => 0,
    };
    if p > max_core(per_core) {
        p
    } else {
        max_core(per_core)
    }
}

/// `t` as thousandths of a percent of `crit`, clamped to `[0, 100 %]`. With
/// a zero threshold any positive reading is 100 %.
pub open spec fn temp_percent(t: int, crit: int) -> int {
    if crit > 0 {
        crate::config::clamp_percent(t * FULL_PERCENT as int / crit)
    } else if crit == 0 {
        if t > 0 {
            FULL_PERCENT as int
        } else {
            0
        }
    } else {
        if t < 0 {
            crate::config::clamp_percent((-t) * FULL_PERCENT as int / (-crit))
        } else {
            0
        }
    }
}

impl CpuTemperature {
    fn label_for(entries: &Vec<HwmonEntry>, want: &[u8]) -> (r: Vec<u8>)
        ensures
            r@ == label_from(entries@, want@, 0),
    {
        let mut j: usize = 0;
        while j < entries.len()
            invariant
                j <= entries@.len(),
                label_from(entries@, want@, 0) == label_from(entries@, want@, j as int),
            decreases entries@.len() - j,
        {
            if bytes_equal(entries[j].file_name.as_slice(), want) {
                return match &entries[j].content {
                    Some(c) => to_ascii_lower(trim(c.as_slice())),
                    None => Vec::new(),
                };
            }
            j = j + 1;
        }
        Vec::new()
    }

    fn read_millidegrees(c: &Option<Vec<u8>>) -> (r: Option<i32>)
        ensures
            r == millidegrees(*c),
    {
        match c {
            Some(v) => parse_i32(trim(v.as_slice())),
            None => None,
        }
    }

    /// Reads one hwmon directory: `temp<N>_input` files are classified by
    /// their `temp<N>_label` (package, core, or unlabelled), and the last
    /// readable `temp<N>_crit` file gives the critical threshold.
    pub fn read_hwmon(entries: &Vec<HwmonEntry>) -> (r: CpuTemperature)
        ensures
            (r.per_core@, r.package, r.critical) == hwmon_scan(entries@, entries@.len() as int),
    {
        let mut per_core: Vec<i32> = Vec::new();
        let mut package: Option<i32> = None;
        let mut critical: Option<i32> = None;
        let temp = "temp".as_bytes();
        let input = "_input".as_bytes();
        let crit = "_crit".as_bytes();
        let label = "_label".as_bytes();
        let mut i: usize = 0;
        while i < entries.len()
            invariant
                i <= entries@.len(),
                temp@ == lit("temp"),
                input@ == lit("_input"),
                crit@ == lit("_crit"),
                label@ == lit("_label"),
                (per_core@, package, critical) == hwmon_scan(entries@, i as int),
            decreases entries@.len() - i,
        {
            let e = &entries[i];
            let name = e.file_name.as_slice();
            if has_prefix(name, temp) && has_suffix(name, input) {
                if let Some(t) = Self::read_millidegrees(&e.content) {
                    let mut want: Vec<u8> = Vec::new();
                    let stem = name.len() - input.len();
                    let mut j: usize = 0;
                    while j < stem
                        invariant
                            j <= stem,
                            stem <= name@.len(),
                            want@ == name@.subrange(0, j as int),
                        decreases stem - j,
                    {
                        want.push(name[j]);
                        j = j + 1;
                    }
                    let mut k: usize = 0;
                    while k < label.len()
                        invariant
                            k <= label@.len(),
                            want@ == name@.subrange(0, stem as int) + label@.subrange(0, k as int),
                        decreases label@.len() - k,
                    {
                        want.push(label[k]);
                        k = k + 1;
                    }
                    assert(label@.subrange(0, label@.len() as int) =~= label@);
                    let l = Self::label_for(entries, want.as_slice());
                    let ls = l.as_slice();
                    if has_substring(ls, "package".as_bytes()) || has_substring(ls, "tctl".as_bytes())
                        || has_substring(ls, "tdie".as_bytes()) {
                        package = Some(t);
                    } else if has_substring(ls, "core".as_bytes()) {
                        per_core.push(t);
                    } else if package.is_none() && per_core.len() == 0 {
                        package = Some(t);
                    }
                }
            }
            if has_prefix(name, temp) && has_suffix(name, crit) {
                if let Some(t) = Self::read_millidegrees(&e.content) {
                    critical = Some(t);
                }
            }
            i = i + 1;
        }
        CpuTemperature { per_core, package, critical }
    }

    /// Readings of the first device whose driver is a known CPU sensor
    /// (`coretemp`, `k10temp`, `zenpower`, `amdgpu`, or a name starting
    /// with `cpu`) and that gives a core or package reading; empty readings
    /// when there is none.
    pub fn read(devices: &Vec<HwmonDevice>) -> (r: CpuTemperature)
        ensures
            (r.per_core@, r.package, r.critical) == first_sensor(devices@, 0),
    {
        let mut k: usize = 0;
        while k < devices.len()
            invariant
                k <= devices@.len(),
                first_sensor(devices@, 0) == first_sensor(devices@, k as int),
            decreases devices@.len() - k,
        {
            let d = &devices[k];
            if let Some(nm) = &d.name {
                let n = trim(nm.as_slice());
                let known = bytes_equal(n, "coretemp".as_bytes()) || bytes_equal(n, "k10temp".as_bytes())
                    || bytes_equal(n, "zenpower".as_bytes()) || bytes_equal(n, "amdgpu".as_bytes())
                    || has_prefix(n, "cpu".as_bytes());
                if known {
                    let r = Self::read_hwmon(&d.entries);
                    if r.per_core.len() > 0 || r.package.is_some() {
                        return r;
                    }
                }
            }
            k = k + 1;
        }
        CpuTemperature::default()
    }

    /// The hottest reading over the package and the cores, never below 0.
    pub fn max_temp(&self) -> (r: i32)
        ensures
            r as int == max_temp_of(self.per_core@, self.package),
    {
        let mut m: i32 = 0;
        let mut i: usize = 0;
        while i < self.per_core.len()
            invariant
                i <= self.per_core@.len(),
                m as int == max_core(self.per_core@.subrange(0, i as int)),
            decreases self.per_core@.len() - i,
        {
            assert(self.per_core@.subrange(0, i + 1).drop_last() =~= self.per_core@.subrange(0, i as int));
            if self.per_core[i] > m {
                m = self.per_core[i];
            }
            i = i + 1;
        }
        assert(self.per_core@.subrange(0, i as int) =~= self.per_core@);
        let p = match self.package {
            Some(v) => v,
            None => 0,
        };
        if p > m {
            p
        } else {
            m
        }
    }

    /// The hottest reading as thousandths of a percent of the critical
    /// threshold (100 degrees when unknown), clamped to `[0, 100 %]`.
    pub fn percentage(&self) -> (r: i32)
        ensures
            r as int == temp_percent(
                max_temp_of(self.per_core@, self.package),
                match self.critical {
                    Some(c) => c as int,
                    None => DEFAULT_CRITICAL_TEMP as int,
                },
            ),
            0 <= r <= FULL_PERCENT,
    {
        let t = self.max_temp() as i64;
        let c = match self.critical {
            Some(c) => c as i64,
            None => DEFAULT_CRITICAL_TEMP as i64,
        };
        if c > 0 {
            assert(-0x8000_0000 * 100_000 <= t * 100_000 <= 0x8000_0000 * 100_000) by (nonlinear_arith)
                requires -0x8000_0000 <= t <= 0x8000_0000;
            let q = t * (FULL_PERCENT as i64);
            if q < 0 {
                assert((q as int) / (c as int) < 0) by (nonlinear_arith) requires q < 0, c > 0;
                return 0;
            }
            let v = q / c;
            if v > FULL_PERCENT as i64 {
                FULL_PERCENT
            } else {
                v as i32
            }
        } else if c == 0 {
            if t > 0 {
                FULL_PERCENT
            } else {
                0
            }
        } else {
            if t < 0 {
                let q = (0 - t) * (FULL_PERCENT as i64);
                let v = q / (0 - c);
                if v > FULL_PERCENT as i64 {
                    FULL_PERCENT
                } else {
                    v as i32
                }
            } else {
                0
            }
        }
    }
}

} // verus!
