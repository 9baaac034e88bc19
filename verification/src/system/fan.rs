//! Fan monitoring from the Linux hwmon sysfs tree and laptop-specific
//! interfaces (ThinkPad, MSI EC, ASUS, Dell, HP). The program reads the
//! files; the functions here turn their contents into fan readings.

use vstd::prelude::*;

use crate::number::parse_unsigned;
use crate::text::{
    chars_eq_str, chars_of, contains_chars, contains_seq, lines, push_str, split_lines, split_on,
    split_sep, trim, trim_chars, views,
};

verus! {

// ── Readings ────────────────────────────────────────────────────────────────

/// Single fan device data.
#[derive(Clone, Debug)]
pub struct FanInfo {
    /// Device/driver name (e.g., "thinkpad", "msi-ec", "asus-wmi").
    pub device_name: String,
    /// Fan label (e.g., "CPU Fan", "GPU Fan").
    pub label: String,
    /// Current RPM reading.
    pub rpm: Option<u32>,
    /// Speed as percentage (0-100).
    pub speed_pct: Option<u8>,
    /// Minimum RPM if available.
    pub min_rpm: Option<u32>,
    /// Maximum RPM if available.
    pub max_rpm: Option<u32>,
    /// PWM duty cycle (0-255).
    pub pwm: Option<u8>,
    /// PWM mode: 0=off, 1=manual, 2=auto.
    pub pwm_mode: Option<u8>,
    /// Fan level (for ThinkPad: auto, full-speed, etc).
    pub level: Option<String>,
    /// The speed file could not be read.
    pub read_error: bool,
}

/// A fan reading as plain values.
pub struct FanRecord {
    pub device_name: Seq<char>,
    pub label: Seq<char>,
    pub rpm: Option<u32>,
    pub speed_pct: Option<u8>,
    pub min_rpm: Option<u32>,
    pub max_rpm: Option<u32>,
    pub pwm: Option<u8>,
    pub pwm_mode: Option<u8>,
    pub level: Option<Seq<char>>,
    pub read_error: bool,
}

/// The characters of an optional string.
pub open spec fn opt_view(o: Option<String>) -> Option<Seq<char>> {
    match o {
        Some(s) => Some(s@),
        None => None,
    }
}

impl View for FanInfo {
    type V = FanRecord;

    open spec fn view(&self) -> FanRecord {
        FanRecord {
            device_name: self.device_name@,
            label: self.label@,
            rpm: self.rpm,
            speed_pct: self.speed_pct,
            min_rpm: self.min_rpm,
            max_rpm: self.max_rpm,
            pwm: self.pwm,
            pwm_mode: self.pwm_mode,
            level: opt_view(self.level),
            read_error: self.read_error,
        }
    }
}

/// The views of a vector of fans.
pub open spec fn fan_records(v: Seq<FanInfo>) -> Seq<FanRecord> {
    v.map_values(|f: FanInfo| f@)
}

/// The name shown for a PWM mode.
pub open spec fn pwm_mode_text(mode: u8) -> Seq<char> {
    if mode == 0 {
        "Off"@
    } else if mode == 1 {
        "Manual"@
    } else if mode == 2 {
        "Auto"@
    } else {
        "Unknown"@
    }
}

impl FanInfo {
    /// The RPM, or 0 if unavailable.
    pub fn rpm_or_zero(&self) -> (r: u32)
        ensures
            r == match self.rpm {
                Some(v) => v,
                None => 0,
            },
    {
        match self.rpm {
            Some(v) => v,
            None => 0,
        }
    }

    /// The human-readable PWM mode.
    pub fn pwm_mode_label(&self) -> (r: Option<&'static str>)
        ensures
            match self.pwm_mode {
                Some(m) => r is Some && r.unwrap()@ == pwm_mode_text(m),
                None => r is None,
            },
    {
        match self.pwm_mode {
            Some(mode) => Some(
                if mode == 0 {
                    "Off"
                } else if mode == 1 {
                    "Manual"
                } else if mode == 2 {
                    "Auto"
                } else {
                    "Unknown"
                },
            ),
            None => None,
        }
    }

    /// Whether the fan is running: by its percentage when it reports one,
    /// else by its RPM.
    pub fn is_running(&self) -> (r: bool)
        ensures
            r == match self.speed_pct {
                Some(p) => p > 0,
                None => match self.rpm {
                    Some(v) => v > 0,
                    None => false,
                },
            },
    {
        if let Some(pct) = self.speed_pct {
            return pct > 0;
        }
        if let Some(rpm) = self.rpm {
            return rpm > 0;
        }
        false
    }
}

// ── Raw file contents ───────────────────────────────────────────────────────

/// The files of one `fan<N>` of a hwmon directory, as read (`None` where
/// a file could not be read).
pub struct HwmonFanFiles {
    /// `<N>`, from the file name `fan<N>_input`.
    pub num: String,
    /// Contents of `fan<N>_input`.
    pub input: Option<String>,
    /// Contents of `fan<N>_label`.
    pub label: Option<String>,
    /// Contents of `fan<N>_min`.
    pub min: Option<String>,
    /// Contents of `fan<N>_max`.
    pub max: Option<String>,
    /// Contents of `pwm<N>`.
    pub pwm: Option<String>,
    /// Contents of `pwm<N>_enable`.
    pub pwm_enable: Option<String>,
}

/// One `/sys/class/hwmon/*` directory: the contents of its `name` file and
/// its fans in directory order.
pub struct HwmonDir {
    pub name: Option<String>,
    pub fans: Vec<HwmonFanFiles>,
}

/// The files of `/sys/devices/platform/msi-ec`.
pub struct MsiEcFiles {
    /// Contents of `fan_mode`.
    pub fan_mode: Option<String>,
    /// Contents of `cooler_boost`.
    pub cooler_boost: Option<String>,
    /// Contents of `cpu/realtime_fan_speed`.
    pub cpu_speed: Option<String>,
    /// Contents of `gpu/realtime_fan_speed`.
    pub gpu_speed: Option<String>,
}

/// Everything fan collection reads.
pub struct FanSources {
    /// Contents of `/proc/acpi/ibm/fan`.
    pub thinkpad: Option<String>,
    /// The MSI EC files, when that directory exists.
    pub msi_ec: Option<MsiEcFiles>,
    /// Contents of the ASUS `throttle_thermal_policy` file.
    pub asus_policy: Option<String>,
    /// The hwmon directories in directory order.
    pub hwmon: Vec<HwmonDir>,
}

/// A sysfs string: the file's contents trimmed.
pub open spec fn sysfs_string(raw: Option<String>) -> Option<Seq<char>> {
    match raw {
        Some(s) => Some(trim(s@)),
        None => None,
    }
}

/// A sysfs number: the file's trimmed contents as a `u32`.
pub open spec fn sysfs_u32(raw: Option<String>) -> Option<u32> {
    match raw {
        Some(s) => match parse_unsigned(trim(s@), 10, u32::MAX as nat) {
            Some(v) => Some(v as u32),
            None => None,
        },
        None => None,
    }
}

/// A sysfs number capped to a byte.
pub open spec fn sysfs_byte(raw: Option<String>) -> Option<u8> {
    match sysfs_u32(raw) {
        Some(v) => Some(
            if v > 255 {
                255u8
            } else {
                v as u8
            },
        ),
        None => None,
    }
}

fn read_string(raw: &Option<String>) -> (r: Option<String>)
    ensures
        opt_view(r) == sysfs_string(*raw),
{
    match raw {
        Some(s) => {
            let cs = chars_of(s.as_str());
            let t = trim_chars(cs.as_slice());
            Some(crate::text::string_of(t.as_slice()))
        },
        None => None,
    }
}

fn read_u32(raw: &Option<String>) -> (r: Option<u32>)
    ensures
        r == sysfs_u32(*raw),
{
    match raw {
        Some(s) => {
            let cs = chars_of(s.as_str());
            let t = trim_chars(cs.as_slice());
            crate::number::parse_u32(t.as_slice())
        },
        None => None,
    }
}

fn read_byte(raw: &Option<String>) -> (r: Option<u8>)
    ensures
        r == sysfs_byte(*raw),
{
    match read_u32(raw) {
        Some(v) => Some(
            if v > 255 {
                255u8
            } else {
                v as u8
            },
        ),
        None => None,
    }
}

// ── ThinkPad ────────────────────────────────────────────────────────────────

/// The `speed` and `level` values of `/proc/acpi/ibm/fan` after reading
/// lines `ls`: every `key: value` line sets its key, later lines winning.
pub open spec fn thinkpad_values(ls: Seq<Seq<char>>) -> (Option<Option<u32>>, Option<Seq<char>>)
    decreases ls.len(),
{
    if ls.len() == 0 {
        (None, None)
    } else {
        let (rpm, level) = thinkpad_values(ls.drop_last());
        let parts = split_sep(ls.last(), ':');
        if parts.len() >= 2 {
            let key = trim(parts[0]);
            let val = trim(parts[1]);
            if key == "speed"@ {
                (
                    Some(
                        match parse_unsigned(val, 10, u32::MAX as nat) {
                            Some(v) => Some(v as u32),
                            None => None,
                        },
                    ),
                    level,
                )
            } else if key == "level"@ {
                (rpm, Some(val))
            } else {
                (rpm, level)
            }
        } else {
            (rpm, level)
        }
    }
}

/// The ThinkPad fan that `/proc/acpi/ibm/fan` describes, if it gives a
/// speed or a level.
pub open spec fn thinkpad_fan(content: Seq<char>) -> Option<FanRecord> {
    let (rpm_set, level) = thinkpad_values(lines(content));
    let rpm = match rpm_set {
        Some(r) => r,
        None => None,
    };
    if rpm is Some || level is Some {
        Some(
            FanRecord {
                device_name: "thinkpad"@,
                label: "System Fan"@,
                rpm,
                speed_pct: None,
                min_rpm: None,
                max_rpm: None,
                pwm: None,
                pwm_mode: None,
                level,
                read_error: false,
            },
        )
    } else {
        None
    }
}

/// A fan with only a device name, a label and an RPM reading.
fn plain_fan(device: &str, label: String, rpm: Option<u32>) -> (r: FanInfo)
    ensures
        r@ == (FanRecord {
            device_name: device@,
            label: label@,
            rpm,
            speed_pct: None,
            min_rpm: None,
            max_rpm: None,
            pwm: None,
            pwm_mode: None,
            level: None,
            read_error: false,
        }),
{
    FanInfo {
        device_name: device.to_owned(),
        label,
        rpm,
        speed_pct: None,
        min_rpm: None,
        max_rpm: None,
        pwm: None,
        pwm_mode: None,
        level: None,
        read_error: false,
    }
}

/// Collect the ThinkPad fan from the contents of `/proc/acpi/ibm/fan`.
pub fn collect_thinkpad(content: &str) -> (r: Option<Vec<FanInfo>>)
    ensures
        match thinkpad_fan(content@) {
            Some(f) => r is Some && fan_records(r.unwrap()@) == seq![f],
            None => r is None,
        },
{
    let cs = chars_of(content);
    let ls = split_lines(cs.as_slice());
    let mut rpm_set: Option<Option<u32>> = None;
    let mut level: Option<String> = None;
    let mut i: usize = 0;
    while i < ls.len()
        invariant
            i <= ls@.len(),
            (rpm_set, opt_view(level)) == thinkpad_values(views(ls@).take(i as int)),
        decreases ls@.len() - i,
    {
        assert(views(ls@).take(i as int + 1).drop_last() =~= views(ls@).take(i as int));
        assert(views(ls@).take(i as int + 1).last() == ls@[i as int]@);
        let parts = split_on(ls[i].as_slice(), ':');
        if parts.len() >= 2 {
            proof {
                assert(views(parts@)[0] == parts@[0]@);
                assert(views(parts@)[1] == parts@[1]@);
            }
            let key = trim_chars(parts[0].as_slice());
            let val = trim_chars(parts[1].as_slice());
            if chars_eq_str(key.as_slice(), "speed") {
                rpm_set = Some(crate::number::parse_u32(val.as_slice()));
            } else if chars_eq_str(key.as_slice(), "level") {
                level = Some(crate::text::string_of(val.as_slice()));
            }
        }
        i += 1;
    }
    assert(views(ls@).take(ls@.len() as int) =~= views(ls@));
    let rpm = match rpm_set {
        Some(r) => r,
        None => None,
    };
    if rpm.is_some() || level.is_some() {
        let mut fan = plain_fan("thinkpad", "System Fan".to_owned(), rpm);
        fan.level = level;
        let v = vec![fan];
        assert(fan_records(v@) =~= seq![v@[0]@]);
        Some(v)
    } else {
        None
    }
}

// ── MSI EC ──────────────────────────────────────────────────────────────────

/// The MSI EC fan with the given label for a `realtime_fan_speed` file,
/// when the file holds a number: its percentage, capped at 100.
pub open spec fn msi_fan(speed_raw: Option<String>, label: Seq<char>) -> Option<FanRecord> {
    match sysfs_u32(speed_raw) {
        Some(speed) => Some(
            FanRecord {
                device_name: "msi-ec"@,
                label,
                rpm: None,
                speed_pct: Some(
                    if speed > 100 {
                        100u8
                    } else {
                        speed as u8
                    },
                ),
                min_rpm: None,
                max_rpm: None,
                pwm: None,
                pwm_mode: None,
                level: None,
                read_error: false,
            },
        ),
        None => None,
    }
}

/// Collect an MSI EC fan from the contents of its `realtime_fan_speed`
/// file.
pub fn collect_msi_ec_fan(speed_raw: &Option<String>, label: &str) -> (r: Option<FanInfo>)
    ensures
        match msi_fan(*speed_raw, label@) {
            Some(f) => r is Some && r.unwrap()@ == f,
            None => r is None,
        },
{
    let speed = match read_u32(speed_raw) {
        Some(v) => v,
        None => {
            return None;
        },
    };
    let mut fan = plain_fan("msi-ec", label.to_owned(), None);
    fan.speed_pct = Some(
        if speed > 100 {
            100u8
        } else {
            speed as u8
        },
    );
    Some(fan)
}

// ── Vendor hwmon drivers ────────────────────────────────────────────────────

/// A fan of a vendor hwmon driver: its RPM, its label or "Fan <N>", and
/// (for ASUS) its PWM.
pub open spec fn vendor_fan(device: Seq<char>, f: HwmonFanFiles, with_pwm: bool) -> FanRecord {
    FanRecord {
        device_name: device,
        label: match sysfs_string(f.label) {
            Some(l) => l,
            None => "Fan "@ + f.num@,
        },
        rpm: sysfs_u32(f.input),
        speed_pct: None,
        min_rpm: None,
        max_rpm: None,
        pwm: if with_pwm {
            sysfs_byte(f.pwm)
        } else {
            None
        },
        pwm_mode: None,
        level: None,
        read_error: sysfs_u32(f.input) is None,
    }
}

/// The fans of one directory as a vendor driver reads them.
pub open spec fn vendor_dir_fans(device: Seq<char>, fans: Seq<HwmonFanFiles>, with_pwm: bool) -> Seq<
    FanRecord,
>
    decreases fans.len(),
{
    if fans.len() == 0 {
        seq![]
    } else {
        vendor_dir_fans(device, fans.drop_last(), with_pwm).push(
            vendor_fan(device, fans.last(), with_pwm),
        )
    }
}

/// Which vendor driver a hwmon directory name belongs to.
#[derive(Clone, Copy, Debug, PartialEq, Eq, Structural)]
pub enum FanVendor {
    Asus,
    Dell,
    Hp,
}

/// Whether a (trimmed) hwmon name belongs to `vendor`.
pub open spec fn vendor_owns(vendor: FanVendor, name: Seq<char>) -> bool {
    match vendor {
        FanVendor::Asus => contains_seq(name, "asus"@),
        FanVendor::Dell => name == "dell_smm"@,
        FanVendor::Hp => contains_seq(name, "hp"@),
    }
}

/// The device name a vendor's fans carry.
pub open spec fn vendor_device(vendor: FanVendor) -> Seq<char> {
    match vendor {
        FanVendor::Asus => "asus-wmi"@,
        FanVendor::Dell => "dell-smm"@,
        FanVendor::Hp => "hp-wmi"@,
    }
}

/// Whether some hwmon directory has no readable name.
pub open spec fn some_dir_nameless(dirs: Seq<HwmonDir>) -> bool {
    exists|i: int| 0 <= i < dirs.len() && (#[trigger] dirs[i]).name is None
}

/// The fans of all directories that `vendor` owns, in directory order.
pub open spec fn vendor_fans(vendor: FanVendor, dirs: Seq<HwmonDir>) -> Seq<FanRecord>
    decreases dirs.len(),
{
    if dirs.len() == 0 {
        seq![]
    } else {
        let rest = vendor_fans(vendor, dirs.drop_last());
        match sysfs_string(dirs.last().name) {
            Some(n) => if vendor_owns(vendor, n) {
                rest + vendor_dir_fans(
                    vendor_device(vendor),
                    dirs.last().fans@,
                    vendor == FanVendor::Asus,
                )
            } else {
                rest
            },
            None => rest,
        }
    }
}

/// The fan mode an ASUS thermal policy value names.
pub open spec fn asus_mode(policy: Seq<char>) -> Seq<char> {
    if policy == "0"@ {
        "Balanced"@
    } else if policy == "1"@ {
        "Turbo"@
    } else if policy == "2"@ {
        "Silent"@
    } else {
        policy
    }
}

/// The ASUS thermal policies: "0" is reported as the Balanced mode, "1" as
/// Turbo, "2" as Silent, and any other policy text as itself.
pub proof fn asus_policy_modes(policy: Seq<char>)
    ensures
        asus_mode("0"@) == "Balanced"@,
        asus_mode("1"@) == "Turbo"@,
        asus_mode("2"@) == "Silent"@,
        policy != "0"@ && policy != "1"@ && policy != "2"@ ==> asus_mode(policy) == policy,
{
    reveal_strlit("0");
    reveal_strlit("1");
    reveal_strlit("2");
    assert("1"@[0] != "0"@[0]);
    assert("2"@[0] != "0"@[0]);
    assert("2"@[0] != "1"@[0]);
}

fn fan_label(raw: &Option<String>, prefix: &str, num: &String) -> (r: String)
    ensures
        r@ == match sysfs_string(*raw) {
            Some(l) => l,
            None => prefix@ + num@,
        },
{
    match read_string(raw) {
        Some(l) => l,
        None => {
            let mut out = String::new();
            push_str(&mut out, prefix);
            push_str(&mut out, num.as_str());
            assert(out@ =~= prefix@ + num@);
            out
        },
    }
}

fn vendor_fan_of(vendor: FanVendor, f: &HwmonFanFiles) -> (r: FanInfo)
    ensures
        r@ == vendor_fan(vendor_device(vendor), *f, vendor == FanVendor::Asus),
{
    let device = match vendor {
        FanVendor::Asus => "asus-wmi",
        FanVendor::Dell => "dell-smm",
        FanVendor::Hp => "hp-wmi",
    };
    let rpm = read_u32(&f.input);
    let label = fan_label(&f.label, "Fan ", &f.num);
    let mut fan = plain_fan(device, label, rpm);
    if vendor == FanVendor::Asus {
        fan.pwm = read_byte(&f.pwm);
    }
    fan.read_error = rpm.is_none();
    fan
}

/// Whether the trimmed name `n` belongs to `vendor`.
fn owns(vendor: FanVendor, n: &[char]) -> (r: bool)
    ensures
        r == vendor_owns(vendor, n@),
{
    match vendor {
        FanVendor::Asus => {
            let p = chars_of("asus");
            contains_chars(n, p.as_slice())
        },
        FanVendor::Dell => chars_eq_str(n, "dell_smm"),
        FanVendor::Hp => {
            let p = chars_of("hp");
            contains_chars(n, p.as_slice())
        },
    }
}

/// The fans of every directory that `vendor` owns.
fn collect_vendor(vendor: FanVendor, dirs: &Vec<HwmonDir>) -> (r: Vec<FanInfo>)
    ensures
        fan_records(r@) == vendor_fans(vendor, dirs@),
{
    let mut out: Vec<FanInfo> = Vec::new();
    let mut i: usize = 0;
    while i < dirs.len()
        invariant
            i <= dirs@.len(),
            fan_records(out@) == vendor_fans(vendor, dirs@.take(i as int)),
        decreases dirs@.len() - i,
    {
        assert(dirs@.take(i as int + 1).drop_last() =~= dirs@.take(i as int));
        let dir = &dirs[i];
        match read_string(&dir.name) {
            Some(n) => {
                let nc = chars_of(n.as_str());
                if owns(vendor, nc.as_slice()) {
                    let ghost start = fan_records(out@);
                    let mut j: usize = 0;
                    while j < dir.fans.len()
                        invariant
                            j <= dir.fans@.len(),
                            fan_records(out@) == start + vendor_dir_fans(
                                vendor_device(vendor),
                                dir.fans@.take(j as int),
                                vendor == FanVendor::Asus,
                            ),
                        decreases dir.fans@.len() - j,
                    {
                        assert(dir.fans@.take(j as int + 1).drop_last() =~= dir.fans@.take(
                            j as int,
                        ));
                        let ghost before = out@;
                        let fan = vendor_fan_of(vendor, &dir.fans[j]);
                        out.push(fan);
                        assert(fan_records(out@) =~= fan_records(before).push(fan@));
                        j += 1;
                    }
                    assert(dir.fans@.take(dir.fans@.len() as int) =~= dir.fans@);
                }
            },
            None => {},
        }
        i += 1;
    }
    assert(dirs@.take(dirs@.len() as int) =~= dirs@);
    out
}

/// Collect ASUS fans from the hwmon directories and the thermal policy
/// file. No result when a directory has no readable name (the scan stops
/// there), or when no ASUS fan is found.
pub fn collect_asus(dirs: &Vec<HwmonDir>, policy_raw: &Option<String>) -> (r: Option<
    (Vec<FanInfo>, Option<String>),
>)
    ensures
        some_dir_nameless(dirs@) || vendor_fans(FanVendor::Asus, dirs@).len() == 0 ==> r is None,
        !some_dir_nameless(dirs@) && vendor_fans(FanVendor::Asus, dirs@).len() > 0 ==> r is Some
            && fan_records(r.unwrap().0@) == vendor_fans(FanVendor::Asus, dirs@) && opt_view(
            r.unwrap().1,
        ) == match sysfs_string(*policy_raw) {
            Some(p) => Some(asus_mode(p)),
            None => None,
        },
{
    let mut i: usize = 0;
    while i < dirs.len()
        invariant
            i <= dirs@.len(),
            forall|k: int| 0 <= k < i ==> (#[trigger] dirs@[k]).name is Some,
        decreases dirs@.len() - i,
    {
        if dirs[i].name.is_none() {
            return None;
        }
        i += 1;
    }
    let fans = collect_vendor(FanVendor::Asus, dirs);
    if fans.len() == 0 {
        return None;
    }
    let mode = match read_string(policy_raw) {
        Some(p) => {
            let pc = chars_of(p.as_str());
            if chars_eq_str(pc.as_slice(), "0") {
                Some("Balanced".to_owned())
            } else if chars_eq_str(pc.as_slice(), "1") {
                Some("Turbo".to_owned())
            } else if chars_eq_str(pc.as_slice(), "2") {
                Some("Silent".to_owned())
            } else {
                Some(p)
            }
        },
        None => None,
    };
    Some((fans, mode))
}

/// Collect Dell fans (the `dell_smm` driver); no result when none is found.
pub fn collect_dell(dirs: &Vec<HwmonDir>) -> (r: Option<Vec<FanInfo>>)
    ensures
        vendor_fans(FanVendor::Dell, dirs@).len() == 0 ==> r is None,
        vendor_fans(FanVendor::Dell, dirs@).len() > 0 ==> r is Some && fan_records(r.unwrap()@)
            == vendor_fans(FanVendor::Dell, dirs@),
{
    let fans = collect_vendor(FanVendor::Dell, dirs);
    if fans.len() == 0 {
        None
    } else {
        Some(fans)
    }
}

/// Collect HP fans (drivers whose name contains "hp"); no result when none
/// is found.
pub fn collect_hp(dirs: &Vec<HwmonDir>) -> (r: Option<Vec<FanInfo>>)
    ensures
        vendor_fans(FanVendor::Hp, dirs@).len() == 0 ==> r is None,
        vendor_fans(FanVendor::Hp, dirs@).len() > 0 ==> r is Some && fan_records(r.unwrap()@)
            == vendor_fans(FanVendor::Hp, dirs@),
{
    let fans = collect_vendor(FanVendor::Hp, dirs);
    if fans.len() == 0 {
        None
    } else {
        Some(fans)
    }
}


// ── Generic hwmon ───────────────────────────────────────────────────────────

/// Whether the generic collector leaves a directory to a laptop driver:
/// names owned by the ASUS, Dell, HP or ThinkPad readers, and `amdgpu`
/// when a "GPU Fan" was already found.
pub open spec fn generic_skip(name: Seq<char>, existing: Seq<FanRecord>) -> bool {
    ||| contains_seq(name, "asus"@)
    ||| name == "dell_smm"@
    ||| contains_seq(name, "hp"@)
    ||| name == "thinkpad"@
    ||| (name == "amdgpu"@ && exists|i: int|
        0 <= i < existing.len() && (#[trigger] existing[i]).label == "GPU Fan"@)
}

/// A fan as the generic hwmon collector reads it.
pub open spec fn generic_fan(device: Seq<char>, f: HwmonFanFiles) -> FanRecord {
    FanRecord {
        device_name: device,
        label: match sysfs_string(f.label) {
            Some(l) => l,
            None => "fan"@ + f.num@,
        },
        rpm: sysfs_u32(f.input),
        speed_pct: None,
        min_rpm: sysfs_u32(f.min),
        max_rpm: sysfs_u32(f.max),
        pwm: sysfs_byte(f.pwm),
        pwm_mode: sysfs_byte(f.pwm_enable),
        level: None,
        read_error: sysfs_u32(f.input) is None,
    }
}

/// The fans of one directory as the generic collector reads them.
pub open spec fn generic_dir_fans(device: Seq<char>, fans: Seq<HwmonFanFiles>) -> Seq<FanRecord>
    decreases fans.len(),
{
    if fans.len() == 0 {
        seq![]
    } else {
        generic_dir_fans(device, fans.drop_last()).push(generic_fan(device, fans.last()))
    }
}

/// The device name of a hwmon directory: its name, or "unknown".
pub open spec fn hwmon_device(dir: HwmonDir) -> Seq<char> {
    match sysfs_string(dir.name) {
        Some(n) => n,
        None => "unknown"@,
    }
}

/// The fans the generic collector finds in `dirs`, given the fans the
/// laptop drivers already found.
pub open spec fn hwmon_fans(dirs: Seq<HwmonDir>, existing: Seq<FanRecord>) -> Seq<FanRecord>
    decreases dirs.len(),
{
    if dirs.len() == 0 {
        seq![]
    } else {
        let rest = hwmon_fans(dirs.drop_last(), existing);
        let device = hwmon_device(dirs.last());
        if generic_skip(device, existing) {
            rest
        } else {
            rest + generic_dir_fans(device, dirs.last().fans@)
        }
    }
}

fn has_gpu_fan(existing: &[FanInfo]) -> (r: bool)
    ensures
        r == exists|i: int|
            0 <= i < fan_records(existing@).len() && (#[trigger] fan_records(existing@)[i]).label
                == "GPU Fan"@,
{
    let mut i: usize = 0;
    while i < existing.len()
        invariant
            i <= existing@.len(),
            forall|k: int| 0 <= k < i ==> (#[trigger] fan_records(existing@)[k]).label != "GPU Fan"@,
        decreases existing@.len() - i,
    {
        let l = chars_of(existing[i].label.as_str());
        if chars_eq_str(l.as_slice(), "GPU Fan") {
            assert(fan_records(existing@)[i as int].label == "GPU Fan"@);
            return true;
        }
        assert(fan_records(existing@)[i as int].label == existing@[i as int].label@);
        i += 1;
    }
    false
}

fn skip_generic(name: &[char], existing: &[FanInfo]) -> (r: bool)
    ensures
        r == generic_skip(name@, fan_records(existing@)),
{
    let asus = chars_of("asus");
    let hp = chars_of("hp");
    contains_chars(name, asus.as_slice()) || chars_eq_str(name, "dell_smm") || contains_chars(
        name,
        hp.as_slice(),
    ) || chars_eq_str(name, "thinkpad") || (chars_eq_str(name, "amdgpu") && has_gpu_fan(existing))
}

fn generic_fan_of(device: &String, f: &HwmonFanFiles) -> (r: FanInfo)
    ensures
        r@ == generic_fan(device@, *f),
{
    let rpm = read_u32(&f.input);
    let label = fan_label(&f.label, "fan", &f.num);
    FanInfo {
        device_name: device.clone(),
        label,
        rpm,
        speed_pct: None,
        min_rpm: read_u32(&f.min),
        max_rpm: read_u32(&f.max),
        pwm: read_byte(&f.pwm),
        pwm_mode: read_byte(&f.pwm_enable),
        level: None,
        read_error: rpm.is_none(),
    }
}

/// Collect fans from the generic hwmon directories, leaving out those the
/// laptop drivers handle (`existing` are the fans they found).
pub fn collect_hwmon(dirs: &Vec<HwmonDir>, existing: &[FanInfo]) -> (r: Vec<FanInfo>)
    ensures
        fan_records(r@) == hwmon_fans(dirs@, fan_records(existing@)),
{
    let mut out: Vec<FanInfo> = Vec::new();
    let mut i: usize = 0;
    while i < dirs.len()
        invariant
            i <= dirs@.len(),
            fan_records(out@) == hwmon_fans(dirs@.take(i as int), fan_records(existing@)),
        decreases dirs@.len() - i,
    {
        assert(dirs@.take(i as int + 1).drop_last() =~= dirs@.take(i as int));
        let dir = &dirs[i];
        let device = match read_string(&dir.name) {
            Some(n) => n,
            None => "unknown".to_owned(),
        };
        let dc = chars_of(device.as_str());
        if !skip_generic(dc.as_slice(), existing) {
            let ghost start = fan_records(out@);
            let mut j: usize = 0;
            while j < dir.fans.len()
                invariant
                    j <= dir.fans@.len(),
                    device@ == hwmon_device(*dir),
                    fan_records(out@) == start + generic_dir_fans(
                        device@,
                        dir.fans@.take(j as int),
                    ),
                decreases dir.fans@.len() - j,
            {
                assert(dir.fans@.take(j as int + 1).drop_last() =~= dir.fans@.take(j as int));
                let ghost before = out@;
                let fan = generic_fan_of(&device, &dir.fans[j]);
                out.push(fan);
                assert(fan_records(out@) =~= fan_records(before).push(fan@));
                j += 1;
            }
            assert(dir.fans@.take(dir.fans@.len() as int) =~= dir.fans@);
        }
        i += 1;
    }
    assert(dirs@.take(dirs@.len() as int) =~= dirs@);
    out
}

/// The `<N>` of each file name `fan<N>_input`, in listing order: the file
/// names that start with "fan" and end with "_input", with every leading
/// "fan" and every trailing "_input" removed. These are the fans whose
/// files the program reads.
pub open spec fn fan_number(name: Seq<char>) -> Option<Seq<char>> {
    if name.len() >= 3 && name.take(3) == "fan"@ && name.len() >= 6 && name.skip(name.len() - 6)
        == "_input"@ {
        Some(strip_suffix_all(strip_prefix_all(name, "fan"@), "_input"@))
    } else {
        None
    }
}

/// `s` with every leading copy of `p` removed.
pub open spec fn strip_prefix_all(s: Seq<char>, p: Seq<char>) -> Seq<char>
    decreases s.len(),
{
    if p.len() > 0 && s.len() >= p.len() && s.take(p.len() as int) == p {
        strip_prefix_all(s.skip(p.len() as int), p)
    } else {
        s
    }
}

/// `s` with every trailing copy of `p` removed.
pub open spec fn strip_suffix_all(s: Seq<char>, p: Seq<char>) -> Seq<char>
    decreases s.len(),
{
    if p.len() > 0 && s.len() >= p.len() && s.skip(s.len() - p.len()) == p {
        strip_suffix_all(s.take(s.len() - p.len()), p)
    } else {
        s
    }
}

fn ends_with(s: &[char], p: &[char]) -> (r: bool)
    ensures
        r == (p@.len() <= s@.len() && s@.skip(s@.len() - p@.len()) == p@),
{
    if p.len() > s.len() {
        return false;
    }
    let tail = s.split_at(s.len() - p.len()).1;
    assert(tail@ =~= s@.skip(s@.len() - p@.len()));
    crate::text::chars_eq(tail, p)
}

fn strip_prefixes(s: &[char], p: &[char]) -> (r: Vec<char>)
    ensures
        r@ == strip_prefix_all(s@, p@),
    decreases s@.len(),
{
    if p.len() > 0 && crate::text::starts_with(s, p) {
        let rest = s.split_at(p.len()).1;
        assert(rest@ =~= s@.skip(p@.len() as int));
        strip_prefixes(rest, p)
    } else {
        let mut out: Vec<char> = Vec::new();
        let mut i: usize = 0;
        while i < s.len()
            invariant
                i <= s@.len(),
                out@ == s@.take(i as int),
            decreases s@.len() - i,
        {
            out.push(s[i]);
            i += 1;
            assert(out@ =~= s@.take(i as int));
        }
        assert(s@.take(s@.len() as int) =~= s@);
        out
    }
}

fn strip_suffixes(s: &[char], p: &[char]) -> (r: Vec<char>)
    ensures
        r@ == strip_suffix_all(s@, p@),
    decreases s@.len(),
{
    if p.len() > 0 && ends_with(s, p) {
        let head = s.split_at(s.len() - p.len()).0;
        assert(head@ =~= s@.take(s@.len() - p@.len()));
        strip_suffixes(head, p)
    } else {
        let mut out: Vec<char> = Vec::new();
        let mut i: usize = 0;
        while i < s.len()
            invariant
                i <= s@.len(),
                out@ == s@.take(i as int),
            decreases s@.len() - i,
        {
            out.push(s[i]);
            i += 1;
            assert(out@ =~= s@.take(i as int));
        }
        assert(s@.take(s@.len() as int) =~= s@);
        out
    }
}

/// The fan number of a hwmon file name, when it names a fan speed input.
pub fn fan_input_number(name: &str) -> (r: Option<String>)
    ensures
        opt_view(r) == fan_number(name@),
{
    let n = chars_of(name);
    let fan = chars_of("fan");
    let input = chars_of("_input");
    proof {
        reveal_strlit("fan");
        reveal_strlit("_input");
    }
    if crate::text::starts_with(n.as_slice(), fan.as_slice()) && ends_with(
        n.as_slice(),
        input.as_slice(),
    ) {
        let a = strip_prefixes(n.as_slice(), fan.as_slice());
        let b = strip_suffixes(a.as_slice(), input.as_slice());
        Some(crate::text::string_of(b.as_slice()))
    } else {
        None
    }
}

// ── Sort order ────────────────────────────────────────────────────────────────

/// Lexicographic comparison of character sequences by code point, the
/// order of Rust strings: negative, zero or positive.
pub open spec fn seq_order(a: Seq<char>, b: Seq<char>) -> int
    decreases a.len(),
{
    if a.len() == 0 {
        if b.len() == 0 {
            0
        } else {
            -1
        }
    } else if b.len() == 0 {
        1
    } else if (a[0] as u32) < (b[0] as u32) {
        -1
    } else if (a[0] as u32) > (b[0] as u32) {
        1
    } else {
        seq_order(a.drop_first(), b.drop_first())
    }
}

/// Fans are ordered by device name, then by label.
pub open spec fn fan_order(a: FanRecord, b: FanRecord) -> int {
    let c = seq_order(a.device_name, b.device_name);
    if c != 0 {
        c
    } else {
        seq_order(a.label, b.label)
    }
}

/// `x` inserted into `s` after every element that does not order after it.
pub open spec fn insert_fan(s: Seq<FanRecord>, x: FanRecord) -> Seq<FanRecord>
    decreases s.len(),
{
    if s.len() == 0 {
        seq![x]
    } else if fan_order(s.last(), x) > 0 {
        insert_fan(s.drop_last(), x).push(s.last())
    } else {
        s.push(x)
    }
}

/// `s` in fan order, fans that compare equal kept in the order they are listed
/// (a stable sort).
pub open spec fn sort_fans(s: Seq<FanRecord>) -> Seq<FanRecord>
    decreases s.len(),
{
    if s.len() == 0 {
        seq![]
    } else {
        insert_fan(sort_fans(s.drop_last()), s.last())
    }
}

/// Fans in sort order: each orders at or before the next.
pub open spec fn fans_sorted(s: Seq<FanRecord>) -> bool {
    forall|i: int| 0 <= i < s.len() - 1 ==> fan_order(#[trigger] s[i], s[i + 1]) <= 0
}

/// Swapping the sequences negates their comparison.
pub proof fn lemma_seq_order_flip(a: Seq<char>, b: Seq<char>)
    ensures
        seq_order(a, b) == -seq_order(b, a),
    decreases a.len(),
{
    if a.len() > 0 && b.len() > 0 && (a[0] as u32) == (b[0] as u32) {
        lemma_seq_order_flip(a.drop_first(), b.drop_first());
    }
}

proof fn lemma_fan_order_flip(a: FanRecord, b: FanRecord)
    ensures
        fan_order(a, b) == -fan_order(b, a),
{
    lemma_seq_order_flip(a.device_name, b.device_name);
    lemma_seq_order_flip(a.label, b.label);
}

proof fn lemma_insert_fan(s: Seq<FanRecord>, x: FanRecord)
    requires
        fans_sorted(s),
    ensures
        fans_sorted(insert_fan(s, x)),
        insert_fan(s, x).len() == s.len() + 1,
        insert_fan(s, x).last() == x || (s.len() > 0 && insert_fan(s, x).last() == s.last()),
        insert_fan(s, x).to_multiset() == s.to_multiset().insert(x),
    decreases s.len(),
{
    broadcast use vstd::seq_lib::group_seq_properties;

    if s.len() == 0 {
        assert(insert_fan(s, x) == seq![x]);
        assert(seq![x] =~= Seq::<FanRecord>::empty().push(x));
    } else if fan_order(s.last(), x) > 0 {
        let t = s.drop_last();
        assert(fans_sorted(t)) by {
            assert forall|i: int| 0 <= i < t.len() - 1 implies fan_order(#[trigger] t[i], t[i + 1])
                <= 0 by {
                assert(t[i] == s[i] && t[i + 1] == s[i + 1]);
            }
        }
        lemma_insert_fan(t, x);
        let u = insert_fan(t, x);
        let r = u.push(s.last());
        assert(insert_fan(s, x) == r);
        lemma_fan_order_flip(s.last(), x);
        if t.len() > 0 {
            assert(fan_order(s[s.len() - 2], s[s.len() - 1]) <= 0);
            assert(t.last() == s[s.len() - 2]);
        }
        assert(fan_order(u.last(), s.last()) <= 0);
        assert forall|i: int| 0 <= i < r.len() - 1 implies fan_order(#[trigger] r[i], r[i + 1])
            <= 0 by {
            if i < u.len() - 1 {
                assert(r[i] == u[i] && r[i + 1] == u[i + 1]);
            } else {
                assert(r[i] == u.last() && r[i + 1] == s.last());
            }
        }
        assert(s =~= t.push(s.last()));
        assert(t.push(s.last()).to_multiset() == t.to_multiset().insert(s.last()));
        assert(r.to_multiset() == u.to_multiset().insert(s.last()));
        assert(r.to_multiset() =~= s.to_multiset().insert(x));
    } else {
        let r = s.push(x);
        assert(insert_fan(s, x) == r);
        assert forall|i: int| 0 <= i < r.len() - 1 implies fan_order(#[trigger] r[i], r[i + 1])
            <= 0 by {
            if i < s.len() - 1 {
                assert(r[i] == s[i] && r[i + 1] == s[i + 1]);
            } else {
                assert(r[i] == s.last() && r[i + 1] == x);
            }
        }
    }
}

/// The fans a snapshot lists come in sort order, each fan once for each
/// time it was collected: sorting keeps every fan and orders them by
/// device name, then label.
pub proof fn fan_sort_orders(s: Seq<FanRecord>)
    ensures
        fans_sorted(sort_fans(s)),
        sort_fans(s).to_multiset() == s.to_multiset(),
    decreases s.len(),
{
    broadcast use vstd::seq_lib::group_seq_properties;

    if s.len() > 0 {
        fan_sort_orders(s.drop_last());
        lemma_insert_fan(sort_fans(s.drop_last()), s.last());
        assert(s =~= s.drop_last().push(s.last()));
        assert(s.drop_last().push(s.last()).to_multiset() == s.drop_last().to_multiset().insert(
            s.last(),
        ));
    } else {
        assert(sort_fans(s) =~= s);
    }
}

pub(crate) fn order_chars(a: &[char], b: &[char]) -> (r: i8)
    ensures
        r as int == seq_order(a@, b@),
    decreases a@.len(),
{
    if a.len() == 0 {
        if b.len() == 0 {
            0
        } else {
            -1
        }
    } else if b.len() == 0 {
        1
    } else if (a[0] as u32) < (b[0] as u32) {
        -1
    } else if (a[0] as u32) > (b[0] as u32) {
        1
    } else {
        let ra = a.split_at(1).1;
        let rb = b.split_at(1).1;
        assert(ra@ =~= a@.drop_first());
        assert(rb@ =~= b@.drop_first());
        order_chars(ra, rb)
    }
}

fn order_fans(a: &FanInfo, b: &FanInfo) -> (r: i8)
    ensures
        r as int == fan_order(a@, b@),
{
    let ad = chars_of(a.device_name.as_str());
    let bd = chars_of(b.device_name.as_str());
    let c = order_chars(ad.as_slice(), bd.as_slice());
    if c != 0 {
        c
    } else {
        let al = chars_of(a.label.as_str());
        let bl = chars_of(b.label.as_str());
        order_chars(al.as_slice(), bl.as_slice())
    }
}

proof fn lemma_insert_fan_at(s: Seq<FanRecord>, x: FanRecord, j: int)
    requires
        0 <= j <= s.len(),
        forall|k: int| j <= k < s.len() ==> fan_order(#[trigger] s[k], x) > 0,
        j > 0 ==> fan_order(s[j - 1], x) <= 0,
    ensures
        insert_fan(s, x) == s.take(j).push(x) + s.skip(j),
    decreases s.len(),
{
    if s.len() == 0 {
        assert(s.take(j).push(x) + s.skip(j) =~= seq![x]);
    } else if j == s.len() {
        assert(s.take(j).push(x) + s.skip(j) =~= s.push(x));
    } else {
        lemma_insert_fan_at(s.drop_last(), x, j);
        assert(s.drop_last().take(j) =~= s.take(j));
        assert(s.take(j).push(x) + s.skip(j) =~= (s.take(j).push(x) + s.drop_last().skip(j)).push(
            s.last(),
        ));
    }
}

/// Sorts fans by device name, then label, keeping the order of fans that
/// compare equal.
pub fn sort_fan_list(fans: Vec<FanInfo>) -> (r: Vec<FanInfo>)
    ensures
        fan_records(r@) == sort_fans(fan_records(fans@)),
{
    let mut out: Vec<FanInfo> = Vec::new();
    let mut rest = fans;
    let ghost all = fan_records(rest@);
    let mut src: Vec<FanInfo> = Vec::new();
    // Reverse into `src` so that popping yields the fans in order.
    while rest.len() > 0
        invariant
            fan_records(rest@) + fan_records(src@).reverse() == all,
        decreases rest@.len(),
    {
        let ghost before_src = fan_records(src@);
        let ghost before_rest = fan_records(rest@);
        let f = rest.pop().unwrap();
        src.push(f);
        assert(fan_records(src@) =~= before_src.push(f@));
        assert(fan_records(rest@) =~= before_rest.drop_last());
        assert(fan_records(src@).reverse() =~= seq![f@] + before_src.reverse());
        assert(fan_records(rest@) + fan_records(src@).reverse() =~= before_rest
            + before_src.reverse()) by {
            assert(before_rest =~= before_rest.drop_last().push(f@));
        }
    }
    assert(fan_records(src@).reverse() =~= all);
    while src.len() > 0
        invariant
            fan_records(out@) == sort_fans(all.take(all.len() - fan_records(src@).len())),
            fan_records(src@).reverse() == all.skip(all.len() - fan_records(src@).len()),
            fan_records(src@).len() <= all.len(),
        decreases src@.len(),
    {
        let ghost before_src = fan_records(src@);
        let ghost done = all.len() - before_src.len();
        let x = src.pop().unwrap();
        assert(fan_records(src@) =~= before_src.drop_last());
        assert(before_src.reverse()[0] == x@);
        assert(all[done] == x@) by {
            assert(all.skip(done)[0] == all[done]);
        }
        assert(fan_records(src@).reverse() =~= all.skip(done + 1)) by {
            assert(before_src.reverse().drop_first() =~= before_src.drop_last().reverse());
            assert(all.skip(done).drop_first() =~= all.skip(done + 1));
        }
        assert(all.take(done + 1).drop_last() =~= all.take(done));
        let mut j: usize = out.len();
        while j > 0 && order_fans(&out[j - 1], &x) > 0
            invariant
                j <= out@.len(),
                forall|k: int| j <= k < out@.len() ==> fan_order(#[trigger] fan_records(out@)[k], x@) > 0,
            decreases j,
        {
            j -= 1;
        }
        let ghost prev = fan_records(out@);
        proof {
            lemma_insert_fan_at(prev, x@, j as int);
        }
        out.insert(j, x);
        assert(fan_records(out@) =~= prev.take(j as int).push(x@) + prev.skip(j as int));
    }
    assert(all.take(all.len() as int) =~= all);
    out
}


// ── Snapshot ────────────────────────────────────────────────────────────────

/// Fan monitoring snapshot.
pub struct FanSnapshot {
    pub fans: Vec<FanInfo>,
    pub available: bool,
    /// Laptop-specific fan mode (auto, silent, etc).
    pub fan_mode: Option<String>,
    /// Cooler boost / turbo status.
    pub cooler_boost: Option<bool>,
    /// Detected laptop brand.
    pub laptop_brand: Option<String>,
}

/// An optional fan as a sequence of none or one.
pub open spec fn opt_fan(o: Option<FanRecord>) -> Seq<FanRecord> {
    match o {
        Some(f) => seq![f],
        None => seq![],
    }
}

/// The fans of the ThinkPad interface.
pub open spec fn thinkpad_part(content: Option<String>) -> Seq<FanRecord> {
    match content {
        Some(c) => opt_fan(thinkpad_fan(c@)),
        None => seq![],
    }
}

/// The fans of the MSI EC interface: the CPU fan, then the GPU fan.
pub open spec fn msi_part(files: Option<MsiEcFiles>) -> Seq<FanRecord> {
    match files {
        Some(m) => opt_fan(msi_fan(m.cpu_speed, "CPU Fan"@)) + opt_fan(
            msi_fan(m.gpu_speed, "GPU Fan"@),
        ),
        None => seq![],
    }
}

/// Whether the ASUS reader reports fans.
pub open spec fn asus_found(dirs: Seq<HwmonDir>) -> bool {
    !some_dir_nameless(dirs) && vendor_fans(FanVendor::Asus, dirs).len() > 0
}

/// The fans the laptop interfaces report, in the order they are asked:
/// ThinkPad, MSI, ASUS, Dell, HP.
pub open spec fn laptop_fans(src: FanSources) -> Seq<FanRecord> {
    thinkpad_part(src.thinkpad) + msi_part(src.msi_ec) + (if asus_found(src.hwmon@) {
        vendor_fans(FanVendor::Asus, src.hwmon@)
    } else {
        seq![]
    }) + vendor_fans(FanVendor::Dell, src.hwmon@) + vendor_fans(FanVendor::Hp, src.hwmon@)
}

/// The laptop brand: the last interface that reported, in the order
/// ThinkPad, MSI (its directory exists), ASUS, Dell, HP.
pub open spec fn laptop_brand(src: FanSources) -> Option<Seq<char>> {
    if vendor_fans(FanVendor::Hp, src.hwmon@).len() > 0 {
        Some("HP"@)
    } else if vendor_fans(FanVendor::Dell, src.hwmon@).len() > 0 {
        Some("Dell"@)
    } else if asus_found(src.hwmon@) {
        Some("ASUS"@)
    } else if src.msi_ec is Some {
        Some("MSI"@)
    } else if thinkpad_part(src.thinkpad).len() > 0 {
        Some("ThinkPad"@)
    } else {
        None
    }
}

/// The fan mode: the ASUS thermal policy when ASUS fans were found, else
/// the MSI EC `fan_mode` file.
pub open spec fn laptop_fan_mode(src: FanSources) -> Option<Seq<char>> {
    if asus_found(src.hwmon@) {
        match sysfs_string(src.asus_policy) {
            Some(p) => Some(asus_mode(p)),
            None => None,
        }
    } else {
        match src.msi_ec {
            Some(m) => sysfs_string(m.fan_mode),
            None => None,
        }
    }
}

/// Cooler boost: whether the MSI EC `cooler_boost` file reads "on".
pub open spec fn cooler_boost_of(src: FanSources) -> Option<bool> {
    match src.msi_ec {
        Some(m) => match sysfs_string(m.cooler_boost) {
            Some(b) => Some(b == "on"@),
            None => None,
        },
        None => None,
    }
}

/// All fans: the laptop interfaces' fans and the generic hwmon fans, in
/// fan order.
pub open spec fn all_fans(src: FanSources) -> Seq<FanRecord> {
    let laptop = laptop_fans(src);
    sort_fans(laptop + hwmon_fans(src.hwmon@, laptop))
}

fn append_fans(fans: &mut Vec<FanInfo>, more: Vec<FanInfo>)
    ensures
        fan_records(final(fans)@) == fan_records(old(fans)@) + fan_records(more@),
{
    let mut more = more;
    let ghost a = old(fans)@;
    let ghost b = more@;
    fans.append(&mut more);
    assert(fan_records(fans@) =~= fan_records(a) + fan_records(b));
}

fn push_opt_fan(fans: &mut Vec<FanInfo>, f: Option<FanInfo>)
    ensures
        fan_records(final(fans)@) == fan_records(old(fans)@) + match f {
            Some(x) => seq![x@],
            None => Seq::<FanRecord>::empty(),
        },
{
    let ghost a = old(fans)@;
    match f {
        Some(x) => {
            fans.push(x);
            assert(fan_records(fans@) =~= fan_records(a) + seq![fans@.last()@]);
        },
        None => {
            assert(fan_records(fans@) =~= fan_records(a) + Seq::<FanRecord>::empty());
        },
    }
}

impl FanSnapshot {
    /// Collect fan data from all sources: the laptop interfaces first
    /// (ThinkPad, MSI EC, ASUS, Dell, HP), then the generic hwmon
    /// directories that no laptop driver owns; the fans sorted by device
    /// name, then label.
    pub fn collect(src: &FanSources) -> (r: FanSnapshot)
        ensures
            fan_records(r.fans@) == all_fans(*src),
            r.available == (all_fans(*src).len() > 0),
            opt_view(r.fan_mode) == laptop_fan_mode(*src),
            r.cooler_boost == cooler_boost_of(*src),
            opt_view(r.laptop_brand) == laptop_brand(*src),
    {
        let mut fans: Vec<FanInfo> = Vec::new();
        let mut fan_mode: Option<String> = None;
        let mut cooler_boost: Option<bool> = None;
        let mut laptop_brand: Option<String> = None;

        // 1. ThinkPad
        match &src.thinkpad {
            Some(content) => match collect_thinkpad(content.as_str()) {
                Some(tp) => {
                    laptop_brand = Some("ThinkPad".to_owned());
                    append_fans(&mut fans, tp);
                },
                None => {},
            },
            None => {},
        }
        assert(fan_records(fans@) =~= thinkpad_part(src.thinkpad));

        // 2. MSI EC
        match &src.msi_ec {
            Some(m) => {
                laptop_brand = Some("MSI".to_owned());
                fan_mode = read_string(&m.fan_mode);
                cooler_boost = match read_string(&m.cooler_boost) {
                    Some(b) => {
                        let bc = chars_of(b.as_str());
                        Some(chars_eq_str(bc.as_slice(), "on"))
                    },
                    None => None,
                };
                push_opt_fan(&mut fans, collect_msi_ec_fan(&m.cpu_speed, "CPU Fan"));
                push_opt_fan(&mut fans, collect_msi_ec_fan(&m.gpu_speed, "GPU Fan"));
            },
            None => {},
        }
        assert(fan_records(fans@) =~= thinkpad_part(src.thinkpad) + msi_part(src.msi_ec));

        // 3. ASUS
        match collect_asus(&src.hwmon, &src.asus_policy) {
            Some((asus, mode)) => {
                laptop_brand = Some("ASUS".to_owned());
                fan_mode = mode;
                append_fans(&mut fans, asus);
            },
            None => {},
        }
        // 4. Dell
        match collect_dell(&src.hwmon) {
            Some(dell) => {
                laptop_brand = Some("Dell".to_owned());
                append_fans(&mut fans, dell);
            },
            None => {},
        }
        // 5. HP
        match collect_hp(&src.hwmon) {
            Some(hp) => {
                laptop_brand = Some("HP".to_owned());
                append_fans(&mut fans, hp);
            },
            None => {},
        }
        assert(fan_records(fans@) =~= laptop_fans(*src));

        // 6. Generic hwmon
        let generic = collect_hwmon(&src.hwmon, fans.as_slice());
        append_fans(&mut fans, generic);

        let fans = sort_fan_list(fans);
        let available = fans.len() > 0;
        proof {
            reveal_strlit("on");
        }
        FanSnapshot { fans, available, fan_mode, cooler_boost, laptop_brand }
    }
}

// ── Summary ─────────────────────────────────────────────────────────────────

/// Whether a fan runs: by its percentage when it reports one, else by its
/// RPM.
pub open spec fn fan_runs(f: FanRecord) -> bool {
    match f.speed_pct {
        Some(p) => p > 0,
        None => match f.rpm {
            Some(v) => v > 0,
            None => false,
        },
    }
}

/// How many of `s` run.
pub open spec fn running_count(s: Seq<FanRecord>) -> nat
    decreases s.len(),
{
    if s.len() == 0 {
        0
    } else {
        running_count(s.drop_last()) + if fan_runs(s.last()) {
            1nat
        } else {
            0nat
        }
    }
}

/// How many of `s` could not be read.
pub open spec fn unreadable_count(s: Seq<FanRecord>) -> nat
    decreases s.len(),
{
    if s.len() == 0 {
        0
    } else {
        unreadable_count(s.drop_last()) + if s.last().read_error {
            1nat
        } else {
            0nat
        }
    }
}

/// The counts under the fan list.
#[derive(Clone, Copy, Debug, PartialEq, Eq, Structural)]
pub struct FanSummary {
    pub total: usize,
    pub running: usize,
    pub unreadable: usize,
}

proof fn lemma_counts_bounded(s: Seq<FanRecord>)
    ensures
        running_count(s) <= s.len(),
        unreadable_count(s) <= s.len(),
    decreases s.len(),
{
    if s.len() > 0 {
        lemma_counts_bounded(s.drop_last());
    }
}

impl FanSnapshot {
    /// How many fans there are, how many run, and how many could not be
    /// read.
    pub fn summary(&self) -> (r: FanSummary)
        ensures
            r.total == self.fans@.len(),
            r.running == running_count(fan_records(self.fans@)),
            r.unreadable == unreadable_count(fan_records(self.fans@)),
    {
        let ghost all = fan_records(self.fans@);
        let mut running: usize = 0;
        let mut unreadable: usize = 0;
        let mut i: usize = 0;
        while i < self.fans.len()
            invariant
                i <= self.fans@.len(),
                all == fan_records(self.fans@),
                running == running_count(all.take(i as int)),
                unreadable == unreadable_count(all.take(i as int)),
            decreases self.fans@.len() - i,
        {
            assert(all.take(i as int + 1).drop_last() =~= all.take(i as int));
            assert(all.take(i as int + 1).last() == self.fans@[i as int]@);
            proof {
                lemma_counts_bounded(all.take(i as int));
            }
            if self.fans[i].is_running() {
                running += 1;
            }
            if self.fans[i].read_error {
                unreadable += 1;
            }
            i += 1;
        }
        assert(all.take(self.fans@.len() as int) =~= all);
        FanSummary { total: self.fans.len(), running, unreadable }
    }
}

/// The glyph before a fan in the list: a warning sign when it could not be
/// read, a quarter-turning circle while it runs (one step every four
/// ticks), an empty circle when it stands.
pub open spec fn spin_glyph_of(f: FanRecord, tick: u64) -> char {
    if f.read_error {
        '⚠'
    } else if fan_runs(f) {
        let step = (tick / 4) % 4;
        if step == 0 {
            '◐'
        } else if step == 1 {
            '◓'
        } else if step == 2 {
            '◑'
        } else {
            '◒'
        }
    } else {
        '○'
    }
}

impl FanInfo {
    /// The glyph shown before this fan at `tick`.
    pub fn spin_glyph(&self, tick: u64) -> (r: char)
        ensures
            r == spin_glyph_of(self@, tick),
    {
        if self.read_error {
            '⚠'
        } else if self.is_running() {
            let step = (tick / 4) % 4;
            if step == 0 {
                '◐'
            } else if step == 1 {
                '◓'
            } else if step == 2 {
                '◑'
            } else {
                '◒'
            }
        } else {
            '○'
        }
    }
}

} // verus!
