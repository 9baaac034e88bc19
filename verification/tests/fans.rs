use pulse::system::fan::{
    collect_asus, collect_dell, collect_hp, collect_hwmon, collect_msi_ec_fan, collect_thinkpad,
    fan_input_number, sort_fan_list, FanInfo, FanSnapshot, FanSources, HwmonDir, HwmonFanFiles,
    MsiEcFiles,
};

fn files(num: &str, input: Option<&str>, label: Option<&str>) -> HwmonFanFiles {
    HwmonFanFiles {
        num: num.to_string(),
        input: input.map(|s| s.to_string()),
        label: label.map(|s| s.to_string()),
        min: None,
        max: None,
        pwm: None,
        pwm_enable: None,
    }
}

fn dir(name: Option<&str>, fans: Vec<HwmonFanFiles>) -> HwmonDir {
    HwmonDir { name: name.map(|s| s.to_string()), fans }
}

fn fan(device: &str, label: &str) -> FanInfo {
    FanInfo {
        device_name: device.to_string(),
        label: label.to_string(),
        rpm: None,
        speed_pct: None,
        min_rpm: None,
        max_rpm: None,
        pwm: None,
        pwm_mode: None,
        level: None,
        read_error: false,
    }
}

#[test]
fn thinkpad_fan_from_proc() {
    let fans = collect_thinkpad("status:\t\tenabled\nspeed:\t\t2650\nlevel:\t\tauto\n").unwrap();
    assert_eq!(fans.len(), 1);
    assert_eq!(fans[0].device_name, "thinkpad");
    assert_eq!(fans[0].label, "System Fan");
    assert_eq!(fans[0].rpm, Some(2650));
    assert_eq!(fans[0].level.as_deref(), Some("auto"));
    assert!(collect_thinkpad("status: disabled\n").is_none());
    let level_only = collect_thinkpad("level: full-speed\nspeed: fast\n").unwrap();
    assert_eq!(level_only[0].rpm, None);
}

#[test]
fn msi_fan_percentage_is_capped() {
    let f = collect_msi_ec_fan(&Some("150\n".to_string()), "CPU Fan").unwrap();
    assert_eq!(f.device_name, "msi-ec");
    assert_eq!(f.label, "CPU Fan");
    assert_eq!(f.speed_pct, Some(100));
    assert_eq!(f.rpm, None);
    let f = collect_msi_ec_fan(&Some(" 42 ".to_string()), "GPU Fan").unwrap();
    assert_eq!(f.speed_pct, Some(42));
    assert!(collect_msi_ec_fan(&None, "CPU Fan").is_none());
    assert!(collect_msi_ec_fan(&Some("x".to_string()), "CPU Fan").is_none());
}

#[test]
fn vendor_drivers_read_their_directories() {
    let dirs = vec![
        dir(Some("asus\n"), vec![files("1", Some("2000"), None), HwmonFanFiles { pwm: Some("300".into()), ..files("2", None, Some("GPU Fan")) }]),
        dir(Some("dell_smm"), vec![files("1", Some("900"), Some("Processor Fan"))]),
        dir(Some("hp_wmi"), vec![files("3", Some("1200"), None)]),
    ];
    let (asus, mode) = collect_asus(&dirs, &Some("1\n".to_string())).unwrap();
    assert_eq!(asus.len(), 2);
    assert_eq!(asus[0].device_name, "asus-wmi");
    assert_eq!(asus[0].label, "Fan 1");
    assert_eq!(asus[0].rpm, Some(2000));
    assert_eq!(asus[1].label, "GPU Fan");
    assert!(asus[1].read_error);
    assert_eq!(asus[1].pwm, Some(255));
    assert_eq!(mode.as_deref(), Some("Turbo"));
    let dell = collect_dell(&dirs).unwrap();
    assert_eq!(dell.len(), 1);
    assert_eq!(dell[0].device_name, "dell-smm");
    assert_eq!(dell[0].label, "Processor Fan");
    let hp = collect_hp(&dirs).unwrap();
    assert_eq!(hp[0].device_name, "hp-wmi");
    assert_eq!(hp[0].label, "Fan 3");
    assert_eq!(hp[0].pwm, None);
}

#[test]
fn asus_reader_gives_up_on_a_nameless_directory() {
    let dirs = vec![
        dir(Some("asus"), vec![files("1", Some("2000"), None)]),
        dir(None, vec![]),
    ];
    assert!(collect_asus(&dirs, &None).is_none());
    let dirs = vec![dir(Some("asus"), vec![files("1", Some("2000"), None)])];
    let (fans, mode) = collect_asus(&dirs, &Some("1".to_string())).unwrap();
    assert_eq!(fans.len(), 1);
    assert_eq!(fans[0].device_name, "asus-wmi");
    assert_eq!(fans[0].rpm, Some(2000));
    assert_eq!(mode.as_deref(), Some("Turbo"));
    let dirs = vec![dir(Some("asus"), vec![files("1", Some("2000"), None)])];
    let (_, mode) = collect_asus(&dirs, &Some("7".to_string())).unwrap();
    assert_eq!(mode.as_deref(), Some("7"));
    let (_, mode) = collect_asus(&dirs, &None).unwrap();
    assert_eq!(mode, None);
    assert!(collect_dell(&vec![]).is_none());
}

#[test]
fn generic_hwmon_skips_laptop_drivers() {
    let dirs = vec![
        dir(Some("nct6775"), vec![HwmonFanFiles {
            min: Some("300".into()),
            max: Some("2000".into()),
            pwm: Some("128".into()),
            pwm_enable: Some("2".into()),
            ..files("2", Some("1100"), None)
        }]),
        dir(Some("thinkpad"), vec![files("1", Some("1"), None)]),
        dir(Some("amdgpu"), vec![files("1", Some("800"), None)]),
        dir(None, vec![files("1", None, Some(" Aux "))]),
    ];
    let fans = collect_hwmon(&dirs, &[]);
    assert_eq!(fans.len(), 3);
    assert_eq!(fans[0].device_name, "nct6775");
    assert_eq!(fans[0].label, "fan2");
    assert_eq!(fans[0].min_rpm, Some(300));
    assert_eq!(fans[0].max_rpm, Some(2000));
    assert_eq!(fans[0].pwm, Some(128));
    assert_eq!(fans[0].pwm_mode, Some(2));
    assert_eq!(fans[0].pwm_mode_label(), Some("Auto"));
    assert_eq!(fans[1].device_name, "amdgpu");
    assert_eq!(fans[2].device_name, "unknown");
    assert_eq!(fans[2].label, "Aux");
    assert!(fans[2].read_error);
    let with_gpu = collect_hwmon(&dirs, &[fan("msi-ec", "GPU Fan")]);
    assert_eq!(with_gpu.len(), 2);
    assert_eq!(with_gpu[1].device_name, "unknown");
}

#[test]
fn fan_file_numbers() {
    assert_eq!(fan_input_number("fan1_input").as_deref(), Some("1"));
    assert_eq!(fan_input_number("fan12_input").as_deref(), Some("12"));
    assert_eq!(fan_input_number("fanfan3_input_input").as_deref(), Some("3"));
    assert_eq!(fan_input_number("fan1_label"), None);
    assert_eq!(fan_input_number("pwm1"), None);
}

#[test]
fn fans_sort_by_device_then_label_stably() {
    let mut a = fan("b", "x");
    a.rpm = Some(1);
    let mut b = fan("b", "x");
    b.rpm = Some(2);
    let sorted = sort_fan_list(vec![fan("c", "a"), a, fan("a", "z"), b, fan("a", "y")]);
    let keys: Vec<(String, String, Option<u32>)> = sorted
        .iter()
        .map(|f| (f.device_name.clone(), f.label.clone(), f.rpm))
        .collect();
    assert_eq!(
        keys,
        vec![
            ("a".to_string(), "y".to_string(), None),
            ("a".to_string(), "z".to_string(), None),
            ("b".to_string(), "x".to_string(), Some(1)),
            ("b".to_string(), "x".to_string(), Some(2)),
            ("c".to_string(), "a".to_string(), None),
        ]
    );
}

#[test]
fn fan_running_and_modes() {
    let mut f = fan("d", "l");
    assert!(!f.is_running());
    assert_eq!(f.rpm_or_zero(), 0);
    f.rpm = Some(10);
    assert!(f.is_running());
    assert_eq!(f.rpm_or_zero(), 10);
    f.speed_pct = Some(0);
    assert!(!f.is_running());
    f.pwm_mode = Some(0);
    assert_eq!(f.pwm_mode_label(), Some("Off"));
    f.pwm_mode = Some(1);
    assert_eq!(f.pwm_mode_label(), Some("Manual"));
    f.pwm_mode = Some(9);
    assert_eq!(f.pwm_mode_label(), Some("Unknown"));
}

#[test]
fn snapshot_brand_mode_and_order() {
    let src = FanSources {
        thinkpad: Some("speed: 3000\n".to_string()),
        msi_ec: Some(MsiEcFiles {
            fan_mode: Some("silent\n".to_string()),
            cooler_boost: Some("on\n".to_string()),
            cpu_speed: Some("30".to_string()),
            gpu_speed: None,
        }),
        asus_policy: None,
        hwmon: vec![
            dir(Some("nct6775"), vec![files("1", Some("700"), None)]),
            dir(Some("dell_smm"), vec![files("1", Some("900"), None)]),
        ],
    };
    let snap = FanSnapshot::collect(&src);
    assert!(snap.available);
    assert_eq!(snap.laptop_brand.as_deref(), Some("Dell"));
    assert_eq!(snap.fan_mode.as_deref(), Some("silent"));
    assert_eq!(snap.cooler_boost, Some(true));
    let devices: Vec<&str> = snap.fans.iter().map(|f| f.device_name.as_str()).collect();
    assert_eq!(devices, vec!["dell-smm", "msi-ec", "nct6775", "thinkpad"]);
}

#[test]
fn snapshot_without_fans() {
    let src = FanSources { thinkpad: None, msi_ec: None, asus_policy: None, hwmon: vec![] };
    let snap = FanSnapshot::collect(&src);
    assert!(!snap.available);
    assert!(snap.fans.is_empty());
    assert_eq!(snap.laptop_brand, None);
    assert_eq!(snap.fan_mode, None);
    assert_eq!(snap.cooler_boost, None);
}

#[test]
fn snapshot_msi_directory_alone_names_the_brand() {
    let src = FanSources {
        thinkpad: None,
        msi_ec: Some(MsiEcFiles { fan_mode: None, cooler_boost: Some("off".into()), cpu_speed: None, gpu_speed: None }),
        asus_policy: Some("0".to_string()),
        hwmon: vec![],
    };
    let snap = FanSnapshot::collect(&src);
    assert!(!snap.available);
    assert_eq!(snap.laptop_brand.as_deref(), Some("MSI"));
    assert_eq!(snap.cooler_boost, Some(false));
    assert_eq!(snap.fan_mode, None);
}

#[test]
fn sorted_fans_are_in_order_and_complete() {
    let input = vec![
        fan("nct6775", "fan2"),
        fan("amdgpu", "fan1"),
        fan("nct6775", "fan1"),
        fan("Asus", "b"),
        fan("amdgpu", "fan1"),
    ];
    let sorted = sort_fan_list(input.clone());
    assert_eq!(sorted.len(), input.len());
    for w in sorted.windows(2) {
        assert!((&w[0].device_name, &w[0].label) <= (&w[1].device_name, &w[1].label));
    }
    let mut a: Vec<(String, String)> = input.iter().map(|f| (f.device_name.clone(), f.label.clone())).collect();
    let mut b: Vec<(String, String)> = sorted.iter().map(|f| (f.device_name.clone(), f.label.clone())).collect();
    a.sort();
    b.sort();
    assert_eq!(a, b);
}

#[test]
fn fan_summary_counts() {
    let mut a = fan("d", "a");
    a.rpm = Some(900);
    let mut b = fan("d", "b");
    b.read_error = true;
    let mut c = fan("d", "c");
    c.speed_pct = Some(0);
    c.rpm = Some(500);
    let snap = FanSnapshot { fans: vec![a, b, c], available: true, fan_mode: None, cooler_boost: None, laptop_brand: None };
    let s = snap.summary();
    assert_eq!((s.total, s.running, s.unreadable), (3, 1, 1));
}

#[test]
fn fan_spin_glyphs() {
    let mut f = fan("d", "a");
    assert_eq!(f.spin_glyph(0), '○');
    f.rpm = Some(1);
    assert_eq!(f.spin_glyph(0), '◐');
    assert_eq!(f.spin_glyph(4), '◓');
    assert_eq!(f.spin_glyph(9), '◑');
    assert_eq!(f.spin_glyph(15), '◒');
    assert_eq!(f.spin_glyph(16), '◐');
    f.read_error = true;
    assert_eq!(f.spin_glyph(4), '⚠');
}
