//! The device-facing readers: the device list, the property dump, the
//! package listings, the service dump, and the boot and root heuristics.

use android_checker::adb::{device_from_properties, AdbClient, Device, DeviceManager};
use android_checker::audit::AuditRunner;
use android_checker::checks::{file_exists_from, BootloaderChecker, RootChecker};
use android_checker::monitor::AppManager;
use android_checker::service::{ServiceMonitor, ServiceState};

fn props(pairs: &[(&str, &str)]) -> Vec<(String, String)> {
    pairs.iter().map(|(k, v)| (k.to_string(), v.to_string())).collect()
}

#[test]
fn device_list_keeps_ready_devices() {
    let out = "List of devices attached\n\
               abc123\tdevice usb:1 product:p\n\
               def456\tunauthorized\n\
               * daemon started *\n\
               \n\
               ghi789\tdevice\n";
    let serials = DeviceManager::parse_device_serials(out);
    assert_eq!(serials, vec!["abc123".to_string(), "ghi789".to_string()]);
}

#[test]
fn property_dump_pairs_are_read() {
    let out = "[ro.product.model]: [Pixel 5]\n\
               garbage line\n\
               [ro.build.version.sdk]: [30]\n";
    let props = DeviceManager::parse_properties(out);
    assert_eq!(props.len(), 2);
    assert_eq!(props[0].0, "ro.product.model");
    assert_eq!(props[0].1, "Pixel 5");
    let sdk = DeviceManager::lookup_property(&props, "ro.build.version.sdk");
    assert_eq!(sdk, Some("30".to_string()));
    assert_eq!(DeviceManager::lookup_property(&props, "missing"), None);
}

#[test]
fn later_property_entries_override_earlier() {
    let out = "[k]: [old]\n[k]: [new]\n";
    let props = DeviceManager::parse_properties(out);
    assert_eq!(DeviceManager::lookup_property(&props, "k"), Some("new".to_string()));
}

#[test]
fn package_listing_is_read() {
    let out = "package:com.example.one\n  package:com.example.two  \nnoise\n";
    let pkgs = DeviceManager::parse_package_list(out);
    assert_eq!(pkgs, vec!["com.example.one".to_string(), "com.example.two".to_string()]);
}

#[test]
fn device_display_name_prefers_brand_and_marketing_name() {
    let d = Device {
        serial: "s".to_string(),
        state: "device".to_string(),
        model: Some("SM-X".to_string()),
        brand: Some("Acme".to_string()),
        marketing_name: Some("Phone One".to_string()),
        android_version: None,
        sdk_version: None,
    };
    assert_eq!(d.display_name(), "Acme Phone One");
}

#[test]
fn device_display_name_falls_back() {
    let mut d = Device {
        serial: "serial9".to_string(),
        state: "device".to_string(),
        model: Some("SM-X".to_string()),
        brand: Some("Acme".to_string()),
        marketing_name: None,
        android_version: None,
        sdk_version: None,
    };
    assert_eq!(d.display_name(), "SM-X");
    d.model = None;
    assert_eq!(d.display_name(), "serial9");
}

#[test]
fn device_is_built_from_properties() {
    let p = props(&[
        ("ro.product.model", "Pixel 5"),
        ("ro.product.brand", "Google"),
        ("ro.product.marketname", ""),
        ("ro.config.marketing_name", "Pixel Five"),
        ("ro.build.version.release", "13"),
        ("ro.build.version.sdk", "33"),
    ]);
    let d = device_from_properties("abc".to_string(), &p);
    assert_eq!(d.serial, "abc");
    assert_eq!(d.model, Some("Pixel 5".to_string()));
    // The empty first candidate is passed over.
    assert_eq!(d.marketing_name, Some("Pixel Five".to_string()));
    assert_eq!(d.display_name(), "Google Pixel Five");
}

#[test]
fn first_non_empty_skips_blanks() {
    let values = vec![None, Some(String::new()), Some("x".to_string())];
    assert_eq!(DeviceManager::first_non_empty(&values), Some("x".to_string()));
    let empty: Vec<Option<String>> = vec![None, Some(String::new())];
    assert_eq!(DeviceManager::first_non_empty(&empty), None);
}

#[test]
fn bootloader_verdicts() {
    let client = AdbClient::new("adb".to_string());
    let checker = BootloaderChecker::new(DeviceManager::new(client));
    let locked = props(&[
        ("ro.boot.verifiedbootstate", "green"),
        ("ro.boot.flash.locked", "1"),
        ("ro.boot.vbmeta.device_state", "locked"),
    ]);
    assert_eq!(checker.analyze(&locked), "Bootloader 已锁定，系统完整性良好");
    let unlocked = props(&[("ro.boot.verifiedbootstate", "orange")]);
    assert_eq!(checker.analyze(&unlocked), "Bootloader 已解锁，系统可能被修改");
    let emu = props(&[("ro.boot.qemu", "1"), ("ro.debuggable", "1")]);
    assert_eq!(checker.analyze(&emu), "模拟器环境，默认可调试模式（相当于已解锁）");
    let unknown = props(&[]);
    assert_eq!(checker.analyze(&unknown), "无法确定 Bootloader 状态（设备不提供标准属性）");
}

#[test]
fn bootloader_info_rows_follow_the_dump() {
    let client = AdbClient::new("adb".to_string());
    let checker = BootloaderChecker::new(DeviceManager::new(client));
    let p = props(&[("ro.boot.verifiedbootstate", "green"), ("ro.debuggable", "")]);
    let info = checker.extract_info(&p);
    assert_eq!(info.len(), 2);
    assert_eq!(info[0], ("verifiedbootstate".to_string(), "green".to_string()));
    assert_eq!(info[1], ("debuggable".to_string(), "-".to_string()));
}

#[test]
fn root_probe_outcomes() {
    assert!(RootChecker::output_indicates_root(true, "uid=0(root) gid=0"));
    assert!(!RootChecker::output_indicates_root(true, "uid=2000(shell)"));
    assert!(!RootChecker::output_indicates_root(false, "uid=0(root)"));
}

#[test]
fn suspect_packages_are_found() {
    let pkgs = vec![
        "com.topjohnwu.magisk".to_string(),
        "com.example.safe".to_string(),
        "org.lsposed.manager.x".to_string(),
    ];
    let found = RootChecker::find_suspect_packages(&pkgs);
    assert_eq!(found, vec!["com.topjohnwu.magisk".to_string(), "org.lsposed.manager.x".to_string()]);
}

#[test]
fn missing_file_markers_are_recognized() {
    assert!(file_exists_from(true, ""));
    assert!(!file_exists_from(false, "ls: /x: No Such File or directory"));
    assert!(!file_exists_from(false, "/system/bin/su: not found"));
    assert!(file_exists_from(false, "permission denied"));
}

#[test]
fn audit_report_is_assembled() {
    let p = props(&[
        ("ro.product.brand", "Acme"),
        ("ro.build.version.release", "13"),
        ("ro.crypto.state", "encrypted"),
        ("ro.build.tags", "release-keys"),
    ]);
    let pkgs = vec!["com.magisk.clone".to_string(), "com.ok".to_string()];
    let r = AuditRunner::build_report(
        &p,
        &pkgs,
        true,
        " /system/bin/su \n",
        false,
        "",
        "battery dump".to_string(),
        "thermal dump".to_string(),
    );
    assert_eq!(r.device_info.brand, "Acme");
    assert_eq!(r.device_info.model, "");
    assert_eq!(r.root.su_in_path, "/system/bin/su");
    assert_eq!(r.root.suspicious_packages, vec!["com.magisk.clone".to_string()]);
    assert_eq!(r.security_env.selinux, "unknown");
    assert_eq!(r.security_env.crypto_state, "encrypted");
    assert_eq!(r.hardware.battery, "battery dump");
    assert_eq!(r.integrity.build_tags, "release-keys");
}

#[test]
fn service_dump_is_parsed() {
    let client = AdbClient::new("adb".to_string());
    let mon = ServiceMonitor::new(client);
    let dump = "ACTIVITY MANAGER SERVICES\n\
        * ServiceRecord{1a2b u0 com.foo/.Sync}\n\
            intent={act=...}\n\
            app=ProcessRecord{9f8e: 1234 com.foo}\n\
        * ServiceRecord{3c4d u0 com.bar/.Push}\n\
            app=ProcessRecord{7a6b 77:com.bar/u0a}\n\
        * ServiceRecord{5e6f u0 com.baz/.Idle}\n";
    let svcs = mon.parse_services(dump);
    assert_eq!(svcs.len(), 3);
    assert_eq!(svcs[0].name, "com.foo/.Sync");
    assert_eq!(svcs[0].pid, Some(1234));
    assert_eq!(svcs[0].state, ServiceState::Running);
    assert_eq!(svcs[0].user, "system");
    // The second record's id field does not parse as a number.
    assert_eq!(svcs[1].name, "com.bar/.Push");
    assert_eq!(svcs[1].pid, None);
    assert_eq!(svcs[1].state, ServiceState::Unknown);
    // The third record never saw an attachment line.
    assert_eq!(svcs[2].pid, None);
    assert_eq!(svcs[2].state, ServiceState::Unknown);
}

#[test]
fn service_state_names() {
    assert_eq!(ServiceState::Running.as_str(), "Running");
    assert_eq!(ServiceState::Stopped.as_str(), "Stopped");
    assert_eq!(ServiceState::Unknown.as_str(), "Unknown");
}

#[test]
fn service_listing_names_are_stripped() {
    let out = "Found 2 services:\n0\tpower: [android.os.IPowerManager]\n1\tstats: []\n";
    let names = ServiceMonitor::parse_service_list(out);
    // Every line with two fields contributes its second, brackets stripped.
    assert_eq!(names, vec![
        "2".to_string(),
        "power:".to_string(),
        "stats:".to_string(),
    ]);
}

#[test]
fn app_listing_is_parsed() {
    let out = "package:/system/app/Settings.apk=com.android.settings\n\
               package:/data/app/x.apk=com.example.game\n\
               package:broken-no-separator\n";
    let apps = AppManager::parse_app_list(out);
    assert_eq!(apps.len(), 2);
    assert_eq!(apps[0].package_name, "com.android.settings");
    assert!(apps[0].is_system);
    assert_eq!(apps[0].version_name, "Unknown");
    assert!(apps[0].is_enabled);
    assert_eq!(apps[1].package_name, "com.example.game");
    assert!(!apps[1].is_system);
}

#[test]
fn dangerous_permissions_are_classified() {
    assert!(AppManager::is_dangerous_permission("android.permission.CAMERA"));
    assert!(AppManager::is_dangerous_permission("android.permission.READ_SMS"));
    assert!(!AppManager::is_dangerous_permission("android.permission.INTERNET"));
}
