//! Boot and root heuristics: reading the verdict off the device's
//! property dump, and the small decisions the probes rest on. Issuing the
//! probes is I/O and happens outside.

use vstd::prelude::*;
use vstd::string::StringExecFns;
use crate::adb::{prop_views, value_for, AdbClient, DeviceManager};
use crate::text::{contains_ci, contains_seq, str_contains, str_contains_ci, str_eq};

verus! {

/// Judges the bootloader's lock state from the property dump.
pub struct BootloaderChecker {
    pub device_mgr: DeviceManager,
}

/// The analysis verdicts, in the order they are tried.
pub open spec fn analyze_spec(props: Seq<(Seq<char>, Seq<char>)>) -> Seq<char> {
    let vb = value_for(props, "ro.boot.verifiedbootstate"@);
    let locked = value_for(props, "ro.boot.flash.locked"@);
    let state = value_for(props, "ro.boot.vbmeta.device_state"@);
    let verify = value_for(props, "ro.boot.veritymode"@);
    let dbg = value_for(props, "ro.debuggable"@);
    let qemu = value_for(props, "ro.boot.qemu"@);
    if qemu == Some("1"@) {
        if dbg == Some("1"@) {
            "模拟器环境，默认可调试模式（相当于已解锁）"@
        } else {
            "模拟器环境"@
        }
    } else if vb == Some("green"@) && locked == Some("1"@) && state == Some("locked"@) {
        "Bootloader 已锁定，系统完整性良好"@
    } else if vb == Some("orange"@) || locked == Some("0"@) || state == Some("unlocked"@) {
        "Bootloader 已解锁，系统可能被修改"@
    } else if vb == Some("red"@) {
        "系统验证失败，存在严重安全风险"@
    } else if verify == Some("enforcing"@) && dbg == Some("0"@) {
        "Bootloader 可能已锁定（基于 veritymode）"@
    } else if dbg == Some("1"@) {
        "设备处于调试模式，可能已解锁"@
    } else {
        "无法确定 Bootloader 状态（设备不提供标准属性）"@
    }
}

/// Appends an entry when the property is present, showing `-` for an
/// empty value.
pub open spec fn push_info(
    acc: Seq<(Seq<char>, Seq<char>)>,
    props: Seq<(Seq<char>, Seq<char>)>,
    key: Seq<char>,
    label: Seq<char>,
) -> Seq<(Seq<char>, Seq<char>)> {
    match value_for(props, key) {
        None => acc,
        Some(v) => acc.push((label, if v.len() == 0 { "-"@ } else { v })),
    }
}

/// The labelled boot properties a report shows, in fixed order, with
/// absent properties skipped.
pub open spec fn extract_info_spec(props: Seq<(Seq<char>, Seq<char>)>) -> Seq<
    (Seq<char>, Seq<char>),
> {
    let e = Seq::<(Seq<char>, Seq<char>)>::empty();
    let e = push_info(e, props, "ro.boot.verifiedbootstate"@, "verifiedbootstate"@);
    let e = push_info(e, props, "ro.boot.vbmeta.device_state"@, "vbmeta.device_state"@);
    let e = push_info(e, props, "ro.boot.flash.locked"@, "flash.locked"@);
    let e = push_info(e, props, "ro.boot.veritymode"@, "veritymode"@);
    let e = push_info(e, props, "ro.boot.warranty_bit"@, "warranty_bit"@);
    let e = push_info(e, props, "ro.boot.bootloader"@, "bootloader"@);
    let e = push_info(e, props, "ro.debuggable"@, "debuggable"@);
    push_info(e, props, "ro.boot.qemu"@, "qemu"@)
}

/// Whether a looked-up property equals a literal value.
fn opt_eq(v: &Option<String>, lit: &str) -> (r: bool)
    ensures
        r == match v {
            Some(s) => s@ == lit@,
            None => false,
        },
{
    match v {
        Some(s) => str_eq(s.as_str(), lit),
        None => false,
    }
}

impl BootloaderChecker {
    pub fn new(dm: DeviceManager) -> (c: BootloaderChecker)
        ensures
            c.device_mgr == dm,
    {
        BootloaderChecker { device_mgr: dm }
    }

    /// The verdict for a property dump.
    pub fn analyze(&self, props: &Vec<(String, String)>) -> (r: String)
        ensures
            r@ == analyze_spec(prop_views(props@)),
    {
        let vb = DeviceManager::lookup_property(props, "ro.boot.verifiedbootstate");
        let locked = DeviceManager::lookup_property(props, "ro.boot.flash.locked");
        let state = DeviceManager::lookup_property(props, "ro.boot.vbmeta.device_state");
        let verify = DeviceManager::lookup_property(props, "ro.boot.veritymode");
        let dbg = DeviceManager::lookup_property(props, "ro.debuggable");
        let qemu = DeviceManager::lookup_property(props, "ro.boot.qemu");
        if opt_eq(&qemu, "1") {
            if opt_eq(&dbg, "1") {
                String::from_str("模拟器环境，默认可调试模式（相当于已解锁）")
            } else {
                String::from_str("模拟器环境")
            }
        } else if opt_eq(&vb, "green") && opt_eq(&locked, "1") && opt_eq(&state, "locked") {
            String::from_str("Bootloader 已锁定，系统完整性良好")
        } else if opt_eq(&vb, "orange") || opt_eq(&locked, "0") || opt_eq(&state, "unlocked") {
            String::from_str("Bootloader 已解锁，系统可能被修改")
        } else if opt_eq(&vb, "red") {
            String::from_str("系统验证失败，存在严重安全风险")
        } else if opt_eq(&verify, "enforcing") && opt_eq(&dbg, "0") {
            String::from_str("Bootloader 可能已锁定（基于 veritymode）")
        } else if opt_eq(&dbg, "1") {
            String::from_str("设备处于调试模式，可能已解锁")
        } else {
            String::from_str("无法确定 Bootloader 状态（设备不提供标准属性）")
        }
    }

    /// The labelled boot properties present in the dump, in report order.
    pub fn extract_info(&self, props: &Vec<(String, String)>) -> (r: Vec<(String, String)>)
        ensures
            prop_views(r@) == extract_info_spec(prop_views(props@)),
    {
        let mut out: Vec<(String, String)> = Vec::new();
        proof {
            assert(prop_views(out@) =~= Seq::<(Seq<char>, Seq<char>)>::empty());
        }
        push_entry(&mut out, props, "ro.boot.verifiedbootstate", "verifiedbootstate");
        push_entry(&mut out, props, "ro.boot.vbmeta.device_state", "vbmeta.device_state");
        push_entry(&mut out, props, "ro.boot.flash.locked", "flash.locked");
        push_entry(&mut out, props, "ro.boot.veritymode", "veritymode");
        push_entry(&mut out, props, "ro.boot.warranty_bit", "warranty_bit");
        push_entry(&mut out, props, "ro.boot.bootloader", "bootloader");
        push_entry(&mut out, props, "ro.debuggable", "debuggable");
        push_entry(&mut out, props, "ro.boot.qemu", "qemu");
        out
    }
}

/// Appends one labelled property when present.
fn push_entry(out: &mut Vec<(String, String)>, props: &Vec<(String, String)>, key: &str,
    label: &str)
    ensures
        prop_views(final(out)@) == push_info(
            prop_views(old(out)@),
            prop_views(props@),
            key@,
            label@,
        ),
{
    let ghost before = prop_views(out@);
    match DeviceManager::lookup_property(props, key) {
        Some(v) => {
            let shown = if v.as_str().is_empty() {
                String::from_str("-")
            } else {
                v
            };
            out.push((label.to_owned(), shown));
            proof {
                assert(prop_views(out@) =~= push_info(
                    before,
                    prop_views(props@),
                    key@,
                    label@,
                ));
            }
        },
        None => {},
    }
}

/// Detects a rooted environment from packages and probe outcomes.
pub struct RootChecker {
    pub client: AdbClient,
    pub device_mgr: DeviceManager,
}

/// A package name tied to a known root-management tool.
pub open spec fn is_suspect_package(p: Seq<char>) -> bool {
    ||| contains_seq(p, "com.topjohnwu.magisk"@)
    ||| contains_seq(p, "org.lsposed.manager"@)
    ||| contains_seq(p, "eu.chainfire.supersu"@)
    ||| contains_seq(p, "stericson.busybox"@)
    ||| contains_seq(p, "com.koushikdutta.superuser"@)
    ||| contains_seq(p, "com.noshufou.android.su"@)
}

impl RootChecker {
    pub fn new(client: AdbClient) -> (c: RootChecker)
        ensures
            c.client == client,
            c.device_mgr.client == client,
    {
        let dm = DeviceManager::new(client.clone());
        RootChecker { client, device_mgr: dm }
    }

    /// The installed packages that belong to known root tooling.
    pub fn find_suspect_packages(packages: &Vec<String>) -> (r: Vec<String>)
        ensures
            r.deep_view() == packages.deep_view().filter(|p: Seq<char>| is_suspect_package(p)),
    {
        let ghost input = packages.deep_view();
        let mut r: Vec<String> = Vec::new();
        let mut i: usize = 0;
        proof {
            assert(input.take(0) =~= Seq::<Seq<char>>::empty());
            input.take(0).lemma_all_neg_filter_empty(|p: Seq<char>| is_suspect_package(p));
            assert(r.deep_view() =~= input.take(0).filter(
                |p: Seq<char>| is_suspect_package(p),
            ));
        }
        while i < packages.len()
            invariant
                input == packages.deep_view(),
                packages@.len() == input.len(),
                0 <= i <= input.len(),
                r.deep_view() == input.take(i as int).filter(
                    |p: Seq<char>| is_suspect_package(p),
                ),
            decreases input.len() - i,
        {
            proof {
                assert(input[i as int] == packages@[i as int]@);
                assert(input.take(i + 1).drop_last() =~= input.take(i as int));
                assert(input.take(i + 1) =~= input.take(i as int).push(input[i as int]));
                input.take(i as int).lemma_filter_push(
                    input[i as int],
                    |p: Seq<char>| is_suspect_package(p),
                );
            }
            let p = &packages[i];
            let hit = str_contains(p.as_str(), "com.topjohnwu.magisk")
                || str_contains(p.as_str(), "org.lsposed.manager")
                || str_contains(p.as_str(), "eu.chainfire.supersu")
                || str_contains(p.as_str(), "stericson.busybox")
                || str_contains(p.as_str(), "com.koushikdutta.superuser")
                || str_contains(p.as_str(), "com.noshufou.android.su");
            if hit {
                let ghost before = r.deep_view();
                r.push(p.clone());
                proof {
                    assert(r.deep_view() =~= before.push(input[i as int]));
                }
            }
            i = i + 1;
        }
        proof {
            assert(input.take(input.len() as int) =~= input);
        }
        r
    }

    /// Whether one probe's outcome shows root: the command succeeded and
    /// reported the root user id.
    pub fn output_indicates_root(success: bool, output: &str) -> (r: bool)
        ensures
            r == (success && contains_seq(output@, "uid=0"@)),
    {
        success && str_contains(output, "uid=0")
    }
}

/// Whether a listing probe shows the file exists: the probe succeeded, or
/// it failed without saying the file is missing.
pub fn file_exists_from(ok: bool, stderr: &str) -> (r: bool)
    ensures
        r == (ok || !(contains_ci(stderr@, "no such file"@) || contains_ci(
            stderr@,
            "not found"@,
        ))),
{
    if ok {
        true
    } else {
        !(str_contains_ci(stderr, "no such file") || str_contains_ci(stderr, "not found"))
    }
}

} // verus!
