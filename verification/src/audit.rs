//! The security audit: assembling the report out of the property dump,
//! the package list and the probe outcomes. Running the probes and saving
//! the report are I/O and happen outside.

use vstd::prelude::*;
use vstd::string::StringExecFns;
use crate::adb::{prop_views, value_for, AdbClient, DeviceManager};
use crate::text::{contains_seq, str_contains, trim_str, trimmed};

verus! {

/// Everything one audit pass gathers.
#[derive(Debug)]
pub struct AuditReport {
    pub device_info: DeviceInfo,
    pub root: RootInfo,
    pub boot: BootInfo,
    pub security_env: SecurityEnv,
    pub hardware: HardwareInfo,
    pub integrity: IntegrityInfo,
}

#[derive(Debug)]
pub struct DeviceInfo {
    pub brand: String,
    pub marketing_name: String,
    pub model: String,
    pub android: String,
    pub sdk: String,
}

#[derive(Debug)]
pub struct RootInfo {
    pub su_in_path: String,
    pub suspicious_packages: Vec<String>,
}

#[derive(Debug)]
pub struct BootInfo {
    pub verifiedbootstate: String,
    pub vbmeta_device_state: String,
    pub flash_locked: String,
    pub veritymode: String,
}

#[derive(Debug)]
pub struct SecurityEnv {
    pub selinux: String,
    pub crypto_state: String,
    pub crypto_type: String,
    pub debuggable: String,
    pub secure: String,
}

#[derive(Debug)]
pub struct HardwareInfo {
    pub battery: String,
    pub thermal: String,
}

#[derive(Debug)]
pub struct IntegrityInfo {
    pub security_patch: String,
    pub build_tags: String,
    pub build_type: String,
}

/// Runs the audit over the command channel.
pub struct AuditRunner {
    pub client: AdbClient,
    pub device_mgr: DeviceManager,
}

/// A property's value, an absent property reading as empty.
pub open spec fn prop_or_empty(props: Seq<(Seq<char>, Seq<char>)>, key: Seq<char>) -> Seq<char> {
    match value_for(props, key) {
        Some(v) => v,
        None => Seq::empty(),
    }
}

/// A package name tied to root or hooking tooling.
pub open spec fn is_audit_suspect(p: Seq<char>) -> bool {
    ||| contains_seq(p, "magisk"@)
    ||| contains_seq(p, "lsposed"@)
    ||| contains_seq(p, "supersu"@)
    ||| contains_seq(p, "busybox"@)
}

/// Reads a property, an absent one reading as empty.
fn read_prop(props: &Vec<(String, String)>, key: &str) -> (r: String)
    ensures
        r@ == prop_or_empty(prop_views(props@), key@),
{
    match DeviceManager::lookup_property(props, key) {
        Some(v) => v,
        None => String::new(),
    }
}

impl AuditRunner {
    pub fn new(c: AdbClient) -> (r: AuditRunner)
        ensures
            r.client == c,
            r.device_mgr.client == c,
    {
        let dm = DeviceManager::new(c.clone());
        AuditRunner { client: c, device_mgr: dm }
    }

    /// The installed packages tied to root or hooking tooling.
    pub fn suspicious_packages(packages: &Vec<String>) -> (r: Vec<String>)
        ensures
            r.deep_view() == packages.deep_view().filter(|p: Seq<char>| is_audit_suspect(p)),
    {
        let ghost input = packages.deep_view();
        let mut r: Vec<String> = Vec::new();
        let mut i: usize = 0;
        proof {
            assert(input.take(0) =~= Seq::<Seq<char>>::empty());
            input.take(0).lemma_all_neg_filter_empty(|p: Seq<char>| is_audit_suspect(p));
            assert(r.deep_view() =~= input.take(0).filter(|p: Seq<char>| is_audit_suspect(p)));
        }
        while i < packages.len()
            invariant
                input == packages.deep_view(),
                packages@.len() == input.len(),
                0 <= i <= input.len(),
                r.deep_view() == input.take(i as int).filter(
                    |p: Seq<char>| is_audit_suspect(p),
                ),
            decreases input.len() - i,
        {
            proof {
                assert(input[i as int] == packages@[i as int]@);
                assert(input.take(i + 1) =~= input.take(i as int).push(input[i as int]));
                input.take(i as int).lemma_filter_push(
                    input[i as int],
                    |p: Seq<char>| is_audit_suspect(p),
                );
            }
            let p = &packages[i];
            let hit = str_contains(p.as_str(), "magisk") || str_contains(p.as_str(), "lsposed")
                || str_contains(p.as_str(), "supersu") || str_contains(p.as_str(), "busybox");
            if hit {
                let ghost before = r.deep_view();
                r.push(p.clone());
                proof {
                    assert(r.deep_view() =~= before.push(input[i as int]));
                }
            }
            i = i + 1;
        }
        proof {
            assert(input.take(input.len() as int) =~= input);
        }
        r
    }

    /// Assembles the report out of the property dump, the package list
    /// and the probe outcomes, each field pinned to its source.
    pub fn build_report(
        props: &Vec<(String, String)>,
        packages: &Vec<String>,
        su_ok: bool,
        su_out: &str,
        selinux_ok: bool,
        selinux_out: &str,
        battery: String,
        thermal: String,
    ) -> (r: AuditReport)
        ensures
            r.device_info.brand@ == prop_or_empty(prop_views(props@), "ro.product.brand"@),
            r.device_info.marketing_name@ == prop_or_empty(
                prop_views(props@),
                "ro.product.marketname"@,
            ),
            r.device_info.model@ == prop_or_empty(prop_views(props@), "ro.product.model"@),
            r.device_info.android@ == prop_or_empty(
                prop_views(props@),
                "ro.build.version.release"@,
            ),
            r.device_info.sdk@ == prop_or_empty(prop_views(props@), "ro.build.version.sdk"@),
            r.root.su_in_path@ == (if su_ok {
                trimmed(su_out@)
            } else {
                Seq::<char>::empty()
            }),
            r.root.suspicious_packages.deep_view() == packages.deep_view().filter(
                |p: Seq<char>| is_audit_suspect(p),
            ),
            r.boot.verifiedbootstate@ == prop_or_empty(
                prop_views(props@),
                "ro.boot.verifiedbootstate"@,
            ),
            r.boot.vbmeta_device_state@ == prop_or_empty(
                prop_views(props@),
                "ro.boot.vbmeta.device_state"@,
            ),
            r.boot.flash_locked@ == prop_or_empty(prop_views(props@), "ro.boot.flash.locked"@),
            r.boot.veritymode@ == prop_or_empty(prop_views(props@), "ro.boot.veritymode"@),
            r.security_env.selinux@ == (if selinux_ok {
                trimmed(selinux_out@)
            } else {
                "unknown"@
            }),
            r.security_env.crypto_state@ == prop_or_empty(
                prop_views(props@),
                "ro.crypto.state"@,
            ),
            r.security_env.crypto_type@ == prop_or_empty(prop_views(props@), "ro.crypto.type"@),
            r.security_env.debuggable@ == prop_or_empty(prop_views(props@), "ro.debuggable"@),
            r.security_env.secure@ == prop_or_empty(prop_views(props@), "ro.secure"@),
            r.hardware.battery == battery,
            r.hardware.thermal == thermal,
            r.integrity.security_patch@ == prop_or_empty(
                prop_views(props@),
                "ro.build.version.security_patch"@,
            ),
            r.integrity.build_tags@ == prop_or_empty(prop_views(props@), "ro.build.tags"@),
            r.integrity.build_type@ == prop_or_empty(prop_views(props@), "ro.build.type"@),
    {
        let su_in_path = if su_ok {
            trim_str(su_out)
        } else {
            String::new()
        };
        let selinux = if selinux_ok {
            trim_str(selinux_out)
        } else {
            String::from_str("unknown")
        };
        AuditReport {
            device_info: DeviceInfo {
                brand: read_prop(props, "ro.product.brand"),
                marketing_name: read_prop(props, "ro.product.marketname"),
                model: read_prop(props, "ro.product.model"),
                android: read_prop(props, "ro.build.version.release"),
                sdk: read_prop(props, "ro.build.version.sdk"),
            },
            root: RootInfo {
                su_in_path,
                suspicious_packages: Self::suspicious_packages(packages),
            },
            boot: BootInfo {
                verifiedbootstate: read_prop(props, "ro.boot.verifiedbootstate"),
                vbmeta_device_state: read_prop(props, "ro.boot.vbmeta.device_state"),
                flash_locked: read_prop(props, "ro.boot.flash.locked"),
                veritymode: read_prop(props, "ro.boot.veritymode"),
            },
            security_env: SecurityEnv {
                selinux,
                crypto_state: read_prop(props, "ro.crypto.state"),
                crypto_type: read_prop(props, "ro.crypto.type"),
                debuggable: read_prop(props, "ro.debuggable"),
                secure: read_prop(props, "ro.secure"),
            },
            hardware: HardwareInfo { battery, thermal },
            integrity: IntegrityInfo {
                security_patch: read_prop(props, "ro.build.version.security_patch"),
                build_tags: read_prop(props, "ro.build.tags"),
                build_type: read_prop(props, "ro.build.type"),
            },
        }
    }
}

} // verus!
