//! The monitor's supporting readers: process details, the installed-app
//! listing, and the permission classification. The queries are I/O and
//! happen outside; parsing and classification are here.

use vstd::prelude::*;
use vstd::string::StringExecFns;
use crate::adb::AdbClient;
use crate::text::{contains_seq, dec_str_of, find_char, first_char_at, lines_of, split_lines,
    starts_with, str_contains, str_starts_with, u64_to_string};

verus! {

/// Owns the process-level readers.
pub struct MonitorRunner {
    pub client: AdbClient,
}

impl MonitorRunner {
    pub fn new(client: AdbClient) -> (r: MonitorRunner)
        ensures
            r.client == client,
    {
        MonitorRunner { client }
    }
}

/// Queries the remote process table.
pub struct ProcessMonitor {
    pub client: AdbClient,
}

impl ProcessMonitor {
    pub fn new(client: AdbClient) -> (r: ProcessMonitor)
        ensures
            r.client == client,
    {
        ProcessMonitor { client }
    }
}

/// The raw detail captures for one process.
#[derive(Debug)]
pub struct ProcessDetails {
    pub pid: u32,
    pub stat: String,
    pub status: String,
    pub cmdline: String,
    pub io_stats: String,
}

impl ProcessDetails {
    /// The detail page shown for the process.
    pub fn format_display(&self) -> (r: String)
        ensures
            r@ == "Process Details (PID: "@ + dec_str_of(self.pid as nat)
                + ")\n======================================\nStatus:\n"@ + self.status@,
    {
        let mut s = String::from_str("Process Details (PID: ");
        let pid_str = u64_to_string(self.pid as u64);
        s.append(pid_str.as_str());
        s.append(")\n======================================\nStatus:\n");
        s.append(self.status.as_str());
        s
    }
}

/// One installed application.
#[derive(Debug)]
pub struct AppInfo {
    pub package_name: String,
    pub app_name: String,
    pub version_name: String,
    pub is_system: bool,
    pub is_enabled: bool,
}

/// The mathematical content of an application entry.
pub struct AppModel {
    pub package_name: Seq<char>,
    pub app_name: Seq<char>,
    pub version_name: Seq<char>,
    pub is_system: bool,
    pub is_enabled: bool,
}

/// One permission of an application.
#[derive(Debug)]
pub struct AppPermission {
    pub name: String,
    pub granted: bool,
    pub dangerous: bool,
}

/// One signing certificate of an application.
#[derive(Debug)]
pub struct AppSignature {
    pub algorithm: String,
    pub fingerprint: String,
    pub valid_from: String,
    pub valid_to: String,
}

/// Storage figures for one application, in bytes.
#[derive(Clone, Copy, Debug, PartialEq, Eq, Structural)]
pub struct AppStorageInfo {
    pub code_size: u64,
    pub data_size: u64,
    pub cache_size: u64,
    pub total_size: u64,
}

/// Queries and manages installed applications.
pub struct AppManager {
    pub client: AdbClient,
}

/// The application listing entries as character sequences.
pub open spec fn app_views(v: Seq<AppInfo>) -> Seq<AppModel> {
    Seq::new(
        v.len(),
        |i: int| AppModel {
            package_name: v[i].package_name@,
            app_name: v[i].app_name@,
            version_name: v[i].version_name@,
            is_system: v[i].is_system,
            is_enabled: v[i].is_enabled,
        },
    )
}

/// The application a listing line names: after the `package:` prefix, an
/// apk path and a package name separated by a single `=`; the entry is
/// a system one when the path lies under the system partition.
pub open spec fn app_of_line(l: Seq<char>) -> Option<AppModel> {
    if !starts_with(l, "package:"@) {
        None
    } else {
        let rest = l.skip("package:"@.len() as int);
        let d = first_char_at(rest, '=');
        if d == rest.len() {
            None
        } else if first_char_at(rest.skip(d + 1), '=') != rest.len() - d - 1 {
            None
        } else {
            Some(
                AppModel {
                    package_name: rest.skip(d + 1),
                    app_name: rest.skip(d + 1),
                    version_name: "Unknown"@,
                    is_system: starts_with(rest.take(d), "/system/"@),
                    is_enabled: true,
                },
            )
        }
    }
}

/// The applications of a sequence of listing lines, in order.
pub open spec fn apps_from(ls: Seq<Seq<char>>) -> Seq<AppModel>
    decreases ls.len(),
{
    if ls.len() == 0 {
        Seq::empty()
    } else {
        match app_of_line(ls.last()) {
            Some(a) => apps_from(ls.drop_last()).push(a),
            None => apps_from(ls.drop_last()),
        }
    }
}

/// A permission name that guards sensitive data or hardware.
pub open spec fn is_dangerous_permission_spec(p: Seq<char>) -> bool {
    ||| contains_seq(p, "READ_CONTACTS"@)
    ||| contains_seq(p, "WRITE_CONTACTS"@)
    ||| contains_seq(p, "READ_CALENDAR"@)
    ||| contains_seq(p, "WRITE_CALENDAR"@)
    ||| contains_seq(p, "SEND_SMS"@)
    ||| contains_seq(p, "RECEIVE_SMS"@)
    ||| contains_seq(p, "READ_SMS"@)
    ||| contains_seq(p, "CAMERA"@)
    ||| contains_seq(p, "RECORD_AUDIO"@)
    ||| contains_seq(p, "ACCESS_FINE_LOCATION"@)
    ||| contains_seq(p, "ACCESS_COARSE_LOCATION"@)
    ||| contains_seq(p, "READ_PHONE_STATE"@)
    ||| contains_seq(p, "CALL_PHONE"@)
    ||| contains_seq(p, "READ_CALL_LOG"@)
    ||| contains_seq(p, "WRITE_CALL_LOG"@)
    ||| contains_seq(p, "READ_EXTERNAL_STORAGE"@)
    ||| contains_seq(p, "WRITE_EXTERNAL_STORAGE"@)
}

impl AppManager {
    pub fn new(client: AdbClient) -> (r: AppManager)
        ensures
            r.client == client,
    {
        AppManager { client }
    }

    /// Whether a permission name is one of the sensitive ones.
    pub fn is_dangerous_permission(perm: &str) -> (r: bool)
        ensures
            r == is_dangerous_permission_spec(perm@),
    {
        str_contains(perm, "READ_CONTACTS") || str_contains(perm, "WRITE_CONTACTS")
            || str_contains(perm, "READ_CALENDAR") || str_contains(perm, "WRITE_CALENDAR")
            || str_contains(perm, "SEND_SMS") || str_contains(perm, "RECEIVE_SMS")
            || str_contains(perm, "READ_SMS") || str_contains(perm, "CAMERA")
            || str_contains(perm, "RECORD_AUDIO") || str_contains(perm, "ACCESS_FINE_LOCATION")
            || str_contains(perm, "ACCESS_COARSE_LOCATION")
            || str_contains(perm, "READ_PHONE_STATE") || str_contains(perm, "CALL_PHONE")
            || str_contains(perm, "READ_CALL_LOG") || str_contains(perm, "WRITE_CALL_LOG")
            || str_contains(perm, "READ_EXTERNAL_STORAGE")
            || str_contains(perm, "WRITE_EXTERNAL_STORAGE")
    }

    /// Reads the installed applications out of the package listing.
    pub fn parse_app_list(output: &str) -> (r: Vec<AppInfo>)
        ensures
            app_views(r@) == apps_from(lines_of(output@)),
    {
        let lines = split_lines(output);
        let ghost ls = lines.deep_view();
        let mut apps: Vec<AppInfo> = Vec::new();
        let mut i: usize = 0;
        proof {
            assert(ls.take(0) =~= Seq::<Seq<char>>::empty());
            assert(app_views(apps@) =~= apps_from(ls.take(0)));
        }
        while i < lines.len()
            invariant
                ls == lines.deep_view(),
                lines@.len() == ls.len(),
                0 <= i <= ls.len(),
                app_views(apps@) == apps_from(ls.take(i as int)),
            decreases ls.len() - i,
        {
            proof {
                assert(ls[i as int] == lines@[i as int]@);
                assert(ls.take(i + 1).last() == ls[i as int]);
                assert(ls.take(i + 1).drop_last() =~= ls.take(i as int));
            }
            let l = &lines[i];
            if str_starts_with(l.as_str(), "package:") {
                proof {
                    reveal_strlit("package:");
                }
                let n = l.as_str().unicode_len();
                let rest = l.as_str().substring_char(8, n);
                proof {
                    assert(rest@ =~= ls[i as int].skip("package:"@.len() as int));
                }
                let rn = rest.unicode_len();
                let d = find_char(rest, '=');
                if d < rn {
                    let after = rest.substring_char(d + 1, rn);
                    proof {
                        assert(after@ =~= rest@.skip(d + 1));
                    }
                    let d2 = find_char(after, '=');
                    if d2 == rn - d - 1 {
                        let apk = rest.substring_char(0, d);
                        proof {
                            assert(apk@ =~= rest@.take(d as int));
                        }
                        let is_system = str_starts_with(apk, "/system/");
                        let package_name = after.to_owned();
                        let app_name = after.to_owned();
                        let ghost before = app_views(apps@);
                        apps.push(
                            AppInfo {
                                package_name,
                                app_name,
                                version_name: String::from_str("Unknown"),
                                is_system,
                                is_enabled: true,
                            },
                        );
                        proof {
                            assert(app_views(apps@) =~= before.push(
                                app_of_line(ls[i as int])->Some_0,
                            ));
                        }
                    }
                }
            }
            i = i + 1;
        }
        proof {
            assert(ls.take(ls.len() as int) =~= ls);
        }
        apps
    }
}


/// The one-way termination request for a process: the plain or forced
/// kill, addressed by decimal process id. Issuing it is fire-and-forget
/// and happens outside.
pub fn kill_command_args(pid: u64, force: bool) -> (r: Vec<String>)
    ensures
        force ==> r.deep_view() == seq!["kill"@, "-9"@, dec_str_of(pid as nat)],
        !force ==> r.deep_view() == seq!["kill"@, dec_str_of(pid as nat)],
{
    let mut r: Vec<String> = Vec::new();
    r.push(String::from_str("kill"));
    if force {
        r.push(String::from_str("-9"));
    }
    r.push(u64_to_string(pid));
    proof {
        if force {
            assert(r.deep_view() =~= seq!["kill"@, "-9"@, dec_str_of(pid as nat)]);
        } else {
            assert(r.deep_view() =~= seq!["kill"@, dec_str_of(pid as nat)]);
        }
    }
    r
}

} // verus!
