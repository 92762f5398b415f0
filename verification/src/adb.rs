//! The command channel's data side: the client configuration, devices and
//! their properties, and the parsers for the device list, the property
//! dump and the package list. Issuing commands is the caller's business;
//! everything here works on the text that came back.

use vstd::prelude::*;
use vstd::string::StringExecFns;
use crate::text::{
    after_last_char, find_last_char, find_str, first_match, lemma_first_match_found, lines_of,
    split_lines, starts_with, str_eq, str_starts_with, tokenize, tokens_of, trim_str, trimmed,
};

verus! {

/// Where the bridge binary lives. Resolving the path is I/O and happens
/// outside; the client only carries the result.
pub struct AdbClient {
    pub adb_path: String,
}

impl AdbClient {
    pub fn new(adb_path: String) -> (c: AdbClient)
        ensures
            c.adb_path == adb_path,
    {
        AdbClient { adb_path }
    }
}

impl Clone for AdbClient {
    fn clone(&self) -> (r: Self)
        ensures
            r == *self,
    {
        AdbClient { adb_path: self.adb_path.clone() }
    }
}

/// One connected device and what its property dump said about it.
#[derive(Debug)]
pub struct Device {
    pub serial: String,
    pub state: String,
    pub model: Option<String>,
    pub brand: Option<String>,
    pub marketing_name: Option<String>,
    pub android_version: Option<String>,
    pub sdk_version: Option<String>,
}

/// The name shown for a device: brand and marketing name when both are
/// known, else the model, else the serial.
pub open spec fn display_name_spec(d: &Device) -> Seq<char> {
    match (d.brand, d.marketing_name) {
        (Some(b), Some(n)) => trimmed(b@ + seq![' '] + n@),
        _ => match d.model {
            Some(m) => m@,
            None => d.serial@,
        },
    }
}

impl Device {
    /// The human name of the device.
    pub fn display_name(&self) -> (r: String)
        ensures
            r@ == display_name_spec(self),
    {
        match (&self.brand, &self.marketing_name) {
            (Some(b), Some(n)) => {
                let mut s = b.clone();
                proof {
                    reveal_strlit(" ");
                    assert(" "@ =~= seq![' ']);
                }
                s.append(" ");
                s.append(n.as_str());
                trim_str(s.as_str())
            },
            _ => {
                match &self.model {
                    Some(m) => m.clone(),
                    None => self.serial.clone(),
                }
            },
        }
    }
}

/// Issues device queries; here, the pure side: parsing what they return.
pub struct DeviceManager {
    pub client: AdbClient,
}

/// The property pairs as character sequences, in order.
pub open spec fn prop_views(v: Seq<(String, String)>) -> Seq<(Seq<char>, Seq<char>)> {
    Seq::new(v.len(), |i: int| (v[i].0@, v[i].1@))
}

/// The first option holding a non-empty string.
pub open spec fn first_non_empty_spec(vs: Seq<Option<String>>) -> Option<Seq<char>>
    decreases vs.len(),
{
    if vs.len() == 0 {
        None
    } else {
        match vs[0] {
            Some(s) => if s@.len() > 0 {
                Some(s@)
            } else {
                first_non_empty_spec(vs.drop_first())
            },
            None => first_non_empty_spec(vs.drop_first()),
        }
    }
}

/// A row of the device list that names a usable device: non-empty after
/// trimming, no leading asterisk, at least serial and state, and the
/// state reads `device`.
pub open spec fn is_device_row(l: Seq<char>) -> bool {
    &&& trimmed(l).len() > 0
    &&& trimmed(l)[0] != '*'
    &&& tokens_of(l).len() >= 2
    &&& tokens_of(l)[1] == "device"@
}

/// The serials named by a sequence of device rows.
pub open spec fn serials_from(ls: Seq<Seq<char>>) -> Seq<Seq<char>>
    decreases ls.len(),
{
    if ls.len() == 0 {
        Seq::empty()
    } else if is_device_row(ls.last()) {
        serials_from(ls.drop_last()).push(tokens_of(ls.last())[0])
    } else {
        serials_from(ls.drop_last())
    }
}

/// What parsing the whole device list yields: the serials of the usable
/// devices named after the header line.
pub open spec fn device_serials_spec(text: Seq<char>) -> Seq<Seq<char>> {
    let ls = lines_of(text);
    if ls.len() <= 1 {
        Seq::empty()
    } else {
        serials_from(ls.skip(1))
    }
}

/// The property a dump line carries: a trimmed `[key]: [value]` line,
/// anything else carrying nothing.
pub open spec fn prop_of_line(l: Seq<char>) -> Option<(Seq<char>, Seq<char>)> {
    let t = trimmed(l);
    if t.len() == 0 || t[0] != '[' {
        None
    } else {
        let idx = first_match(t, "]: ["@);
        if idx < 0 {
            None
        } else {
            let rest = t.skip(idx + 4);
            let e = after_last_char(rest, ']');
            if e == 0 {
                None
            } else {
                Some((t.subrange(1, idx), rest.take(e - 1)))
            }
        }
    }
}

/// The properties of a sequence of dump lines, in order; later pairs
/// override earlier ones on lookup.
pub open spec fn props_from(ls: Seq<Seq<char>>) -> Seq<(Seq<char>, Seq<char>)>
    decreases ls.len(),
{
    if ls.len() == 0 {
        Seq::empty()
    } else {
        match prop_of_line(ls.last()) {
            Some(p) => props_from(ls.drop_last()).push(p),
            None => props_from(ls.drop_last()),
        }
    }
}

/// The value of the last pair with the given key, if any: the overriding
/// entry wins, as it would in a keyed table filled front to back.
pub open spec fn value_for(entries: Seq<(Seq<char>, Seq<char>)>, key: Seq<char>) -> Option<
    Seq<char>,
>
    decreases entries.len(),
{
    if entries.len() == 0 {
        None
    } else if entries.last().0 == key {
        Some(entries.last().1)
    } else {
        value_for(entries.drop_last(), key)
    }
}

/// The package a listing line names: whatever follows a `package:`
/// prefix, trimmed.
pub open spec fn package_of_line(l: Seq<char>) -> Option<Seq<char>> {
    let t = trimmed(l);
    if starts_with(t, "package:"@) {
        Some(trimmed(t.skip("package:"@.len() as int)))
    } else {
        None
    }
}

/// The packages of a sequence of listing lines, in order.
pub open spec fn packages_from(ls: Seq<Seq<char>>) -> Seq<Seq<char>>
    decreases ls.len(),
{
    if ls.len() == 0 {
        Seq::empty()
    } else {
        match package_of_line(ls.last()) {
            Some(p) => packages_from(ls.drop_last()).push(p),
            None => packages_from(ls.drop_last()),
        }
    }
}

impl DeviceManager {
    pub fn new(client: AdbClient) -> (m: DeviceManager)
        ensures
            m.client == client,
    {
        DeviceManager { client }
    }

    /// The first option holding a non-empty string, cloned.
    pub fn first_non_empty(values: &[Option<String>]) -> (r: Option<String>)
        ensures
            match r {
                Some(s) => first_non_empty_spec(values@) == Some(s@),
                None => first_non_empty_spec(values@) is None,
            },
    {
        let ghost vs = values@;
        let mut i: usize = 0;
        proof {
            assert(vs.skip(0) =~= vs);
        }
        while i < values.len()
            invariant
                vs == values@,
                0 <= i <= vs.len(),
                first_non_empty_spec(vs) == first_non_empty_spec(vs.skip(i as int)),
            decreases vs.len() - i,
        {
            proof {
                assert(vs.skip(i as int)[0] == vs[i as int]);
                assert(vs.skip(i as int).drop_first() =~= vs.skip(i + 1));
            }
            match &values[i] {
                Some(s) => {
                    if !s.as_str().is_empty() {
                        return Some(s.clone());
                    }
                },
                None => {},
            }
            i = i + 1;
        }
        proof {
            assert(vs.skip(vs.len() as int) =~= Seq::<Option<String>>::empty());
        }
        None
    }

    /// Reads the usable devices' serials out of the device list.
    pub fn parse_device_serials(output: &str) -> (r: Vec<String>)
        ensures
            r.deep_view() == device_serials_spec(output@),
    {
        let lines = split_lines(output);
        let ghost ls = lines.deep_view();
        let mut serials: Vec<String> = Vec::new();
        if lines.len() <= 1 {
            proof {
                assert(serials.deep_view() =~= device_serials_spec(output@));
            }
            return serials;
        }
        let mut i: usize = 1;
        proof {
            assert(ls.subrange(1, 1) =~= Seq::<Seq<char>>::empty());
            assert(serials.deep_view() =~= serials_from(ls.subrange(1, 1)));
        }
        while i < lines.len()
            invariant
                ls == lines.deep_view(),
                lines@.len() == ls.len(),
                1 <= i <= ls.len(),
                serials.deep_view() == serials_from(ls.subrange(1, i as int)),
            decreases ls.len() - i,
        {
            proof {
                assert(ls[i as int] == lines@[i as int]@);
                assert(ls.subrange(1, i + 1).last() == ls[i as int]);
                assert(ls.subrange(1, i + 1).drop_last() =~= ls.subrange(1, i as int));
            }
            let l = &lines[i];
            let t = trim_str(l.as_str());
            let mut keep = false;
            if !t.as_str().is_empty() {
                if t.as_str().get_char(0) != '*' {
                    keep = true;
                }
            }
            if keep {
                let toks = tokenize(l.as_str());
                if toks.len() >= 2 {
                    proof {
                        assert(toks.deep_view()[0] == toks@[0]@);
                        assert(toks.deep_view()[1] == toks@[1]@);
                    }
                    if str_eq(toks[1].as_str(), "device") {
                        let ghost before = serials.deep_view();
                        let serial = toks[0].clone();
                        serials.push(serial);
                        proof {
                            assert(serials.deep_view() =~= before.push(
                                tokens_of(ls[i as int])[0],
                            ));
                        }
                    }
                }
            }
            i = i + 1;
        }
        proof {
            assert(ls.subrange(1, ls.len() as int) =~= ls.skip(1));
        }
        serials
    }

    /// Reads the `[key]: [value]` pairs out of a property dump.
    pub fn parse_properties(output: &str) -> (r: Vec<(String, String)>)
        ensures
            prop_views(r@) == props_from(lines_of(output@)),
    {
        let lines = split_lines(output);
        let ghost ls = lines.deep_view();
        let mut props: Vec<(String, String)> = Vec::new();
        let mut i: usize = 0;
        proof {
            assert(ls.take(0) =~= Seq::<Seq<char>>::empty());
            assert(prop_views(props@) =~= props_from(ls.take(0)));
        }
        while i < lines.len()
            invariant
                ls == lines.deep_view(),
                lines@.len() == ls.len(),
                0 <= i <= ls.len(),
                prop_views(props@) == props_from(ls.take(i as int)),
            decreases ls.len() - i,
        {
            proof {
                assert(ls[i as int] == lines@[i as int]@);
                assert(ls.take(i + 1).last() == ls[i as int]);
                assert(ls.take(i + 1).drop_last() =~= ls.take(i as int));
            }
            let t = trim_str(lines[i].as_str());
            let n = t.as_str().unicode_len();
            if n > 0 && t.as_str().get_char(0) == '[' {
                match find_str(t.as_str(), "]: [") {
                    Some(idx) => {
                        proof {
                            reveal_strlit("]: [");
                            lemma_first_match_found(t@, "]: ["@);
                            assert(idx + 4 <= n);
                            assert(idx >= 1) by {
                                if idx == 0 {
                                    assert(t@.subrange(0, 0 + "]: ["@.len() as int) == "]: ["@);
                                    assert(t@.subrange(0, 0 + "]: ["@.len() as int)[0] == t@[0]);
                                    assert(("]: ["@)[0] == ']');
                                }
                            }
                        }
                        let rest = t.as_str().substring_char(idx + 4, n);
                        let e = find_last_char(rest, ']');
                        if e > 0 {
                            let key = t.as_str().substring_char(1, idx).to_owned();
                            let value = rest.substring_char(0, e - 1).to_owned();
                            let ghost before = prop_views(props@);
                            proof {
                                assert(rest@ =~= trimmed(ls[i as int]).skip(idx + 4));
                                assert(key@ =~= trimmed(ls[i as int]).subrange(1, idx as int));
                                assert(value@ =~= rest@.take(e - 1));
                            }
                            props.push((key, value));
                            proof {
                                assert(prop_views(props@) =~= before.push(
                                    prop_of_line(ls[i as int])->Some_0,
                                ));
                            }
                        }
                    },
                    None => {},
                }
            }
            i = i + 1;
        }
        proof {
            assert(ls.take(ls.len() as int) =~= ls);
        }
        props
    }

    /// The stored value of a property, the last write winning.
    pub fn lookup_property(props: &Vec<(String, String)>, key: &str) -> (r: Option<String>)
        ensures
            match r {
                Some(s) => value_for(prop_views(props@), key@) == Some(s@),
                None => value_for(prop_views(props@), key@) is None,
            },
    {
        let ghost entries = prop_views(props@);
        let mut i: usize = props.len();
        proof {
            assert(entries.take(entries.len() as int) =~= entries);
        }
        while i > 0
            invariant
                entries == prop_views(props@),
                props@.len() == entries.len(),
                0 <= i <= entries.len(),
                value_for(entries, key@) == value_for(entries.take(i as int), key@),
            decreases i,
        {
            proof {
                assert(entries.take(i as int).last() == entries[i - 1]);
                assert(entries.take(i as int).drop_last() =~= entries.take(i - 1));
            }
            if str_eq(props[i - 1].0.as_str(), key) {
                return Some(props[i - 1].1.clone());
            }
            i = i - 1;
        }
        proof {
            assert(entries.take(0) =~= Seq::<(Seq<char>, Seq<char>)>::empty());
        }
        None
    }

    /// Reads the package names out of a package listing.
    pub fn parse_package_list(output: &str) -> (r: Vec<String>)
        ensures
            r.deep_view() == packages_from(lines_of(output@)),
    {
        let lines = split_lines(output);
        let ghost ls = lines.deep_view();
        let mut pkgs: Vec<String> = Vec::new();
        let mut i: usize = 0;
        proof {
            assert(ls.take(0) =~= Seq::<Seq<char>>::empty());
            assert(pkgs.deep_view() =~= packages_from(ls.take(0)));
        }
        while i < lines.len()
            invariant
                ls == lines.deep_view(),
                lines@.len() == ls.len(),
                0 <= i <= ls.len(),
                pkgs.deep_view() == packages_from(ls.take(i as int)),
            decreases ls.len() - i,
        {
            proof {
                assert(ls[i as int] == lines@[i as int]@);
                assert(ls.take(i + 1).last() == ls[i as int]);
                assert(ls.take(i + 1).drop_last() =~= ls.take(i as int));
            }
            let t = trim_str(lines[i].as_str());
            if str_starts_with(t.as_str(), "package:") {
                proof {
                    reveal_strlit("package:");
                }
                let n = t.as_str().unicode_len();
                let rest = t.as_str().substring_char(8, n);
                proof {
                    assert(rest@ =~= trimmed(ls[i as int]).skip("package:"@.len() as int));
                }
                let pkg = trim_str(rest);
                let ghost before = pkgs.deep_view();
                pkgs.push(pkg);
                proof {
                    assert(pkgs.deep_view() =~= before.push(
                        package_of_line(ls[i as int])->Some_0,
                    ));
                }
            }
            i = i + 1;
        }
        proof {
            assert(ls.take(ls.len() as int) =~= ls);
        }
        pkgs
    }
}

/// Builds the device record for a serial out of its property dump.
pub fn device_from_properties(serial: String, props: &Vec<(String, String)>) -> (d: Device)
    ensures
        d.serial == serial,
        d.state@ == "device"@,
        match d.model {
            Some(s) => value_for(prop_views(props@), "ro.product.model"@) == Some(s@),
            None => value_for(prop_views(props@), "ro.product.model"@) is None,
        },
        match d.brand {
            Some(s) => value_for(prop_views(props@), "ro.product.brand"@) == Some(s@),
            None => value_for(prop_views(props@), "ro.product.brand"@) is None,
        },
        match d.android_version {
            Some(s) => value_for(prop_views(props@), "ro.build.version.release"@) == Some(s@),
            None => value_for(prop_views(props@), "ro.build.version.release"@) is None,
        },
        match d.sdk_version {
            Some(s) => value_for(prop_views(props@), "ro.build.version.sdk"@) == Some(s@),
            None => value_for(prop_views(props@), "ro.build.version.sdk"@) is None,
        },
{
    let model = DeviceManager::lookup_property(props, "ro.product.model");
    let brand = DeviceManager::lookup_property(props, "ro.product.brand");
    let mut candidates: Vec<Option<String>> = Vec::new();
    candidates.push(DeviceManager::lookup_property(props, "ro.product.marketname"));
    candidates.push(DeviceManager::lookup_property(props, "ro.config.marketing_name"));
    candidates.push(DeviceManager::lookup_property(props, "ro.product.vendor.model"));
    let marketing_name = DeviceManager::first_non_empty(candidates.as_slice());
    let android_version = DeviceManager::lookup_property(props, "ro.build.version.release");
    let sdk_version = DeviceManager::lookup_property(props, "ro.build.version.sdk");
    Device {
        serial,
        state: String::from_str("device"),
        model,
        brand,
        marketing_name,
        android_version,
        sdk_version,
    }
}

} // verus!
