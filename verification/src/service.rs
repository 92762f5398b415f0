//! Remote services: the listing of registered service names and the
//! stateful parse of the activity manager's service dump, which opens a
//! record per `ServiceRecord` head line and fills its process id from the
//! attachment line that follows.

use vstd::prelude::*;
use vstd::string::StringExecFns;
use crate::adb::AdbClient;
use crate::text::{contains_seq, digits_val, find_char, first_char_at, is_u64_token, lines_of,
    parse_u64, split_lines, str_contains, str_starts_with, starts_with, strip_trailing,
    strip_trailing_char, tokenize, tokens_of, trim_str, trimmed};

verus! {

/// Whether a service was seen running.
#[derive(Clone, Copy, Debug, PartialEq, Eq, Structural)]
pub enum ServiceState {
    Running,
    Stopped,
    Unknown,
}

/// The state's display name.
pub open spec fn state_name(s: ServiceState) -> Seq<char> {
    match s {
        ServiceState::Running => "Running"@,
        ServiceState::Stopped => "Stopped"@,
        ServiceState::Unknown => "Unknown"@,
    }
}

impl ServiceState {
    /// The name shown for the state.
    pub fn as_str(&self) -> (r: &str)
        ensures
            r@ == state_name(*self),
    {
        match self {
            ServiceState::Running => "Running",
            ServiceState::Stopped => "Stopped",
            ServiceState::Unknown => "Unknown",
        }
    }
}

/// One service of the dump.
#[derive(Debug)]
pub struct ServiceInfo {
    pub name: String,
    pub pid: Option<u32>,
    pub user: String,
    pub state: ServiceState,
}

/// The mathematical content of a service record.
pub struct ServiceModel {
    pub name: Seq<char>,
    pub pid: Option<u32>,
    pub user: Seq<char>,
    pub state: ServiceState,
}

/// Queries the service dumps.
pub struct ServiceMonitor {
    pub client: AdbClient,
}

/// The model of one parsed record.
pub open spec fn svc_model(s: &ServiceInfo) -> ServiceModel {
    ServiceModel { name: s.name@, pid: s.pid, user: s.user@, state: s.state }
}

/// The models of a record list.
pub open spec fn svc_views(v: Seq<ServiceInfo>) -> Seq<ServiceModel> {
    Seq::new(v.len(), |i: int| ServiceModel {
        name: v[i].name@,
        pid: v[i].pid,
        user: v[i].user@,
        state: v[i].state,
    })
}

/// The last whitespace-separated token, or nothing for a blank line.
pub open spec fn last_token(t: Seq<char>) -> Seq<char> {
    if tokens_of(t).len() > 0 {
        tokens_of(t).last()
    } else {
        Seq::empty()
    }
}

/// The record a `ServiceRecord` head line opens: named by the line's last
/// token without its closing brace, owned by the system user, state
/// unknown until an attachment line says otherwise.
pub open spec fn opened_service(t: Seq<char>) -> ServiceModel {
    ServiceModel {
        name: strip_trailing(last_token(t), '}'),
        pid: None,
        user: "system"@,
        state: ServiceState::Unknown,
    }
}

/// How an attachment line changes the open record: the first token
/// between the line's first and second colon read as a process id; a
/// readable id marks the service running, an unreadable one clears the
/// id and leaves the state.
pub open spec fn updated_service(s: ServiceModel, t: Seq<char>) -> ServiceModel {
    let c1 = first_char_at(t, ':');
    if c1 == t.len() {
        s
    } else {
        let after = t.skip(c1 + 1);
        let seg = after.take(first_char_at(after, ':'));
        if tokens_of(seg).len() == 0 {
            s
        } else {
            let tok = tokens_of(seg)[0];
            if is_u64_token(tok) && digits_val(tok) <= u32::MAX {
                ServiceModel {
                    name: s.name,
                    pid: Some(digits_val(tok) as u32),
                    user: s.user,
                    state: ServiceState::Running,
                }
            } else {
                ServiceModel { name: s.name, pid: None, user: s.user, state: s.state }
            }
        }
    }
}

/// The records of the dump's lines, given the record currently open: a
/// head line emits the open record and opens a new one, an attachment
/// line updates the open record, and the end of the dump emits whatever
/// is still open.
pub open spec fn services_from(ls: Seq<Seq<char>>, cur: Option<ServiceModel>) -> Seq<
    ServiceModel,
>
    decreases ls.len(),
{
    if ls.len() == 0 {
        match cur {
            Some(s) => seq![s],
            None => Seq::empty(),
        }
    } else {
        let t = trimmed(ls[0]);
        if starts_with(t, "* ServiceRecord{"@) {
            let emitted = match cur {
                Some(s) => seq![s],
                None => Seq::<ServiceModel>::empty(),
            };
            emitted + services_from(ls.drop_first(), Some(opened_service(t)))
        } else {
            match cur {
                Some(s) => if contains_seq(t, "app=ProcessRecord{"@) {
                    services_from(ls.drop_first(), Some(updated_service(s, t)))
                } else {
                    services_from(ls.drop_first(), cur)
                },
                None => services_from(ls.drop_first(), cur),
            }
        }
    }
}

/// What parsing a whole dump yields.
pub open spec fn services_spec(text: Seq<char>) -> Seq<ServiceModel> {
    services_from(lines_of(text), None)
}

/// Applies one attachment line to the open record.
fn apply_update(s: ServiceInfo, t: &str) -> (r: ServiceInfo)
    ensures
        svc_model(&r) == updated_service(svc_model(&s), t@),
{
    let n = t.unicode_len();
    let c1 = find_char(t, ':');
    if c1 == n {
        return s;
    }
    let after = t.substring_char(c1 + 1, n);
    proof {
        assert(after@ =~= t@.skip(c1 + 1));
    }
    let c2 = find_char(after, ':');
    let seg = after.substring_char(0, c2);
    proof {
        assert(seg@ =~= after@.take(first_char_at(after@, ':')));
    }
    let toks = tokenize(seg);
    if toks.len() == 0 {
        proof {
            assert(tokens_of(seg@).len() == 0);
        }
        return s;
    }
    proof {
        assert(toks.deep_view()[0] == toks@[0]@);
    }
    match parse_u64(toks[0].as_str()) {
        Some(v) => {
            if v <= u32::MAX as u64 {
                ServiceInfo {
                    name: s.name,
                    pid: Some(v as u32),
                    user: s.user,
                    state: ServiceState::Running,
                }
            } else {
                ServiceInfo { name: s.name, pid: None, user: s.user, state: s.state }
            }
        },
        None => ServiceInfo { name: s.name, pid: None, user: s.user, state: s.state },
    }
}

impl ServiceMonitor {
    pub fn new(client: AdbClient) -> (r: ServiceMonitor)
        ensures
            r.client == client,
    {
        ServiceMonitor { client }
    }

    /// Reads the service records out of the activity manager's dump.
    pub fn parse_services(&self, output: &str) -> (r: Vec<ServiceInfo>)
        ensures
            svc_views(r@) == services_spec(output@),
    {
        let lines = split_lines(output);
        let ghost ls = lines.deep_view();
        let mut out: Vec<ServiceInfo> = Vec::new();
        let mut cur: Option<ServiceInfo> = None;
        let mut i: usize = 0;
        proof {
            assert(ls.skip(0) =~= ls);
            assert(svc_views(out@) =~= Seq::<ServiceModel>::empty());
        }
        while i < lines.len()
            invariant
                ls == lines.deep_view(),
                lines@.len() == ls.len(),
                0 <= i <= ls.len(),
                services_from(ls, None) == svc_views(out@) + services_from(
                    ls.skip(i as int),
                    match cur {
                        Some(s) => Some(svc_model(&s)),
                        None => None,
                    },
                ),
            decreases ls.len() - i,
        {
            proof {
                assert(ls[i as int] == lines@[i as int]@);
                assert(ls.skip(i as int)[0] == ls[i as int]);
                assert(ls.skip(i as int).drop_first() =~= ls.skip(i + 1));
            }
            let t = trim_str(lines[i].as_str());
            if str_starts_with(t.as_str(), "* ServiceRecord{") {
                let ghost out_before = svc_views(out@);
                match cur {
                    Some(s) => {
                        out.push(s);
                        proof {
                            assert(svc_views(out@) =~= out_before.push(
                                svc_model(&out@[out@.len() - 1]),
                            ));
                        }
                    },
                    None => {},
                }
                let toks = tokenize(t.as_str());
                let name = if toks.len() > 0 {
                    proof {
                        assert(toks.deep_view().last() == toks@[toks@.len() - 1]@);
                    }
                    strip_trailing_char(toks[toks.len() - 1].as_str(), '}')
                } else {
                    String::new()
                };
                cur = Some(
                    ServiceInfo {
                        name,
                        pid: None,
                        user: String::from_str("system"),
                        state: ServiceState::Unknown,
                    },
                );
                proof {
                    assert(svc_model(&cur->Some_0) == opened_service(trimmed(ls[i as int])));
                    assert(svc_views(out@) + services_from(
                        ls.skip(i + 1),
                        Some(opened_service(trimmed(ls[i as int]))),
                    ) =~= services_from(ls, None));
                }
            } else {
                let is_upd = str_contains(t.as_str(), "app=ProcessRecord{");
                if is_upd {
                    match cur {
                        Some(s) => {
                            let updated = apply_update(s, t.as_str());
                            cur = Some(updated);
                        },
                        None => {},
                    }
                }
            }
            i = i + 1;
        }
        proof {
            assert(ls.skip(ls.len() as int) =~= Seq::<Seq<char>>::empty());
        }
        match cur {
            Some(s) => {
                let ghost out_before = svc_views(out@);
                out.push(s);
                proof {
                    assert(svc_views(out@) =~= out_before.push(
                        svc_model(&out@[out@.len() - 1]),
                    ));
                    assert(svc_views(out@) =~= services_from(ls, None));
                }
            },
            None => {
                proof {
                    assert(svc_views(out@) =~= services_from(ls, None));
                }
            },
        }
        out
    }

    /// Reads the registered service names out of the service listing:
    /// each line's second field without its surrounding brackets.
    pub fn parse_service_list(output: &str) -> (r: Vec<String>)
        ensures
            r.deep_view() == service_names_from(lines_of(output@)),
    {
        let lines = split_lines(output);
        let ghost ls = lines.deep_view();
        let mut names: Vec<String> = Vec::new();
        let mut i: usize = 0;
        proof {
            assert(ls.take(0) =~= Seq::<Seq<char>>::empty());
            assert(names.deep_view() =~= service_names_from(ls.take(0)));
        }
        while i < lines.len()
            invariant
                ls == lines.deep_view(),
                lines@.len() == ls.len(),
                0 <= i <= ls.len(),
                names.deep_view() == service_names_from(ls.take(i as int)),
            decreases ls.len() - i,
        {
            proof {
                assert(ls[i as int] == lines@[i as int]@);
                assert(ls.take(i + 1).last() == ls[i as int]);
                assert(ls.take(i + 1).drop_last() =~= ls.take(i as int));
            }
            let toks = tokenize(lines[i].as_str());
            if toks.len() >= 2 {
                proof {
                    assert(toks.deep_view()[1] == toks@[1]@);
                }
                let name = strip_brackets_str(toks[1].as_str());
                let ghost before = names.deep_view();
                names.push(name);
                proof {
                    assert(names.deep_view() =~= before.push(
                        strip_brackets(tokens_of(ls[i as int])[1]),
                    ));
                }
            }
            i = i + 1;
        }
        proof {
            assert(ls.take(ls.len() as int) =~= ls);
        }
        names
    }
}

/// A bracket character of the listing's decoration.
pub open spec fn is_bracket(c: char) -> bool {
    c == '[' || c == ']'
}

/// `s` without leading or trailing bracket runs.
pub open spec fn strip_brackets(s: Seq<char>) -> Seq<char> {
    strip_leading_brackets(strip_trailing_brackets(s))
}

pub open spec fn strip_trailing_brackets(s: Seq<char>) -> Seq<char>
    decreases s.len(),
{
    if s.len() > 0 && is_bracket(s.last()) {
        strip_trailing_brackets(s.drop_last())
    } else {
        s
    }
}

pub open spec fn strip_leading_brackets(s: Seq<char>) -> Seq<char>
    decreases s.len(),
{
    if s.len() > 0 && is_bracket(s[0]) {
        strip_leading_brackets(s.drop_first())
    } else {
        s
    }
}

/// The names a listing's lines carry: every line with at least two
/// fields contributes its second, brackets stripped.
pub open spec fn service_names_from(ls: Seq<Seq<char>>) -> Seq<Seq<char>>
    decreases ls.len(),
{
    if ls.len() == 0 {
        Seq::empty()
    } else if tokens_of(ls.last()).len() >= 2 {
        service_names_from(ls.drop_last()).push(strip_brackets(tokens_of(ls.last())[1]))
    } else {
        service_names_from(ls.drop_last())
    }
}

/// Copies `s` without leading or trailing brackets.
fn strip_brackets_str(s: &str) -> (r: String)
    ensures
        r@ == strip_brackets(s@),
{
    let n = s.unicode_len();
    let mut end: usize = n;
    proof {
        assert(s@.take(n as int) =~= s@);
    }
    while end > 0
        invariant
            n == s@.len(),
            0 <= end <= n,
            strip_trailing_brackets(s@) == strip_trailing_brackets(s@.take(end as int)),
        ensures
            0 <= end <= n,
            strip_trailing_brackets(s@) == strip_trailing_brackets(s@.take(end as int)),
            end == 0 || !is_bracket(s@[end - 1]),
        decreases end,
    {
        let c = s.get_char(end - 1);
        if !(c == '[' || c == ']') {
            break;
        }
        proof {
            assert(s@.take(end as int).last() == s@[end - 1]);
            assert(s@.take(end as int).drop_last() =~= s@.take(end - 1));
        }
        end = end - 1;
    }
    proof {
        if end > 0 {
            assert(s@.take(end as int).last() == s@[end - 1]);
            assert(strip_trailing_brackets(s@.take(end as int)) == s@.take(end as int));
        } else {
            assert(s@.take(0) =~= Seq::<char>::empty());
        }
        assert(strip_trailing_brackets(s@) == s@.take(end as int));
    }
    let mut start: usize = 0;
    while start < end
        invariant
            n == s@.len(),
            0 <= start <= end <= n,
            strip_leading_brackets(s@.take(end as int)) == strip_leading_brackets(
                s@.subrange(start as int, end as int),
            ),
        ensures
            0 <= start <= end <= n,
            strip_leading_brackets(s@.take(end as int)) == strip_leading_brackets(
                s@.subrange(start as int, end as int),
            ),
            start == end || !is_bracket(s@[start as int]),
        decreases end - start,
    {
        let c = s.get_char(start);
        if !(c == '[' || c == ']') {
            break;
        }
        proof {
            assert(s@.subrange(start as int, end as int)[0] == s@[start as int]);
            assert(s@.subrange(start as int, end as int).drop_first() =~= s@.subrange(
                start + 1,
                end as int,
            ));
        }
        start = start + 1;
    }
    proof {
        assert(s@.take(end as int) =~= s@.subrange(0, end as int));
        if start < end {
            assert(s@.subrange(start as int, end as int)[0] == s@[start as int]);
            assert(strip_leading_brackets(s@.subrange(start as int, end as int)) == s@.subrange(
                start as int,
                end as int,
            ));
        } else {
            assert(s@.subrange(start as int, end as int) =~= Seq::<char>::empty());
        }
    }
    s.substring_char(start, end).to_owned()
}

} // verus!
