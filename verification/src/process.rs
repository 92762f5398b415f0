//! The process table: parsing the remote listing's rows into records and
//! ordering them by processor usage, stably and descending.
//!
//! A header row is recognized by carrying both the PID and the USER column
//! markers; every later row with at least the nine leading fields becomes a
//! record, and shorter rows are skipped rather than failing the table.

use vstd::prelude::*;
use crate::text::{
    contains_seq, dec_tenths, joined, join_tokens, parse_dec_tenths, parse_u64_or_zero,
    lines_of, split_lines, str_contains, strip_trailing, strip_trailing_char, token_u64,
    tokenize, tokens_of,
};

verus! {

/// One process of the remote device. Usage shares are held in tenths of a
/// percent, the precision the listing prints.
#[derive(Debug)]
pub struct ProcessRecord {
    pub pid: u64,
    pub user: String,
    pub cpu_tenths: u64,
    pub mem_tenths: u64,
    pub name: String,
}

impl Clone for ProcessRecord {
    fn clone(&self) -> (r: Self)
        ensures
            r == *self,
    {
        ProcessRecord {
            pid: self.pid,
            user: self.user.clone(),
            cpu_tenths: self.cpu_tenths,
            mem_tenths: self.mem_tenths,
            name: self.name.clone(),
        }
    }
}

/// The mathematical content of a record: its fields with strings as
/// character sequences.
pub struct RecordModel {
    pub pid: u64,
    pub user: Seq<char>,
    pub cpu_tenths: u64,
    pub mem_tenths: u64,
    pub name: Seq<char>,
}

impl View for ProcessRecord {
    type V = RecordModel;

    open spec fn view(&self) -> RecordModel {
        RecordModel {
            pid: self.pid,
            user: self.user@,
            cpu_tenths: self.cpu_tenths,
            mem_tenths: self.mem_tenths,
            name: self.name@,
        }
    }
}

/// A row that announces the column layout: it carries both markers.
pub open spec fn is_header_row(l: Seq<char>) -> bool {
    contains_seq(l, "PID"@) && contains_seq(l, "USER"@)
}

/// A row with enough fields to describe a process.
pub open spec fn is_record_row(l: Seq<char>) -> bool {
    tokens_of(l).len() >= 9
}

/// The record a well-formed row denotes, as
/// (pid, user, cpu_tenths, mem_tenths, name): the fixed columns are
/// user, pid, parent, virtual size, resident size, cpu share, memory
/// share and state, and everything after them joined is the name.
pub open spec fn record_of_row(l: Seq<char>) -> RecordModel
    recommends
        is_record_row(l),
{
    let t = tokens_of(l);
    RecordModel {
        pid: token_u64(t[1]),
        user: t[0],
        cpu_tenths: dec_tenths(strip_trailing(t[5], '%')),
        mem_tenths: dec_tenths(strip_trailing(t[6], '%')),
        name: joined(t.skip(8)),
    }
}

/// The records of the listing's lines, in row order: rows count only after
/// a header row has been seen, header-like rows never count themselves,
/// and short rows are skipped.
pub open spec fn records_from(ls: Seq<Seq<char>>, started: bool) -> Seq<RecordModel>
    decreases ls.len(),
{
    if ls.len() == 0 {
        Seq::empty()
    } else if is_header_row(ls[0]) {
        records_from(ls.drop_first(), true)
    } else if started && is_record_row(ls[0]) {
        seq![record_of_row(ls[0])] + records_from(ls.drop_first(), started)
    } else {
        records_from(ls.drop_first(), started)
    }
}

/// What parsing a whole listing yields, in row order, before sorting.
pub open spec fn process_rows_spec(text: Seq<char>) -> Seq<RecordModel> {
    records_from(lines_of(text), false)
}

/// The views of a record sequence.
pub open spec fn views_of(s: Seq<ProcessRecord>) -> Seq<RecordModel> {
    s.map_values(|r: ProcessRecord| r@)
}

/// The records with one given cpu share, in order.
pub open spec fn with_cpu(s: Seq<ProcessRecord>, c: u64) -> Seq<ProcessRecord> {
    s.filter(|r: ProcessRecord| r.cpu_tenths == c)
}

/// The record views with one given cpu share, in order.
pub open spec fn views_with_cpu(s: Seq<RecordModel>, c: u64) -> Seq<RecordModel> {
    s.filter(|t: RecordModel| t.cpu_tenths == c)
}

/// Non-increasing cpu share.
pub open spec fn sorted_desc(s: Seq<ProcessRecord>) -> bool {
    forall|a: int, b: int| 0 <= a < b < s.len()
        ==> #[trigger] s[a].cpu_tenths >= #[trigger] s[b].cpu_tenths
}

/// Reads the rows after the header row of `text`, in row order.
pub fn parse_process_rows(text: &str) -> (r: Vec<ProcessRecord>)
    ensures
        views_of(r@) == process_rows_spec(text@),
{
    let lines = split_lines(text);
    let ghost ls = lines.deep_view();
    let mut recs: Vec<ProcessRecord> = Vec::new();
    let mut started = false;
    let mut i: usize = 0;
    proof {
        assert(ls.skip(0) =~= ls);
        assert(views_of(recs@) =~= Seq::<RecordModel>::empty());
        assert(records_from(ls, false) == views_of(recs@) + records_from(ls.skip(0), false));
    }
    while i < lines.len()
        invariant
            ls == lines.deep_view(),
            lines@.len() == ls.len(),
            0 <= i <= ls.len(),
            records_from(ls, false) == views_of(recs@) + records_from(
                ls.skip(i as int),
                started,
            ),
        decreases ls.len() - i,
    {
        let l = &lines[i];
        proof {
            assert(ls[i as int] == lines@[i as int]@);
            assert(ls.skip(i as int)[0] == ls[i as int]);
            assert(ls.skip(i as int).drop_first() =~= ls.skip(i + 1));
        }
        if str_contains(l.as_str(), "PID") && str_contains(l.as_str(), "USER") {
            started = true;
        } else if started {
            let toks = tokenize(l.as_str());
            if toks.len() >= 9 {
                proof {
                    assert(toks.deep_view()[0] == toks@[0]@);
                    assert(toks.deep_view()[1] == toks@[1]@);
                    assert(toks.deep_view()[5] == toks@[5]@);
                    assert(toks.deep_view()[6] == toks@[6]@);
                }
                let pid = parse_u64_or_zero(toks[1].as_str());
                let user = toks[0].clone();
                let cpu_s = strip_trailing_char(toks[5].as_str(), '%');
                let cpu_tenths = parse_dec_tenths(cpu_s.as_str());
                let mem_s = strip_trailing_char(toks[6].as_str(), '%');
                let mem_tenths = parse_dec_tenths(mem_s.as_str());
                let name = join_tokens(&toks, 8);
                let rec = ProcessRecord { pid, user, cpu_tenths, mem_tenths, name };
                proof {
                    assert(rec@ == record_of_row(ls[i as int]));
                }
                let ghost old_views = views_of(recs@);
                recs.push(rec);
                proof {
                    assert(views_of(recs@) =~= old_views + seq![rec@]);
                    assert(views_of(recs@) + records_from(ls.skip(i + 1), started)
                        =~= records_from(ls, false));
                }
            }
        }
        i = i + 1;
    }
    proof {
        assert(ls.skip(ls.len() as int) =~= Seq::<Seq<char>>::empty());
        assert(views_of(recs@) =~= records_from(ls, false));
    }
    recs
}

/// A record sequence with one element inserted keeps each cpu class's
/// order, provided everything at or past the insertion point has a
/// strictly smaller share.
proof fn lemma_insert_filters(s: Seq<ProcessRecord>, e: ProcessRecord, pos: int)
    requires
        0 <= pos <= s.len(),
        forall|b: int| pos <= b < s.len() ==> #[trigger] s[b].cpu_tenths < e.cpu_tenths,
    ensures
        forall|c: u64|
            #[trigger] with_cpu(s.insert(pos, e), c) == if c == e.cpu_tenths {
                with_cpu(s, c).push(e)
            } else {
                with_cpu(s, c)
            },
{
    let pre = s.take(pos);
    let post = s.skip(pos);
    assert(s.insert(pos, e) =~= pre + (seq![e] + post));
    assert(s =~= pre + post);
    assert forall|c: u64|
        #[trigger] with_cpu(s.insert(pos, e), c) == if c == e.cpu_tenths {
            with_cpu(s, c).push(e)
        } else {
            with_cpu(s, c)
        } by {
        Seq::filter_distributes_over_add(pre, seq![e] + post, |r: ProcessRecord| r.cpu_tenths == c);
        Seq::filter_distributes_over_add(seq![e], post, |r: ProcessRecord| r.cpu_tenths == c);
        Seq::filter_distributes_over_add(pre, post, |r: ProcessRecord| r.cpu_tenths == c);
        assert(seq![e] =~= Seq::<ProcessRecord>::empty().push(e));
        Seq::<ProcessRecord>::empty().lemma_filter_push(e, |r: ProcessRecord| r.cpu_tenths == c);
        Seq::<ProcessRecord>::empty().lemma_all_neg_filter_empty(|r: ProcessRecord| r.cpu_tenths == c);
        if c == e.cpu_tenths {
            assert(post.all(|r: ProcessRecord| !(r.cpu_tenths == c)));
            post.lemma_all_neg_filter_empty(|r: ProcessRecord| r.cpu_tenths == c);
            assert(post.filter(|r: ProcessRecord| r.cpu_tenths == c)
                =~= Seq::<ProcessRecord>::empty());
            assert(with_cpu(s.insert(pos, e), c) =~= with_cpu(s, c).push(e));
        } else {
            assert(seq![e].filter(|r: ProcessRecord| r.cpu_tenths == c)
                =~= Seq::<ProcessRecord>::empty());
            assert(with_cpu(s.insert(pos, e), c) =~= with_cpu(s, c));
        }
    }
}

/// Sorts records by cpu share, descending; records with equal shares keep
/// their relative order.
pub fn sort_by_cpu_desc(v: &mut Vec<ProcessRecord>)
    ensures
        sorted_desc(final(v)@),
        final(v)@.len() == old(v)@.len(),
        forall|c: u64| #[trigger] with_cpu(final(v)@, c) == with_cpu(old(v)@, c),
{
    let ghost input = v@;
    let mut out: Vec<ProcessRecord> = Vec::new();
    let mut i: usize = 0;
    proof {
        assert(input.take(0) =~= Seq::<ProcessRecord>::empty());
        assert forall|c: u64| #[trigger] with_cpu(out@, c) == with_cpu(input.take(0), c) by {
            out@.lemma_all_neg_filter_empty(|r: ProcessRecord| r.cpu_tenths == c);
            input.take(0).lemma_all_neg_filter_empty(|r: ProcessRecord| r.cpu_tenths == c);
            assert(with_cpu(out@, c) =~= with_cpu(input.take(0), c));
        }
    }
    while i < v.len()
        invariant
            input == v@,
            0 <= i <= input.len(),
            out@.len() == i,
            sorted_desc(out@),
            forall|c: u64| #[trigger] with_cpu(out@, c) == with_cpu(input.take(i as int), c),
        decreases input.len() - i,
    {
        let e = v[i].clone();
        proof {
            assert(e@ == input[i as int]@);
        }
        // Scan from the back for the first record whose share is not
        // smaller; the new record goes right after it.
        let mut pos: usize = out.len();
        while pos > 0
            invariant
                0 <= pos <= out@.len(),
                sorted_desc(out@),
                e.cpu_tenths == input[i as int].cpu_tenths,
                i < input.len(),
                forall|b: int| pos <= b < out@.len()
                    ==> #[trigger] out@[b].cpu_tenths < e.cpu_tenths,
            ensures
                0 <= pos <= out@.len(),
                forall|b: int| pos <= b < out@.len()
                    ==> #[trigger] out@[b].cpu_tenths < e.cpu_tenths,
                pos > 0 ==> out@[pos - 1].cpu_tenths >= e.cpu_tenths,
            decreases pos,
        {
            if out[pos - 1].cpu_tenths >= e.cpu_tenths {
                break;
            }
            pos = pos - 1;
        }
        let ghost out0 = out@;
        proof {
            lemma_insert_filters(out0, e, pos as int);
            assert(input.take(i + 1).drop_last() =~= input.take(i as int));
            assert(input.take(i + 1).last() == input[i as int]);
        }
        out.insert(pos, e);
        proof {
            // Each cpu class after this insertion matches the class taken
            // from one more input row.
            let prev = input.take(i as int);
            let cur = input.take(i + 1);
            assert(cur =~= prev.push(input[i as int]));
            assert forall|c: u64| #[trigger] with_cpu(out@, c) == with_cpu(cur, c) by {
                prev.lemma_filter_push(input[i as int], |r: ProcessRecord| r.cpu_tenths == c);
                if c == e.cpu_tenths {
                    assert(with_cpu(out@, c) == with_cpu(out0, c).push(e));
                    assert(e == input[i as int]);
                } else {
                    assert(with_cpu(out@, c) == with_cpu(out0, c));
                }
            }
            // Sortedness: everything before the spot is at least as big,
            // everything after strictly smaller.
            assert forall|a: int, b: int| 0 <= a < b < out@.len() implies #[trigger] out@[
                a
            ].cpu_tenths >= #[trigger] out@[b].cpu_tenths by {
                if a == pos as int {
                } else if b == pos as int {
                    assert(out@[a] == out0[a]);
                    assert(out0[pos - 1].cpu_tenths >= e.cpu_tenths);
                    if a < pos - 1 {
                        assert(out0[a].cpu_tenths >= out0[pos - 1].cpu_tenths);
                    }
                } else if a < pos as int && b > pos as int {
                    assert(out@[a] == out0[a]);
                    assert(out@[b] == out0[b - 1]);
                } else if b < pos as int {
                    assert(out@[a] == out0[a]);
                    assert(out@[b] == out0[b]);
                } else {
                    assert(out@[a] == out0[a - 1]);
                    assert(out@[b] == out0[b - 1]);
                }
            }
        }
        i = i + 1;
    }
    proof {
        assert(input.take(input.len() as int) =~= input);
    }
    *v = out;
}

/// Filtering one cpu class commutes with taking record views.
proof fn lemma_views_of_with_cpu(s: Seq<ProcessRecord>, c: u64)
    ensures
        views_of(with_cpu(s, c)) == views_with_cpu(views_of(s), c),
    decreases s.len(),
{
    if s.len() == 0 {
        s.lemma_all_neg_filter_empty(|r: ProcessRecord| r.cpu_tenths == c);
        views_of(s).lemma_all_neg_filter_empty(|t: RecordModel| t.cpu_tenths == c);
        assert(views_of(with_cpu(s, c)) =~= views_with_cpu(views_of(s), c));
    } else {
        let rest = s.drop_last();
        lemma_views_of_with_cpu(rest, c);
        rest.lemma_filter_push(s.last(), |r: ProcessRecord| r.cpu_tenths == c);
        views_of(rest).lemma_filter_push(s.last()@, |t: RecordModel| t.cpu_tenths == c);
        assert(s =~= rest.push(s.last()));
        assert(views_of(s) =~= views_of(rest).push(s.last()@));
        assert(views_with_cpu(views_of(s), c) == views_of(rest).push(s.last()@).filter(
            |t: RecordModel| t.cpu_tenths == c,
        ));
        if s.last().cpu_tenths == c {
            assert(views_of(with_cpu(s, c)) =~= views_of(with_cpu(rest, c)).push(s.last()@));
            assert(views_with_cpu(views_of(s), c) =~= views_with_cpu(views_of(rest), c).push(
                s.last()@,
            ));
        } else {
            assert(views_of(with_cpu(s, c)) =~= views_of(with_cpu(rest, c)));
            assert(views_with_cpu(views_of(s), c) =~= views_with_cpu(views_of(rest), c));
        }
    }
}

/// Parses the whole listing and orders the records by cpu share,
/// descending, records with equal shares keeping their row order: each
/// cpu class of the result matches, in order, the class of the parsed
/// rows.
pub fn parse_process_table(text: &str) -> (r: Vec<ProcessRecord>)
    ensures
        sorted_desc(r@),
        r@.len() == process_rows_spec(text@).len(),
        forall|c: u64| #[trigger] views_with_cpu(views_of(r@), c) == views_with_cpu(
            process_rows_spec(text@),
            c,
        ),
{
    let mut recs = parse_process_rows(text);
    let ghost rows = recs@;
    sort_by_cpu_desc(&mut recs);
    proof {
        assert(views_of(rows) == process_rows_spec(text@));
        assert(rows.len() == views_of(rows).len());
        assert forall|c: u64| #[trigger] views_with_cpu(views_of(recs@), c) == views_with_cpu(
            process_rows_spec(text@),
            c,
        ) by {
            lemma_views_of_with_cpu(recs@, c);
            lemma_views_of_with_cpu(rows, c);
            assert(with_cpu(recs@, c) == with_cpu(rows, c));
        }
    }
    recs
}

} // verus!
