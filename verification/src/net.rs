//! Network counters: parsing the per-interface device table and summing the
//! cumulative receive/transmit byte counters of every non-loopback
//! interface.

use vstd::prelude::*;
use crate::rate::sat_u64;
use crate::text::{lines_of, split_lines, str_eq, strip_trailing, strip_trailing_char,
    token_u64, tokenize, tokens_of};

verus! {

/// Cumulative byte counters from one capture of the device table, summed
/// across all non-loopback interfaces.
#[derive(Clone, Copy, Debug, PartialEq, Eq, Structural)]
pub struct NetCounterSample {
    pub rx_bytes: u64,
    pub tx_bytes: u64,
}

/// An interface row that contributes to the totals: it has the full field
/// count and does not describe the loopback interface.
pub open spec fn counts_row(l: Seq<char>) -> bool {
    tokens_of(l).len() >= 10 && strip_trailing(tokens_of(l)[0], ':') != "lo"@
}

/// Received bytes of a row: its first numeric field.
pub open spec fn row_rx(l: Seq<char>) -> u64 {
    token_u64(tokens_of(l)[1])
}

/// Transmitted bytes of a row: its ninth numeric field.
pub open spec fn row_tx(l: Seq<char>) -> u64 {
    token_u64(tokens_of(l)[9])
}

/// Totals over a sequence of interface rows, saturating at `u64::MAX`.
pub open spec fn net_totals(ls: Seq<Seq<char>>) -> (u64, u64)
    decreases ls.len(),
{
    if ls.len() == 0 {
        (0u64, 0u64)
    } else {
        let prev = net_totals(ls.drop_last());
        if counts_row(ls.last()) {
            (sat_u64(prev.0 + row_rx(ls.last())), sat_u64(prev.1 + row_tx(ls.last())))
        } else {
            prev
        }
    }
}

/// The rows of the device table: everything after the two header lines.
pub open spec fn table_rows(ls: Seq<Seq<char>>) -> Seq<Seq<char>> {
    if ls.len() <= 2 {
        Seq::empty()
    } else {
        ls.skip(2)
    }
}

/// What parsing a whole device table yields.
pub open spec fn net_sample_spec(text: Seq<char>) -> NetCounterSample {
    NetCounterSample {
        rx_bytes: net_totals(table_rows(lines_of(text))).0,
        tx_bytes: net_totals(table_rows(lines_of(text))).1,
    }
}

impl NetCounterSample {
    /// Sums the receive and transmit byte counters of every non-loopback
    /// interface row of `text`; rows with too few fields are skipped, and
    /// malformed counter fields read as 0.
    pub fn parse(text: &str) -> (r: NetCounterSample)
        ensures
            r == net_sample_spec(text@),
    {
        let lines = split_lines(text);
        let ghost ls = lines.deep_view();
        if lines.len() <= 2 {
            return NetCounterSample { rx_bytes: 0, tx_bytes: 0 };
        }
        let mut rx: u64 = 0;
        let mut tx: u64 = 0;
        let mut i: usize = 2;
        proof {
            assert(ls.subrange(2, 2) =~= Seq::<Seq<char>>::empty());
        }
        while i < lines.len()
            invariant
                ls == lines.deep_view(),
                lines@.len() == ls.len(),
                2 <= i <= ls.len(),
                (rx, tx) == net_totals(ls.subrange(2, i as int)),
            decreases ls.len() - i,
        {
            let l = &lines[i];
            proof {
                assert(ls.subrange(2, i + 1).last() == ls[i as int]);
                assert(ls.subrange(2, i + 1).drop_last() =~= ls.subrange(2, i as int));
            }
            let toks = tokenize(l.as_str());
            if toks.len() >= 10 {
                let name = strip_trailing_char(toks[0].as_str(), ':');
                proof {
                    assert(toks.deep_view()[0] == toks@[0]@);
                    assert(toks.deep_view()[1] == toks@[1]@);
                    assert(toks.deep_view()[9] == toks@[9]@);
                }
                if !str_eq(name.as_str(), "lo") {
                    let row_rx_v = crate::text::parse_u64_or_zero(toks[1].as_str());
                    let row_tx_v = crate::text::parse_u64_or_zero(toks[9].as_str());
                    rx = rx.saturating_add(row_rx_v);
                    tx = tx.saturating_add(row_tx_v);
                }
            }
            i = i + 1;
        }
        proof {
            assert(ls.subrange(2, ls.len() as int) =~= table_rows(ls));
        }
        NetCounterSample { rx_bytes: rx, tx_bytes: tx }
    }
}

} // verus!
