//! Resource readings beyond the sampler's own cycle: the plain free-space
//! report, the per-interface counter list, and the size field read in
//! megabytes. The queries are I/O and happen outside; the parsing is here.

use vstd::prelude::*;
use crate::adb::AdbClient;
use crate::disk::{first_data_row, parse_size_kb, size_to_kb};
use crate::net::{counts_row, row_rx, row_tx, table_rows, NetCounterSample};
use crate::text::{dec_tenths, lines_of, split_lines, strip_trailing, strip_trailing_char,
    token_u64, tokenize, tokens_of};

verus! {

/// Total byte counters over all non-loopback interfaces.
#[derive(Clone, Copy, Debug, PartialEq, Eq, Structural)]
pub struct NetworkStats {
    pub rx_bytes: u64,
    pub tx_bytes: u64,
}

/// One interface's cumulative byte counters.
#[derive(Debug)]
pub struct NetworkInterface {
    pub name: String,
    pub rx_bytes: u64,
    pub tx_bytes: u64,
}

/// Every non-loopback interface of one device table capture.
#[derive(Debug)]
pub struct NetworkInfo {
    pub interfaces: Vec<NetworkInterface>,
}

/// The free-space figures of the monitored mount, sizes in MB and the
/// used share in tenths of a percent.
#[derive(Clone, Copy, Debug, PartialEq, Eq, Structural)]
pub struct SimpleDiskInfo {
    pub total_mb: u64,
    pub used_mb: u64,
    pub available_mb: u64,
    pub usage_tenths: u64,
}

/// One mounted filesystem of the full free-space report, sizes in MB and
/// the used share in tenths of a percent.
#[derive(Debug)]
pub struct DiskPartition {
    pub mount_point: String,
    pub filesystem: String,
    pub total_mb: u64,
    pub used_mb: u64,
    pub available_mb: u64,
    pub usage_tenths: u64,
}

/// Every mounted filesystem of one report.
#[derive(Debug)]
pub struct DiskInfo {
    pub partitions: Vec<DiskPartition>,
}

/// The mathematical content of a partition row.
pub struct PartitionModel {
    pub mount_point: Seq<char>,
    pub filesystem: Seq<char>,
    pub total_mb: u64,
    pub used_mb: u64,
    pub available_mb: u64,
    pub usage_tenths: u64,
}

/// Reads resource figures over the command channel.
pub struct ResourceMonitor {
    pub client: AdbClient,
}

/// The interfaces of a sequence of table rows, as
/// (name, rx_bytes, tx_bytes), loopback and short rows skipped.
pub open spec fn interfaces_from(ls: Seq<Seq<char>>) -> Seq<(Seq<char>, u64, u64)>
    decreases ls.len(),
{
    if ls.len() == 0 {
        Seq::empty()
    } else {
        let prev = interfaces_from(ls.drop_last());
        let l = ls.last();
        if counts_row(l) {
            prev.push((strip_trailing(tokens_of(l)[0], ':'), row_rx(l), row_tx(l)))
        } else {
            prev
        }
    }
}

/// The interface list as character sequences and counters.
pub open spec fn iface_views(v: Seq<NetworkInterface>) -> Seq<(Seq<char>, u64, u64)> {
    Seq::new(v.len(), |i: int| (v[i].name@, v[i].rx_bytes, v[i].tx_bytes))
}

/// What the plain free-space report yields: the first row after the
/// header with the six fields, sizes scaled from kB to MB and the used
/// share in tenths of a percent; a report without such a row reads as
/// all zeros.
pub open spec fn simple_disk_spec(text: Seq<char>) -> SimpleDiskInfo {
    let ls = lines_of(text);
    let rows = if ls.len() <= 1 { Seq::<Seq<char>>::empty() } else { ls.skip(1) };
    match first_data_row(rows, 6) {
        None => SimpleDiskInfo { total_mb: 0, used_mb: 0, available_mb: 0, usage_tenths: 0 },
        Some(row) => {
            let t = tokens_of(row);
            SimpleDiskInfo {
                total_mb: token_u64(t[1]) / 1024,
                used_mb: token_u64(t[2]) / 1024,
                available_mb: token_u64(t[3]) / 1024,
                usage_tenths: dec_tenths(strip_trailing(t[4], '%')),
            }
        },
    }
}


/// The partition a report row describes, when it has the six fields.
pub open spec fn partition_of_row(l: Seq<char>) -> Option<PartitionModel> {
    let t = tokens_of(l);
    if t.len() < 6 {
        None
    } else {
        Some(
            PartitionModel {
                mount_point: t[5],
                filesystem: t[0],
                total_mb: size_to_kb(t[1]) / 1024,
                used_mb: size_to_kb(t[2]) / 1024,
                available_mb: size_to_kb(t[3]) / 1024,
                usage_tenths: dec_tenths(strip_trailing(t[4], '%')),
            },
        )
    }
}

/// The partitions of a sequence of report rows, in order.
pub open spec fn partitions_from(ls: Seq<Seq<char>>) -> Seq<PartitionModel>
    decreases ls.len(),
{
    if ls.len() == 0 {
        Seq::empty()
    } else {
        match partition_of_row(ls.last()) {
            Some(p) => partitions_from(ls.drop_last()).push(p),
            None => partitions_from(ls.drop_last()),
        }
    }
}

/// The partition list as character sequences and numbers.
pub open spec fn partition_views(v: Seq<DiskPartition>) -> Seq<PartitionModel> {
    Seq::new(v.len(), |i: int| PartitionModel {
        mount_point: v[i].mount_point@,
        filesystem: v[i].filesystem@,
        total_mb: v[i].total_mb,
        used_mb: v[i].used_mb,
        available_mb: v[i].available_mb,
        usage_tenths: v[i].usage_tenths,
    })
}

impl ResourceMonitor {
    pub fn new(client: AdbClient) -> (m: ResourceMonitor)
        ensures
            m.client == client,
    {
        ResourceMonitor { client }
    }

    /// A size field read in MB: the kB normalization scaled down.
    pub fn parse_size(size_str: &str) -> (mb: u64)
        ensures
            mb == size_to_kb(size_str@) / 1024,
    {
        parse_size_kb(size_str) / 1024
    }

    /// Sums the byte counters of every non-loopback interface.
    pub fn parse_network_totals(text: &str) -> (r: NetworkStats)
        ensures
            r.rx_bytes == crate::net::net_sample_spec(text@).rx_bytes,
            r.tx_bytes == crate::net::net_sample_spec(text@).tx_bytes,
    {
        let s = NetCounterSample::parse(text);
        NetworkStats { rx_bytes: s.rx_bytes, tx_bytes: s.tx_bytes }
    }

    /// Lists every non-loopback interface with its counters.
    pub fn parse_interfaces(text: &str) -> (r: NetworkInfo)
        ensures
            iface_views(r.interfaces@) == interfaces_from(table_rows(lines_of(text@))),
    {
        let lines = split_lines(text);
        let ghost ls = lines.deep_view();
        let mut ifaces: Vec<NetworkInterface> = Vec::new();
        if lines.len() <= 2 {
            proof {
                assert(iface_views(ifaces@) =~= interfaces_from(table_rows(ls)));
            }
            return NetworkInfo { interfaces: ifaces };
        }
        let mut i: usize = 2;
        proof {
            assert(ls.subrange(2, 2) =~= Seq::<Seq<char>>::empty());
            assert(iface_views(ifaces@) =~= interfaces_from(ls.subrange(2, 2)));
        }
        while i < lines.len()
            invariant
                ls == lines.deep_view(),
                lines@.len() == ls.len(),
                2 <= i <= ls.len(),
                iface_views(ifaces@) == interfaces_from(ls.subrange(2, i as int)),
            decreases ls.len() - i,
        {
            proof {
                assert(ls[i as int] == lines@[i as int]@);
                assert(ls.subrange(2, i + 1).last() == ls[i as int]);
                assert(ls.subrange(2, i + 1).drop_last() =~= ls.subrange(2, i as int));
            }
            let toks = tokenize(lines[i].as_str());
            if toks.len() >= 10 {
                let name = strip_trailing_char(toks[0].as_str(), ':');
                proof {
                    assert(toks.deep_view()[0] == toks@[0]@);
                    assert(toks.deep_view()[1] == toks@[1]@);
                    assert(toks.deep_view()[9] == toks@[9]@);
                }
                if !crate::text::str_eq(name.as_str(), "lo") {
                    let rx_bytes = crate::text::parse_u64_or_zero(toks[1].as_str());
                    let tx_bytes = crate::text::parse_u64_or_zero(toks[9].as_str());
                    let ghost before = iface_views(ifaces@);
                    ifaces.push(NetworkInterface { name, rx_bytes, tx_bytes });
                    proof {
                        assert(iface_views(ifaces@) =~= before.push(
                            (
                                strip_trailing(tokens_of(ls[i as int])[0], ':'),
                                row_rx(ls[i as int]),
                                row_tx(ls[i as int]),
                            ),
                        ));
                    }
                }
            }
            i = i + 1;
        }
        proof {
            assert(ls.subrange(2, ls.len() as int) =~= table_rows(ls));
        }
        NetworkInfo { interfaces: ifaces }
    }


    /// Reads every partition row of the full free-space report.
    pub fn parse_all_disks(output: &str) -> (r: DiskInfo)
        ensures
            partition_views(r.partitions@) == (if lines_of(output@).len() <= 1 {
                Seq::<PartitionModel>::empty()
            } else {
                partitions_from(lines_of(output@).skip(1))
            }),
    {
        let lines = split_lines(output);
        let ghost ls = lines.deep_view();
        let mut parts: Vec<DiskPartition> = Vec::new();
        if lines.len() <= 1 {
            proof {
                assert(partition_views(parts@) =~= Seq::<PartitionModel>::empty());
            }
            return DiskInfo { partitions: parts };
        }
        let mut i: usize = 1;
        proof {
            assert(ls.subrange(1, 1) =~= Seq::<Seq<char>>::empty());
            assert(partition_views(parts@) =~= partitions_from(ls.subrange(1, 1)));
        }
        while i < lines.len()
            invariant
                ls == lines.deep_view(),
                lines@.len() == ls.len(),
                1 <= i <= ls.len(),
                partition_views(parts@) == partitions_from(ls.subrange(1, i as int)),
            decreases ls.len() - i,
        {
            proof {
                assert(ls[i as int] == lines@[i as int]@);
                assert(ls.subrange(1, i + 1).last() == ls[i as int]);
                assert(ls.subrange(1, i + 1).drop_last() =~= ls.subrange(1, i as int));
            }
            let toks = tokenize(lines[i].as_str());
            if toks.len() >= 6 {
                proof {
                    assert(toks.deep_view()[0] == toks@[0]@);
                    assert(toks.deep_view()[1] == toks@[1]@);
                    assert(toks.deep_view()[2] == toks@[2]@);
                    assert(toks.deep_view()[3] == toks@[3]@);
                    assert(toks.deep_view()[4] == toks@[4]@);
                    assert(toks.deep_view()[5] == toks@[5]@);
                }
                let total_mb = parse_size_kb(toks[1].as_str()) / 1024;
                let used_mb = parse_size_kb(toks[2].as_str()) / 1024;
                let available_mb = parse_size_kb(toks[3].as_str()) / 1024;
                let pct = strip_trailing_char(toks[4].as_str(), '%');
                let usage_tenths = crate::text::parse_dec_tenths(pct.as_str());
                let filesystem = toks[0].clone();
                let mount_point = toks[5].clone();
                let ghost before = partition_views(parts@);
                parts.push(
                    DiskPartition {
                        mount_point,
                        filesystem,
                        total_mb,
                        used_mb,
                        available_mb,
                        usage_tenths,
                    },
                );
                proof {
                    assert(partition_views(parts@) =~= before.push(
                        partition_of_row(ls[i as int])->Some_0,
                    ));
                }
            }
            i = i + 1;
        }
        proof {
            assert(ls.subrange(1, ls.len() as int) =~= ls.skip(1));
        }
        DiskInfo { partitions: parts }
    }

    /// Reads the plain free-space report's data row.
    pub fn parse_simple_disk(text: &str) -> (r: SimpleDiskInfo)
        ensures
            r == simple_disk_spec(text@),
    {
        let lines = split_lines(text);
        let ghost ls = lines.deep_view();
        let zero = SimpleDiskInfo { total_mb: 0, used_mb: 0, available_mb: 0, usage_tenths: 0 };
        if lines.len() <= 1 {
            return zero;
        }
        let mut i: usize = 1;
        proof {
            assert(first_data_row(ls.skip(1), 6) == first_data_row(ls.skip(i as int), 6));
        }
        while i < lines.len()
            invariant
                ls == lines.deep_view(),
                ls == lines_of(text@),
                ls.len() > 1,
                lines@.len() == ls.len(),
                1 <= i <= ls.len(),
                first_data_row(ls.skip(1), 6) == first_data_row(ls.skip(i as int), 6),
            decreases ls.len() - i,
        {
            proof {
                assert(ls[i as int] == lines@[i as int]@);
            }
            let toks = tokenize(lines[i].as_str());
            if toks.len() >= 6 {
                proof {
                    assert(ls.skip(i as int)[0] == ls[i as int]);
                    assert(toks.deep_view()[1] == toks@[1]@);
                    assert(toks.deep_view()[2] == toks@[2]@);
                    assert(toks.deep_view()[3] == toks@[3]@);
                    assert(toks.deep_view()[4] == toks@[4]@);
                    assert(first_data_row(ls.skip(i as int), 6) == Some(ls[i as int]));
                }
                let total_mb = crate::text::parse_u64_or_zero(toks[1].as_str()) / 1024;
                let used_mb = crate::text::parse_u64_or_zero(toks[2].as_str()) / 1024;
                let available_mb = crate::text::parse_u64_or_zero(toks[3].as_str()) / 1024;
                let pct = strip_trailing_char(toks[4].as_str(), '%');
                let usage_tenths = crate::text::parse_dec_tenths(pct.as_str());
                return SimpleDiskInfo { total_mb, used_mb, available_mb, usage_tenths };
            }
            proof {
                assert(ls.skip(i as int).drop_first() =~= ls.skip(i + 1));
                assert(ls.skip(i as int)[0] == ls[i as int]);
            }
            i = i + 1;
        }
        proof {
            assert(ls.skip(ls.len() as int) =~= Seq::<Seq<char>>::empty());
        }
        zero
    }
}

} // verus!
