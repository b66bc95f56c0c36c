//! The switches of the statistics command and the reports they ask for.
use vstd::prelude::*;

verus! {

/// The command-line switches of the statistics tool: each asks for one
/// report.
#[derive(Debug, Clone, Copy, PartialEq, Eq)]
pub struct MisskeyStatsArguments {
    /// Display information about disk.
    pub disk_io: bool,
    /// Display information about memory.
    pub memory_info: bool,
    /// Display information about network.
    pub network_info: bool,
    /// Display information about disk space.
    pub disk_space_info: bool,
}

/// One report of the statistics tool.
#[derive(Debug, Clone, Copy, PartialEq, Eq)]
pub enum Report {
    DiskIo,
    MemoryInfo,
    NetworkInfo,
    DiskSpaceInfo,
}

/// `seq![report]` when `wanted`, else nothing.
pub open spec fn if_wanted(wanted: bool, report: Report) -> Seq<Report> {
    if wanted {
        seq![report]
    } else {
        Seq::empty()
    }
}

/// The reports that `args` ask for, in the order they are printed: disk
/// operations, memory, network, disk space.
pub open spec fn requested(args: MisskeyStatsArguments) -> Seq<Report> {
    if_wanted(args.disk_io, Report::DiskIo) + if_wanted(args.memory_info, Report::MemoryInfo)
        + if_wanted(args.network_info, Report::NetworkInfo) + if_wanted(
        args.disk_space_info,
        Report::DiskSpaceInfo,
    )
}

impl MisskeyStatsArguments {
    /// The reports asked for, in the order they are printed.
    pub fn requested_reports(&self) -> (r: Vec<Report>)
        ensures
            r@ == requested(*self),
    {
        let mut r: Vec<Report> = Vec::new();
        if self.disk_io {
            r.push(Report::DiskIo);
        }
        assert(r@ =~= if_wanted(self.disk_io, Report::DiskIo));
        if self.memory_info {
            r.push(Report::MemoryInfo);
        }
        assert(r@ =~= if_wanted(self.disk_io, Report::DiskIo) + if_wanted(
            self.memory_info,
            Report::MemoryInfo,
        ));
        if self.network_info {
            r.push(Report::NetworkInfo);
        }
        assert(r@ =~= if_wanted(self.disk_io, Report::DiskIo) + if_wanted(
            self.memory_info,
            Report::MemoryInfo,
        ) + if_wanted(self.network_info, Report::NetworkInfo));
        if self.disk_space_info {
            r.push(Report::DiskSpaceInfo);
        }
        assert(r@ =~= requested(*self));
        r
    }
}

/// The position of each report in the printed order.
pub open spec fn report_rank(r: Report) -> int {
    match r {
        Report::DiskIo => 0,
        Report::MemoryInfo => 1,
        Report::NetworkInfo => 2,
        Report::DiskSpaceInfo => 3,
    }
}

/// Each report is asked for exactly when its own switch is on, whatever the
/// other switches are; the reports come once each, in the order disk
/// operations, memory, network, disk space.
pub proof fn lemma_reports_follow_switches(args: MisskeyStatsArguments)
    ensures
        requested(args).contains(Report::DiskIo) <==> args.disk_io,
        requested(args).contains(Report::MemoryInfo) <==> args.memory_info,
        requested(args).contains(Report::NetworkInfo) <==> args.network_info,
        requested(args).contains(Report::DiskSpaceInfo) <==> args.disk_space_info,
        forall|i: int, j: int|
            0 <= i < j < requested(args).len() ==> report_rank(requested(args)[i]) < report_rank(
                requested(args)[j],
            ),
{
    let r = requested(args);
    let w0 = if_wanted(args.disk_io, Report::DiskIo);
    let w1 = if_wanted(args.memory_info, Report::MemoryInfo);
    let w2 = if_wanted(args.network_info, Report::NetworkInfo);
    let w3 = if_wanted(args.disk_space_info, Report::DiskSpaceInfo);
    assert(r == w0 + w1 + w2 + w3);
    assert forall|x: Report| r.contains(x) <==> (w0.contains(x) || w1.contains(x) || w2.contains(x)
        || w3.contains(x)) by {
        if r.contains(x) {
            let k = choose|k: int| 0 <= k < r.len() && r[k] == x;
            if k < w0.len() {
                assert(w0[k] == x);
            } else if k < w0.len() + w1.len() {
                assert(w1[k - w0.len()] == x);
            } else if k < w0.len() + w1.len() + w2.len() {
                assert(w2[k - w0.len() - w1.len()] == x);
            } else {
                assert(w3[k - w0.len() - w1.len() - w2.len()] == x);
            }
        }
        if w0.contains(x) {
            assert(r[0] == x);
        }
        if w1.contains(x) {
            assert(r[w0.len() as int] == x);
        }
        if w2.contains(x) {
            assert(r[(w0.len() + w1.len()) as int] == x);
        }
        if w3.contains(x) {
            assert(r[(w0.len() + w1.len() + w2.len()) as int] == x);
        }
    }
    assert(w0.contains(Report::DiskIo) <==> args.disk_io) by {
        if args.disk_io {
            assert(w0[0] == Report::DiskIo);
        }
    }
    assert(w1.contains(Report::MemoryInfo) <==> args.memory_info) by {
        if args.memory_info {
            assert(w1[0] == Report::MemoryInfo);
        }
    }
    assert(w2.contains(Report::NetworkInfo) <==> args.network_info) by {
        if args.network_info {
            assert(w2[0] == Report::NetworkInfo);
        }
    }
    assert(w3.contains(Report::DiskSpaceInfo) <==> args.disk_space_info) by {
        if args.disk_space_info {
            assert(w3[0] == Report::DiskSpaceInfo);
        }
    }
    assert forall|i: int| 0 <= i < r.len() implies report_rank(#[trigger] r[i]) == (if i < w0.len() {
        0
    } else if i < w0.len() + w1.len() {
        1
    } else if i < w0.len() + w1.len() + w2.len() {
        2
    } else {
        3int
    }) by {
        if i < w0.len() {
            assert(r[i] == w0[i]);
        } else if i < w0.len() + w1.len() {
            assert(r[i] == w1[i - w0.len()]);
        } else if i < w0.len() + w1.len() + w2.len() {
            assert(r[i] == w2[i - w0.len() - w1.len()]);
        } else {
            assert(r[i] == w3[i - w0.len() - w1.len() - w2.len()]);
        }
    }
}

} // verus!
