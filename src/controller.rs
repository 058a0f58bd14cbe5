use vstd::prelude::*;

verus! {

/// The thirteen standard cgroup v1 controllers.
#[derive(Clone, Copy, Debug, PartialEq, Eq, Structural)]
pub enum V1controller {
    Cpu,
    Cpuacct,
    Cpuset,
    Memory,
    Devices,
    Freezer,
    NetCls,
    Blkio,
    PerfEvent,
    NetPrio,
    Hugetlb,
    Pids,
    Rdma,
}

/// The subdirectory, relative to the mount root, that holds a controller.
pub open spec fn segment(c: V1controller) -> Seq<char> {
    match c {
        V1controller::Cpu => "cpu/"@,
        V1controller::Cpuacct => "cpuacct/"@,
        V1controller::Cpuset => "cpuset/"@,
        V1controller::Memory => "memory/"@,
        V1controller::Devices => "devices/"@,
        V1controller::Freezer => "freezer/"@,
        V1controller::NetCls => "net_cls/"@,
        V1controller::Blkio => "blkio/"@,
        V1controller::PerfEvent => "perf_event/"@,
        V1controller::NetPrio => "net_prio/"@,
        V1controller::Hugetlb => "hugetlb/"@,
        V1controller::Pids => "pids/"@,
        V1controller::Rdma => "rdma/"@,
    }
}

impl V1controller {
    /// The controller's subdirectory name, ending in `/`.
    pub fn directory(&self) -> (r: String)
        ensures
            r@ == segment(*self),
    {
        let name = match self {
            V1controller::Cpu => "cpu/",
            V1controller::Cpuacct => "cpuacct/",
            V1controller::Cpuset => "cpuset/",
            V1controller::Memory => "memory/",
            V1controller::Devices => "devices/",
            V1controller::Freezer => "freezer/",
            V1controller::NetCls => "net_cls/",
            V1controller::Blkio => "blkio/",
            V1controller::PerfEvent => "perf_event/",
            V1controller::NetPrio => "net_prio/",
            V1controller::Hugetlb => "hugetlb/",
            V1controller::Pids => "pids/",
            V1controller::Rdma => "rdma/",
        };
        String::from_str(name)
    }
}

/// Every controller has a non-empty directory name, and no two controllers
/// share one.
pub proof fn lemma_segment_distinct(a: V1controller, b: V1controller)
    ensures
        segment(a).len() > 0,
        a != b ==> segment(a) != segment(b),
{
    reveal_strlit("cpu/");
    reveal_strlit("cpuacct/");
    reveal_strlit("cpuset/");
    reveal_strlit("memory/");
    reveal_strlit("devices/");
    reveal_strlit("freezer/");
    reveal_strlit("net_cls/");
    reveal_strlit("blkio/");
    reveal_strlit("perf_event/");
    reveal_strlit("net_prio/");
    reveal_strlit("hugetlb/");
    reveal_strlit("pids/");
    reveal_strlit("rdma/");
    if a != b {
        assert(segment(a).len() != segment(b).len() || segment(a)[0] != segment(b)[0]
            || segment(a)[1] != segment(b)[1] || segment(a)[2] != segment(b)[2]
            || segment(a)[3] != segment(b)[3] || segment(a)[4] != segment(b)[4]);
    }
}

} // verus!
