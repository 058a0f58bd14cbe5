use vstd::prelude::*;

use crate::capture::{Capture, Phase};
use crate::controller::V1controller;

verus! {

/// The conventional mount point of the cgroup v1 hierarchy.
pub open spec fn default_root() -> Seq<char> {
    "/sys/fs/cgroup/"@
}

/// Joins a relative segment to a directory path, adding a separator unless
/// the directory is empty or already ends in one.
pub open spec fn join_path(root: Seq<char>, seg: Seq<char>) -> Seq<char> {
    if root.len() == 0 || root.last() == '/' {
        root + seg
    } else {
        root + seq!['/'] + seg
    }
}

/// The contents of a snapshot: one capture group per collection.
pub open spec fn groups_of(v: Seq<Vec<Vec<u8>>>) -> Seq<Seq<Seq<u8>>> {
    v.map_values(|g: Vec<Vec<u8>>| crate::capture::blobs_of(g@))
}

/// A snapshot after the given capture groups were appended one by one.
pub open spec fn appended(
    snapshot: Seq<Seq<Seq<u8>>>,
    groups: Seq<Seq<Seq<u8>>>,
) -> Seq<Seq<Seq<u8>>>
    decreases groups.len(),
{
    if groups.len() == 0 {
        snapshot
    } else {
        appended(snapshot, groups.drop_last()).push(groups.last())
    }
}

/// Each collection appends exactly one capture group: after N collections
/// on a fresh snapshot, in any mix of controllers and with any number of
/// blobs each, the snapshot holds those N groups in order.
pub proof fn lemma_one_group_per_collection(groups: Seq<Seq<Seq<u8>>>)
    ensures
        appended(Seq::empty(), groups) == groups,
        appended(Seq::empty(), groups).len() == groups.len(),
    decreases groups.len(),
{
    if groups.len() > 0 {
        lemma_one_group_per_collection(groups.drop_last());
        assert(groups.drop_last().push(groups.last()) =~= groups);
    } else {
        assert(groups =~= Seq::<Seq<Seq<u8>>>::empty());
    }
}

/// The root of the cgroup v1 filesystem hierarchy.
pub struct Cgroup {
    pub filesystem: String,
}

impl Cgroup {
    /// A resolver for the conventional mount point. No I/O is done.
    pub fn init() -> (r: Cgroup)
        ensures
            r.filesystem@ == default_root(),
    {
        Cgroup { filesystem: String::from_str("/sys/fs/cgroup/") }
    }
}

/// An append-only snapshot of captured controller directories.
pub struct Subsystem {
    pub state: Vec<Vec<Vec<u8>>>,
    hierarchy: String,
}

impl Subsystem {
    /// The mount root that controller directories are resolved against.
    pub closed spec fn root(&self) -> Seq<char> {
        self.hierarchy@
    }

    /// The captured groups, oldest first.
    pub closed spec fn snapshot(&self) -> Seq<Seq<Seq<u8>>> {
        groups_of(self.state@)
    }

    /// An empty snapshot bound to the resolver's mount root. No I/O is done.
    pub fn init(cgroup: &Cgroup) -> (r: Subsystem)
        ensures
            r.snapshot().len() == 0,
            r.root() == cgroup.filesystem@,
    {
        Subsystem { state: Vec::new(), hierarchy: cgroup.filesystem.clone() }
    }

    /// The mount root this snapshot resolves controller directories against.
    pub fn hierarchy(&self) -> (r: &String)
        ensures
            r@ == self.root(),
    {
        &self.hierarchy
    }

    /// The directory that holds a controller's files.
    pub fn controller_path(&self, controller: &V1controller) -> (r: String)
        ensures
            r@ == join_path(self.root(), crate::controller::segment(*controller)),
    {
        let mut path = self.hierarchy.clone();
        let n = path.as_str().unicode_len();
        if n > 0 && path.as_str().get_char(n - 1) != '/' {
            path.append("/");
            proof {
                reveal_strlit("/");
            }
        }
        let name = controller.directory();
        path.append(name.as_str());
        path
    }

    /// Appends a finished capture group as the newest element.
    pub fn finish(&mut self, capture: Capture)
        requires
            capture@.phase == Phase::Done,
        ensures
            final(self).snapshot() == old(self).snapshot().push(capture@.blobs),
            final(self).root() == old(self).root(),
    {
        let ghost before = groups_of(self.state@);
        let group = capture.into_blobs();
        let ghost g = crate::capture::blobs_of(group@);
        self.state.push(group);
        assert(groups_of(self.state@) =~= before.push(g));
    }
}

} // verus!
