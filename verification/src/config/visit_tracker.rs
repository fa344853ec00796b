use vstd::prelude::*;

verus! {

broadcast use vstd::seq_lib::group_seq_properties;

/// The filesystem identity of a file or directory: the device and file
/// serial numbers that resolving a path yields. Two paths of the same
/// identity name the same physical object, however they are spelled —
/// directly, relatively, or through a symbolic link.
#[derive(Debug, Clone, Copy, PartialEq, Eq, Structural, Hash)]
pub struct FileIdentity {
    /// The identifier of the device the object lives on.
    pub device: u64,
    /// The serial number of the object on that device.
    pub index: u64,
}

/// Tracks the directories already visited during a configuration scan,
/// by filesystem identity rather than by path text.
#[derive(Debug)]
pub struct VisitTracker {
    visited: Vec<FileIdentity>,
}

impl View for VisitTracker {
    type V = Set<FileIdentity>;

    closed spec fn view(&self) -> Set<FileIdentity> {
        self.visited@.to_set()
    }
}

impl Default for VisitTracker {
    /// A tracker that has visited nothing.
    fn default() -> (r: Self)
        ensures
            r@ == Set::<FileIdentity>::empty(),
    {
        let r = VisitTracker { visited: Vec::new() };
        proof {
            assert(r@ =~= Set::<FileIdentity>::empty());
        }
        r
    }
}

impl VisitTracker {
    fn seen(&self, id: FileIdentity) -> (r: bool)
        ensures
            r == self@.contains(id),
    {
        let n = self.visited.len();
        let mut i: usize = 0;
        while i < n
            invariant
                0 <= i <= n,
                n == self.visited@.len(),
                forall|j: int| 0 <= j < i ==> self.visited@[j] != id,
            decreases n - i,
        {
            if self.visited[i] == id {
                proof {
                    assert(self.visited@.contains(id));
                }
                return true;
            }
            i += 1;
        }
        proof {
            assert(!self.visited@.contains(id));
        }
        false
    }

    /// Records the directory that holds a file, given by identity; reports
    /// whether that directory was already visited. A file without a parent
    /// directory is not tracked and counts as unvisited.
    pub fn track_file_path(&mut self, parent: Option<FileIdentity>) -> (visited: bool)
        ensures
            match parent {
                Some(id) => visited == old(self)@.contains(id) && final(self)@ == old(
                    self,
                )@.insert(id),
                None => visited == false && final(self)@ == old(self)@,
            },
    {
        match parent {
            Some(id) => self.track_directory(id),
            None => false,
        }
    }

    /// Records a directory by identity; reports whether it was already
    /// visited, so that a directory reached a second time — under any
    /// other path — is not handled again.
    pub fn track_directory(&mut self, dir: FileIdentity) -> (visited: bool)
        ensures
            visited == old(self)@.contains(dir),
            final(self)@ == old(self)@.insert(dir),
    {
        if self.seen(dir) {
            proof {
                assert(self@ =~= old(self)@.insert(dir));
            }
            true
        } else {
            self.visited.push(dir);
            proof {
                assert(self@ =~= old(self)@.insert(dir));
            }
            false
        }
    }
}

/// However a directory is reached again — directly or through a symbolic
/// link that resolves to the same identity — a tracker that has once
/// tracked it reports every later visit, so the directory is handled
/// exactly once.
pub proof fn lemma_directory_tracked_once(before: Set<FileIdentity>, id: FileIdentity)
    ensures
        before.insert(id).contains(id),
        !before.contains(id) ==> (before.insert(id) - before =~= Set::empty().insert(id)),
{
}

} // verus!
