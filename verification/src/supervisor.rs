//! The process supervisor: a flat registry of spawned child processes,
//! reaped by non-blocking status polls so that no child is ever waited on
//! synchronously and no zombie accumulates.

use vstd::prelude::*;

verus! {

/// What one non-blocking status poll of a child reported.
#[derive(Clone, Copy, Debug, PartialEq, Eq, Structural)]
pub enum ChildStatus {
    /// The child is still running; it is left untouched.
    Running,
    /// The child exited; its registry entry is removed.
    Exited,
    /// The poll failed; the handle is no longer actionable and its registry
    /// entry is removed, as for an exited child.
    Error,
}

/// Whether a poll outcome leaves the child registered.
pub open spec fn keeps_child(status: ChildStatus) -> bool {
    status is Running
}

/// The process ids still registered after one reaping pass: exactly those
/// whose poll reported them running, in their original order.
pub open spec fn spec_kept(pids: Seq<u64>, statuses: Seq<ChildStatus>) -> Seq<u64>
    decreases pids.len(),
{
    if pids.len() == 0 {
        Seq::<u64>::empty()
    } else {
        let rest = spec_kept(pids.drop_first(), statuses.drop_first());
        if keeps_child(statuses[0]) {
            seq![pids[0]] + rest
        } else {
            rest
        }
    }
}

/// The registry of spawned children, by process id. The host keeps the
/// process handles themselves, in the same order, and applies the removal
/// plan this registry computes.
pub struct ProcessSupervisor {
    /// The spawned children
    pub child_processes: Vec<u64>,
}

impl View for ProcessSupervisor {
    type V = Seq<u64>;

    open spec fn view(&self) -> Seq<u64> {
        self.child_processes@
    }
}

impl ProcessSupervisor {
    /// A supervisor with no children registered.
    pub fn new() -> (r: Self)
        ensures
            r@.len() == 0,
    {
        ProcessSupervisor { child_processes: Vec::new() }
    }

    /// Registers one successfully spawned child.
    pub fn register_child(&mut self, pid: u64)
        ensures
            final(self)@ == old(self)@.push(pid),
    {
        self.child_processes.push(pid);
    }

    /// One reaping pass over the registry: entry `k` of `statuses` is what a
    /// non-blocking poll of child `k` reported. Children reported running
    /// stay registered, untouched and in order; the others are removed. The
    /// returned removal plan holds exactly the removed indexes, in strictly
    /// descending order, so the host can remove its process handles by index
    /// without disturbing the entries that stay.
    pub fn watch_children(&mut self, statuses: &Vec<ChildStatus>) -> (removed: Vec<usize>)
        requires
            statuses@.len() == old(self)@.len(),
        ensures
            final(self)@ == spec_kept(old(self)@, statuses@),
            forall|a: int, b: int|
                0 <= a < b < removed@.len() ==> removed@[a] > removed@[b],
            forall|k: int|
                0 <= k < removed@.len() ==> removed@[k] < statuses@.len() && !keeps_child(
                    statuses@[removed@[k] as int],
                ),
            forall|j: int|
                0 <= j < statuses@.len() && !keeps_child(statuses@[j]) ==> removed@.contains(
                    j as usize,
                ),
    {
        let ghost original = self@;
        let n = self.child_processes.len();
        let mut kept: Vec<u64> = Vec::new();
        let mut idx: usize = 0;
        proof {
            assert(original.skip(0) =~= original);
            assert(statuses@.skip(0) =~= statuses@);
            assert(kept@ + spec_kept(original, statuses@) =~= spec_kept(original, statuses@));
        }
        while idx < n
            invariant
                idx <= n,
                n == self.child_processes@.len(),
                *self == *old(self),
                n == statuses@.len(),
                original == self@,
                spec_kept(original, statuses@) == kept@ + spec_kept(
                    original.skip(idx as int),
                    statuses@.skip(idx as int),
                ),
            decreases n - idx,
        {
            let ghost rest_pids = original.skip(idx as int);
            let ghost rest_statuses = statuses@.skip(idx as int);
            proof {
                assert(rest_pids[0] == original[idx as int]);
                assert(rest_statuses[0] == statuses@[idx as int]);
                assert(rest_pids.drop_first() =~= original.skip(idx as int + 1));
                assert(rest_statuses.drop_first() =~= statuses@.skip(idx as int + 1));
            }
            let pid = self.child_processes[idx];
            let ghost kept_before = kept@;
            match statuses[idx] {
                ChildStatus::Running => {
                    kept.push(pid);
                    proof {
                        assert(kept_before + (seq![pid] + spec_kept(
                            original.skip(idx as int + 1),
                            statuses@.skip(idx as int + 1),
                        )) =~= kept@ + spec_kept(
                            original.skip(idx as int + 1),
                            statuses@.skip(idx as int + 1),
                        ));
                    }
                },
                _ => {},
            }
            idx = idx + 1;
        }
        proof {
            assert(original.skip(n as int) =~= Seq::<u64>::empty());
            assert(statuses@.skip(n as int) =~= Seq::<ChildStatus>::empty());
            assert(kept@ + Seq::<u64>::empty() =~= kept@);
        }
        self.child_processes = kept;
        let mut removed: Vec<usize> = Vec::new();
        let mut back: usize = n;
        while back > 0
            invariant
                back <= n,
                n == statuses@.len(),
                forall|a: int, b: int|
                    0 <= a < b < removed@.len() ==> removed@[a] > removed@[b],
                forall|k: int|
                    0 <= k < removed@.len() ==> back <= removed@[k] < statuses@.len()
                        && !keeps_child(statuses@[removed@[k] as int]),
                forall|j: int|
                    back <= j < statuses@.len() && !keeps_child(statuses@[j]) ==> removed@.contains(
                        j as usize,
                    ),
            decreases back,
        {
            back = back - 1;
            let ghost removed_before = removed@;
            match statuses[back] {
                ChildStatus::Running => {},
                _ => {
                    removed.push(back);
                    proof {
                        assert(removed@[removed@.len() - 1] == back);
                        assert(forall|k: int|
                            0 <= k < removed_before.len() ==> removed@[k] == removed_before[k]);
                    }
                },
            }
            proof {
                assert forall|j: int|
                    back <= j < statuses@.len() && !keeps_child(statuses@[j]) implies removed@
                    .contains(j as usize) by {
                    if j > back {
                        assert(removed_before.contains(j as usize));
                        let w = choose|w: int|
                            0 <= w < removed_before.len() && removed_before[w] == j as usize;
                        assert(removed@[w] == j as usize);
                    }
                }
            }
        }
        removed
    }
}

} // verus!
