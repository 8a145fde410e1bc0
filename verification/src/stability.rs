//! The stability tracker: holds the files pending a size-stabilization
//! check, advances their countdowns once per tick, and promotes files whose
//! size stopped changing to the execution list.

use crate::dispatch::DispatchOutcome;
use crate::dispatch::DispatchOutcomeView;
use crate::file_check::check_step;
use crate::file_check::tick_model;
use crate::file_check::FileCheck;
use crate::file_check::FileCheckView;
use vstd::prelude::*;

verus! {

/// The views of a sequence of file checks, in order.
pub open spec fn views_of(checks: Seq<FileCheck>) -> Seq<FileCheckView> {
    checks.map_values(|c: FileCheck| c@)
}

/// The files waiting for their size to stabilize, and the commands whose
/// files are ready, waiting to be executed.
pub struct StabilityTracker {
    /// The files to check
    pub file_checks: Vec<FileCheck>,
    /// The files to execute
    pub file_executions: Vec<FileCheck>,
}

/// The mathematical content of a `StabilityTracker`.
#[verifier::ext_equal]
pub struct StabilityTrackerView {
    /// The files to check
    pub checks: Seq<FileCheckView>,
    /// The files to execute
    pub executions: Seq<FileCheckView>,
}

impl View for StabilityTracker {
    type V = StabilityTrackerView;

    open spec fn view(&self) -> StabilityTrackerView {
        StabilityTrackerView {
            checks: views_of(self.file_checks@),
            executions: views_of(self.file_executions@),
        }
    }
}

/// One sweep over the pending checks, each evaluated against its observed
/// size: the checks still tracked (in order, with their new state) and the
/// checks promoted to execution (in order).
pub open spec fn spec_sweep(checks: Seq<FileCheckView>, sizes: Seq<u64>) -> (
    Seq<FileCheckView>,
    Seq<FileCheckView>,
)
    decreases checks.len(),
{
    if checks.len() == 0 {
        (Seq::<FileCheckView>::empty(), Seq::<FileCheckView>::empty())
    } else {
        let stepped = check_step(checks[0], sizes[0]);
        let rest = spec_sweep(checks.drop_first(), sizes.drop_first());
        if stepped.1 {
            (seq![stepped.0] + rest.0, rest.1)
        } else {
            (rest.0, seq![stepped.0] + rest.1)
        }
    }
}

/// A sweep never drops a check silently: every pending check either stays
/// tracked or is promoted to execution.
pub proof fn lemma_sweep_conserves_checks(checks: Seq<FileCheckView>, sizes: Seq<u64>)
    ensures
        spec_sweep(checks, sizes).0.len() + spec_sweep(checks, sizes).1.len() == checks.len(),
    decreases checks.len(),
{
    if checks.len() > 0 {
        lemma_sweep_conserves_checks(checks.drop_first(), sizes.drop_first());
    }
}

/// A tracker after one dispatched event is routed: an immediate command
/// joins the execution list, a deferred one joins the pending checks, a
/// discarded event changes nothing.
pub open spec fn spec_route(t: StabilityTrackerView, outcome: DispatchOutcomeView) -> StabilityTrackerView {
    match outcome {
        DispatchOutcomeView::Discarded => t,
        DispatchOutcomeView::Execute(fc) => StabilityTrackerView {
            executions: t.executions.push(fc),
            ..t
        },
        DispatchOutcomeView::Defer(fc) => StabilityTrackerView { checks: t.checks.push(fc), ..t },
    }
}

impl StabilityTracker {
    /// A tracker with nothing pending and nothing to execute.
    pub fn new() -> (r: Self)
        ensures
            r@.checks.len() == 0,
            r@.executions.len() == 0,
    {
        StabilityTracker { file_checks: Vec::new(), file_executions: Vec::new() }
    }

    /// Routes one dispatched event, per `spec_route`.
    pub fn route(&mut self, outcome: DispatchOutcome)
        ensures
            final(self)@ == spec_route(old(self)@, outcome@),
    {
        match outcome {
            DispatchOutcome::Discarded => {},
            DispatchOutcome::Execute(fc) => {
                self.file_executions.push(fc);
            },
            DispatchOutcome::Defer(fc) => {
                self.file_checks.push(fc);
            },
        }
        assert(final(self)@ =~= spec_route(old(self)@, outcome@));
    }

    /// Subtracts elapsed time from every pending check's countdown, once per
    /// daemon tick, leaving the execution list alone.
    pub fn file_watch_tick(&mut self, time: i64)
        ensures
            final(self)@.checks.len() == old(self)@.checks.len(),
            forall|k: int|
                0 <= k < old(self)@.checks.len() ==> final(self)@.checks[k] == tick_model(
                    old(self)@.checks[k],
                    time as int,
                ),
            final(self)@.executions == old(self)@.executions,
    {
        let ghost original = self@.checks;
        let mut ticked: Vec<FileCheck> = Vec::new();
        while self.file_checks.len() > 0
            invariant
                ticked@.len() + self.file_checks@.len() == original.len(),
                views_of(self.file_checks@) == original.skip(ticked@.len() as int),
                forall|k: int|
                    0 <= k < ticked@.len() ==> views_of(ticked@)[k] == tick_model(
                        original[k],
                        time as int,
                    ),
                self.file_executions == old(self).file_executions,
            decreases self.file_checks@.len(),
        {
            let ghost done = ticked@.len() as int;
            let ghost before = self.file_checks@;
            let mut check = self.file_checks.remove(0);
            proof {
                assert(check@ == views_of(before)[0]);
                assert(views_of(before)[0] == original.skip(done)[0]);
                assert forall|k: int|
                    0 <= k < self.file_checks@.len() implies views_of(self.file_checks@)[k]
                    == original.skip(done + 1)[k] by {
                    assert(views_of(self.file_checks@)[k] == self.file_checks@[k]@);
                    assert(self.file_checks@[k] == before[k + 1]);
                    assert(views_of(before)[k + 1] == before[k + 1]@);
                }
                assert(views_of(self.file_checks@) =~= original.skip(done + 1));
            }
            check.tick(time);
            let ghost ticked_before = ticked@;
            ticked.push(check);
            proof {
                assert forall|k: int| 0 <= k < ticked@.len() implies views_of(ticked@)[k]
                    == tick_model(original[k], time as int) by {
                    assert(views_of(ticked@)[k] == ticked@[k]@);
                    if k < done {
                        assert(ticked@[k] == ticked_before[k]);
                        assert(views_of(ticked_before)[k] == ticked_before[k]@);
                    }
                }
            }
        }
        proof {
            assert(original.skip(original.len() as int) =~= Seq::<FileCheckView>::empty());
        }
        self.file_checks = ticked;
        proof {
            assert forall|k: int|
                0 <= k < old(self)@.checks.len() implies final(self)@.checks[k] == tick_model(
                old(self)@.checks[k],
                time as int,
            ) by {
                assert(views_of(ticked@)[k] == tick_model(original[k], time as int));
            }
        }
    }

    /// Evaluates every pending check against its observed file size (entry
    /// `k` of `sizes` is the observed size of check `k`; it is read only for
    /// checks that are due). Checks whose size stopped changing move, in
    /// order, to the execution list; the others stay tracked, in order, with
    /// their new state, as `spec_sweep` says.
    pub fn file_watch(&mut self, sizes: &Vec<u64>)
        requires
            sizes@.len() == old(self)@.checks.len(),
        ensures
            final(self)@.checks == spec_sweep(old(self)@.checks, sizes@).0,
            final(self)@.executions == old(self)@.executions + spec_sweep(
                old(self)@.checks,
                sizes@,
            ).1,
    {
        let ghost original = self@.checks;
        let ghost original_executions = self@.executions;
        let mut kept: Vec<FileCheck> = Vec::new();
        let mut i: usize = 0;
        let total = sizes.len();
        proof {
            assert(original.skip(0) =~= original);
            assert(sizes@.skip(0) =~= sizes@);
            assert(views_of(kept@) + spec_sweep(original, sizes@).0 =~= spec_sweep(
                original,
                sizes@,
            ).0);
        }
        while self.file_checks.len() > 0
            invariant
                i + self.file_checks@.len() == original.len(),
                total == original.len(),
                i <= total,
                sizes@.len() == original.len(),
                views_of(self.file_checks@) == original.skip(i as int),
                spec_sweep(original, sizes@).0 == views_of(kept@) + spec_sweep(
                    original.skip(i as int),
                    sizes@.skip(i as int),
                ).0,
                original_executions + spec_sweep(original, sizes@).1 == views_of(
                    self.file_executions@,
                ) + spec_sweep(original.skip(i as int), sizes@.skip(i as int)).1,
            decreases self.file_checks@.len(),
        {
            let ghost rest_checks = original.skip(i as int);
            let ghost rest_sizes = sizes@.skip(i as int);
            proof {
                assert(rest_checks.drop_first() =~= original.skip(i as int + 1));
                assert(rest_sizes.drop_first() =~= sizes@.skip(i as int + 1));
                assert(rest_sizes[0] == sizes@[i as int]);
            }
            let ghost before = self.file_checks@;
            let mut check = self.file_checks.remove(0);
            proof {
                assert(check@ == views_of(before)[0]);
                assert(views_of(before)[0] == rest_checks[0]);
                assert forall|k: int|
                    0 <= k < self.file_checks@.len() implies views_of(self.file_checks@)[k]
                    == original.skip(i as int + 1)[k] by {
                    assert(views_of(self.file_checks@)[k] == self.file_checks@[k]@);
                    assert(self.file_checks@[k] == before[k + 1]);
                    assert(views_of(before)[k + 1] == before[k + 1]@);
                }
                assert(views_of(self.file_checks@) =~= original.skip(i as int + 1));
            }
            let changed = check.has_changed(sizes[i]);
            if changed {
                let ghost kept_before = kept@;
                kept.push(check);
                proof {
                    assert(views_of(kept@) =~= views_of(kept_before).push(check@));
                    assert(views_of(kept_before).push(check@) + spec_sweep(
                        original.skip(i as int + 1),
                        sizes@.skip(i as int + 1),
                    ).0 =~= views_of(kept_before) + (seq![check@] + spec_sweep(
                        original.skip(i as int + 1),
                        sizes@.skip(i as int + 1),
                    ).0));
                }
            } else {
                let ghost executions_before = self.file_executions@;
                self.file_executions.push(check);
                proof {
                    assert(views_of(self.file_executions@) =~= views_of(executions_before).push(
                        check@,
                    ));
                    assert(views_of(executions_before).push(check@) + spec_sweep(
                        original.skip(i as int + 1),
                        sizes@.skip(i as int + 1),
                    ).1 =~= views_of(executions_before) + (seq![check@] + spec_sweep(
                        original.skip(i as int + 1),
                        sizes@.skip(i as int + 1),
                    ).1));
                }
            }
            i = i + 1;
        }
        proof {
            assert(original.skip(original.len() as int) =~= Seq::<FileCheckView>::empty());
            assert(sizes@.skip(original.len() as int) =~= Seq::<u64>::empty());
            assert(views_of(kept@) + Seq::<FileCheckView>::empty() =~= views_of(kept@));
            assert(views_of(self.file_executions@) + Seq::<FileCheckView>::empty() =~= views_of(
                self.file_executions@,
            ));
        }
        self.file_checks = kept;
    }

    /// Hands out the commands ready to execute, in order, clearing the
    /// execution list and leaving the pending checks alone.
    pub fn take_executions(&mut self) -> (r: Vec<FileCheck>)
        ensures
            views_of(r@) == old(self)@.executions,
            final(self)@.executions.len() == 0,
            final(self)@.checks == old(self)@.checks,
    {
        let mut ready: Vec<FileCheck> = Vec::new();
        core::mem::swap(&mut ready, &mut self.file_executions);
        ready
    }
}

} // verus!
