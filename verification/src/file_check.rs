//! A pending stabilization check: a file whose size is observed across a
//! countdown until it stops changing, at which point its command is due to
//! run.

use crate::sat_sub_i64;
use vstd::prelude::*;

verus! {

/// A file checker: a file path, the command to run once the file is stable,
/// the last observed size, and a countdown until the next size measurement.
#[derive(Clone)]
pub struct FileCheck {
    /// The file's path
    pub path: String,
    /// The command to execute once the file is stable
    pub cmd: String,
    /// The previously observed size of the file in bytes
    pub size: u64,
    /// Milliseconds until the next size check
    pub next_check: i64,
    /// The check interval in milliseconds
    pub check_interval: i64,
}

/// The mathematical content of a `FileCheck`.
#[verifier::ext_equal]
pub struct FileCheckView {
    /// The file's path
    pub path: Seq<char>,
    /// The command to execute once the file is stable
    pub cmd: Seq<char>,
    /// The previously observed size of the file in bytes
    pub size: u64,
    /// Milliseconds until the next size check
    pub next_check: int,
    /// The check interval in milliseconds
    pub check_interval: int,
}

impl View for FileCheck {
    type V = FileCheckView;

    open spec fn view(&self) -> FileCheckView {
        FileCheckView {
            path: self.path@,
            cmd: self.cmd@,
            size: self.size,
            next_check: self.next_check as int,
            check_interval: self.check_interval as int,
        }
    }
}

/// A check with `time` milliseconds subtracted from its countdown
/// (saturating at the ends of the `i64` range), everything else unchanged.
pub open spec fn tick_model(c: FileCheckView, time: int) -> FileCheckView {
    FileCheckView { next_check: sat_sub_i64(c.next_check, time), ..c }
}

/// One evaluation of a check against an observed file size: the new state of
/// the check and whether the file is still considered changing. A check that
/// is not yet due is left untouched and reported as changing; a due check
/// whose size is unchanged is stable (reported as not changing, to be
/// promoted to execution); a due check whose size differs records the new
/// size and restarts the full countdown.
pub open spec fn check_step(c: FileCheckView, observed_size: u64) -> (FileCheckView, bool) {
    if c.next_check > 0 {
        (c, true)
    } else if observed_size == c.size {
        (c, false)
    } else {
        (FileCheckView { size: observed_size, next_check: c.check_interval, ..c }, true)
    }
}

/// A check after a whole sequence of countdown advances.
pub open spec fn apply_ticks(c: FileCheckView, times: Seq<int>) -> FileCheckView
    decreases times.len(),
{
    if times.len() == 0 {
        c
    } else {
        apply_ticks(tick_model(c, times[0]), times.drop_first())
    }
}

impl FileCheck {
    /// Creates a new file checker with no size observed yet and a full
    /// countdown ahead of it.
    pub fn new(path: &str, check_interval: i64, cmd: &str) -> (r: Self)
        ensures
            r@ == (FileCheckView {
                path: path@,
                cmd: cmd@,
                size: 0u64,
                next_check: check_interval as int,
                check_interval: check_interval as int,
            }),
    {
        Self {
            path: path.to_owned(),
            size: 0,
            next_check: check_interval,
            check_interval,
            cmd: cmd.to_owned(),
        }
    }

    /// Removes elapsed time from the countdown until the next size check.
    pub fn tick(&mut self, time: i64)
        ensures
            final(self)@ == tick_model(old(self)@, time as int),
    {
        self.next_check = crate::i64_sat_sub(self.next_check, time);
        assert(final(self)@ =~= tick_model(old(self)@, time as int));
    }

    /// Whether the countdown has expired, so that the file's size is due to
    /// be measured.
    pub fn is_due(&self) -> (r: bool)
        ensures
            r == (self@.next_check <= 0),
    {
        self.next_check <= 0
    }

    /// Evaluates the check against the currently observed size of the file
    /// (a missing or unreadable file is observed as size 0). Returns whether
    /// the file is still considered changing; `false` means the file is
    /// stable and its command may run.
    pub fn has_changed(&mut self, observed_size: u64) -> (r: bool)
        ensures
            final(self)@ == check_step(old(self)@, observed_size).0,
            r == check_step(old(self)@, observed_size).1,
    {
        if self.next_check > 0 {
            return true;
        }
        if observed_size == self.size {
            return false;
        }
        self.size = observed_size;
        self.next_check = self.check_interval;
        assert(final(self)@ =~= check_step(old(self)@, observed_size).0);
        true
    }
}

/// Advancing the countdown never changes the file path, the command, the
/// recorded size or the configured interval.
pub proof fn lemma_ticks_preserve_observation(c: FileCheckView, times: Seq<int>)
    ensures
        apply_ticks(c, times).path == c.path,
        apply_ticks(c, times).cmd == c.cmd,
        apply_ticks(c, times).size == c.size,
        apply_ticks(c, times).check_interval == c.check_interval,
    decreases times.len(),
{
    if times.len() > 0 {
        lemma_ticks_preserve_observation(tick_model(c, times[0]), times.drop_first());
    }
}

/// Debounce idempotence: however many countdown advances a check has seen,
/// as soon as it is due and its observed size equals the recorded one, a
/// single evaluation promotes it to execution, leaving the check unchanged.
pub proof fn lemma_debounce_idempotence(c: FileCheckView, times: Seq<int>)
    requires
        apply_ticks(c, times).next_check <= 0,
    ensures
        check_step(apply_ticks(c, times), c.size).1 == false,
        check_step(apply_ticks(c, times), c.size).0 == apply_ticks(c, times),
{
    lemma_ticks_preserve_observation(c, times);
}

/// A check is never promoted to execution before its countdown reaches zero
/// or below.
pub proof fn lemma_no_early_execution(c: FileCheckView, observed_size: u64)
    requires
        c.next_check > 0,
    ensures
        check_step(c, observed_size).1 == true,
        check_step(c, observed_size).0 == c,
{
}

/// Debounce reset: a due check that observes a changed size records the new
/// size and restarts the countdown at the full configured interval, not at
/// zero.
pub proof fn lemma_debounce_reset(c: FileCheckView, observed_size: u64)
    requires
        c.next_check <= 0,
        observed_size != c.size,
    ensures
        check_step(c, observed_size).1 == true,
        check_step(c, observed_size).0.next_check == c.check_interval,
        check_step(c, observed_size).0.size == observed_size,
        check_step(c, observed_size).0.path == c.path,
        check_step(c, observed_size).0.cmd == c.cmd,
{
}

} // verus!
