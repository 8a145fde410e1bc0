//! Core logic of a directory-watching daemon: watch-list reconciliation
//! across configuration reloads, event dispatch with command-template
//! rendering, file-size stabilization (debounce) before execution, and
//! non-blocking supervision of spawned children.
//!
//! All I/O (inotify, signals, file metadata, process spawning) lives in the
//! host around this library; the library computes every decision from plain
//! values and states what it computes in contracts.

pub mod dispatch;
pub mod file_check;
pub mod rincron;
pub mod stability;
pub mod supervisor;
pub mod text;
pub mod watch_element;
pub mod watch_manager;

use vstd::prelude::*;

verus! {

/// Saturating subtraction over the range of `i64`, the arithmetic used when
/// a stabilization countdown is advanced.
pub open spec fn sat_sub_i64(a: int, b: int) -> int {
    if a - b < i64::MIN as int {
        i64::MIN as int
    } else if a - b > i64::MAX as int {
        i64::MAX as int
    } else {
        a - b
    }
}

/// Saturating multiplication over the range of `i64`, the arithmetic used
/// when a configured interval in seconds becomes milliseconds.
pub open spec fn sat_mul_i64(a: int, b: int) -> int {
    if a * b < i64::MIN as int {
        i64::MIN as int
    } else if a * b > i64::MAX as int {
        i64::MAX as int
    } else {
        a * b
    }
}

/// Executable saturating subtraction matching `sat_sub_i64`.
pub fn i64_sat_sub(a: i64, b: i64) -> (r: i64)
    ensures
        r as int == sat_sub_i64(a as int, b as int),
{
    match a.checked_sub(b) {
        Some(v) => v,
        None => {
            if b > 0 {
                i64::MIN
            } else {
                i64::MAX
            }
        },
    }
}

/// Executable saturating multiplication matching `sat_mul_i64`.
pub fn i64_sat_mul(a: i64, b: i64) -> (r: i64)
    ensures
        r as int == sat_mul_i64(a as int, b as int),
{
    match a.checked_mul(b) {
        Some(v) => v,
        None => {
            proof {
                lemma_mul_sign(a as int, b as int);
            }
            if (a > 0) == (b > 0) {
                i64::MAX
            } else {
                i64::MIN
            }
        },
    }
}

/// The sign of a product follows the signs of its factors.
proof fn lemma_mul_sign(a: int, b: int)
    by (nonlinear_arith)
    ensures
        (a > 0 && b > 0) ==> a * b > 0,
        (a <= 0 && b <= 0) ==> a * b >= 0,
        (a > 0 && b <= 0) ==> a * b <= 0,
        (a <= 0 && b > 0) ==> a * b <= 0,
{
}

} // verus!
