//! Progress accounting for the payload copy.
//!
//! While one application's payload directory is being copied, the underlying
//! copy primitive reports `(copied, total)` byte counts. The engine turns
//! each report into an integer in `0..=10000` (hundredths of a percent) and
//! never lets the displayed value regress, even if reports arrive out of
//! order.

use vstd::arithmetic::div_mod::{
    lemma_div_is_ordered, lemma_div_pos_is_pos, lemma_multiply_divide_lt,
};
use vstd::prelude::*;

verus! {

/// The fraction `copied / total` scaled to `0..=10000` and rounded down.
/// An empty payload (`total == 0`) counts as complete, as does any report
/// of `copied >= total`.
pub open spec fn progress_spec(copied: u64, total: u64) -> int {
    if total == 0 || copied >= total {
        10000
    } else {
        (copied * 10000) / (total as int)
    }
}

/// The scaled progress value is always within `0..=10000`.
pub proof fn lemma_progress_in_range(copied: u64, total: u64)
    ensures
        0 <= progress_spec(copied, total) <= 10000,
{
    if total != 0 && copied < total {
        lemma_div_pos_is_pos(copied * 10000, total as int);
        lemma_multiply_divide_lt(copied * 10000, total as int, 10000);
    }
}

/// For a fixed total, progress is monotone in the number of copied bytes:
/// a later (larger) report never yields a smaller value than an earlier one.
pub proof fn lemma_progress_monotone(copied1: u64, copied2: u64, total: u64)
    requires
        copied1 <= copied2,
    ensures
        progress_spec(copied1, total) <= progress_spec(copied2, total),
{
    lemma_progress_in_range(copied1, total);
    if total != 0 && copied2 < total {
        lemma_div_is_ordered(copied1 * 10000, copied2 * 10000, total as int);
    }
}

/// A copy that has not started reports 0; a finished copy reports 10000.
pub proof fn lemma_progress_endpoints(total: u64)
    requires
        total > 0,
    ensures
        progress_spec(0, total) == 0,
        progress_spec(total, total) == 10000,
{
    lemma_progress_in_range(0, total);
    vstd::arithmetic::div_mod::lemma_small_div_converse(0, total as int);
    if progress_spec(0, total) != 0 {
        assert(0 * 10000 == 0);
    }
}

/// One `(copied, total)` byte report scaled to `0..=10000`.
pub fn progress_percentage(copied: u64, total: u64) -> (r: u64)
    ensures
        r == progress_spec(copied, total),
{
    if total == 0 || copied >= total {
        10000
    } else {
        let numerator: u128 = (copied as u128) * 10000;
        let quotient: u128 = numerator / (total as u128);
        proof {
            lemma_progress_in_range(copied, total);
        }
        quotient as u64
    }
}

/// The displayed progress of a single item: the running maximum of all
/// reports seen so far, so that out-of-order reports never move it back.
pub struct ProgressGauge {
    pub shown: u64,
}

impl ProgressGauge {
    /// A fresh gauge, displaying 0; the display is reset between items.
    pub fn new() -> (g: ProgressGauge)
        ensures
            g.shown == 0,
    {
        ProgressGauge { shown: 0 }
    }

    /// Fold one report into the gauge and return the value to display:
    /// the report's scaled value, unless a higher one was already shown.
    pub fn update(&mut self, copied: u64, total: u64) -> (r: u64)
        ensures
            final(self).shown == if progress_spec(copied, total) > old(self).shown {
                progress_spec(copied, total)
            } else {
                old(self).shown as int
            },
            final(self).shown >= old(self).shown,
            r == final(self).shown,
    {
        let p = progress_percentage(copied, total);
        if p > self.shown {
            self.shown = p;
        }
        self.shown
    }
}

} // verus!
