//! The self test, step by step on the screen.

use super::display::{self, render_self_test, DrawOp};
use super::self_test::{SelfTestItem, SelfTestReport, SelfTestStatus};
use vstd::prelude::*;

verus! {

/// Milliseconds that each step stays on the screen.
pub const STEP_DELAY_MS: u64 = 120;

/// Records a result and draws the self test screen.
pub fn step(report: &mut SelfTestReport, item: SelfTestItem, status: SelfTestStatus) -> (ops: Vec<
    DrawOp<String>,
>)
    ensures
        forall|other: SelfTestItem| #[trigger]
            final(report).status(other) == (if other == item {
                status
            } else {
                old(report).status(other)
            }),
        display::shown_all(ops@) == display::self_test_plan(*final(report)),
{
    report.mark(item, status);
    render_self_test(report)
}

/// Draws the self test screen.
pub fn refresh(report: &SelfTestReport) -> (ops: Vec<DrawOp<String>>)
    ensures
        display::shown_all(ops@) == display::self_test_plan(*report),
{
    render_self_test(report)
}

} // verus!
