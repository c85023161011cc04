//! Verdicts on a batch of tool results: pass or fail for the loop.
//!
//! Every executed tool must succeed; one failure fails the batch with the
//! concrete reasons.
use vstd::prelude::*;

use crate::tools::registry::ToolResult;

verus! {

/// Verdict over one executed batch.
#[derive(Debug, Clone, PartialEq, Eq)]
pub enum ReviewVerdict {
    Pass,
    Fail(Vec<String>),
}

/// Tool name recorded in a result, or `"unknown tool"`.
pub open spec fn result_tool(r: ToolResult) -> Seq<char> {
    if r.metadata@.contains_key("tool"@) {
        r.metadata@["tool"@]
    } else {
        "unknown tool"@
    }
}

/// `"<tool> failed: <detail>"` for a failed result.
pub open spec fn failure_reason(r: ToolResult) -> Seq<char> {
    result_tool(r) + " failed: "@ + match r.error {
        Some(e) => e@,
        None => "no details"@,
    }
}

/// Reasons of the failed results, in order.
pub open spec fn failure_reasons(results: Seq<ToolResult>) -> Seq<Seq<char>>
    decreases results.len(),
{
    if results.len() == 0 {
        Seq::empty()
    } else {
        let rest = failure_reasons(results.drop_last());
        if results.last().success {
            rest
        } else {
            rest.push(failure_reason(results.last()))
        }
    }
}

/// Reason text of one failed result.
pub fn reason_of(r: &ToolResult) -> (s: String)
    ensures
        s@ == failure_reason(*r),
{
    let tool = match r.metadata.get("tool") {
        Some(t) => crate::text::owned(t.as_str()),
        None => crate::text::owned("unknown tool"),
    };
    let mut s = crate::text::concat(tool.as_str(), " failed: ");
    match &r.error {
        Some(e) => s.append(e.as_str()),
        None => s.append("no details"),
    }
    s
}

/// Judge a batch: pass when every result succeeded (an empty batch
/// passes), otherwise fail with one reason per failed result.
pub fn review(results: &[ToolResult]) -> (v: ReviewVerdict)
    ensures
        match v {
            ReviewVerdict::Pass => failure_reasons(results@).len() == 0,
            ReviewVerdict::Fail(reasons) => reasons@.len() > 0 && reasons@.map_values(
                |s: String| s@,
            ) == failure_reasons(results@),
        },
{
    let mut reasons: Vec<String> = Vec::new();
    let mut i: usize = 0;
    while i < results.len()
        invariant
            i <= results@.len(),
            reasons@.map_values(|s: String| s@) == failure_reasons(results@.take(i as int)),
        decreases results.len() - i,
    {
        proof {
            assert(results@.take(i + 1).drop_last() == results@.take(i as int));
        }
        if !results[i].success {
            let reason = reason_of(&results[i]);
            proof {
                assert(reasons@.push(reason).map_values(|s: String| s@) == reasons@.map_values(
                    |s: String| s@,
                ).push(reason@));
            }
            reasons.push(reason);
        }
        i = i + 1;
    }
    proof {
        assert(results@.take(results@.len() as int) == results@);
    }
    if reasons.len() == 0 {
        ReviewVerdict::Pass
    } else {
        ReviewVerdict::Fail(reasons)
    }
}

/// A batch passes exactly when none of its results failed.
pub proof fn law_review_passes_iff_all_succeed(results: Seq<ToolResult>)
    ensures
        (failure_reasons(results).len() == 0) == (forall|i: int|
            0 <= i < results.len() ==> (#[trigger] results[i]).success),
    decreases results.len(),
{
    if results.len() > 0 {
        law_review_passes_iff_all_succeed(results.drop_last());
        if !results.last().success {
            assert(!results[results.len() - 1].success);
        } else {
            assert forall|i: int| 0 <= i < results.len() - 1 implies (#[trigger] results[i]).success
                == results.drop_last()[i].success by {}
        }
    }
}

} // verus!
