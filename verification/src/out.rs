//! The human-facing summary: one row per project, with a pass/fail marker
//! per check. Purely a projection of a run set.

use vstd::prelude::*;
use vstd::string::StringExecFns;
use crate::ci::RunResults;

verus! {

/// The marker a check's outcome is rendered as.
pub open spec fn mark_of(passed: bool) -> Seq<char> {
    if passed {
        "pass"@
    } else {
        "fail"@
    }
}

/// One summary row: the project's path and the three markers.
pub open spec fn row_of(r: RunResults) -> Seq<char> {
    r.path@ + ": fmt "@ + mark_of(r.fmt) + " clippy "@ + mark_of(r.clippy) + " test "@ + mark_of(
        r.test,
    ) + "\n"@
}

/// The whole summary: the rows in run-set order.
pub open spec fn summary_of(rs: Seq<RunResults>) -> Seq<char>
    decreases rs.len(),
{
    if rs.len() == 0 {
        Seq::empty()
    } else {
        summary_of(rs.drop_last()) + row_of(rs.last())
    }
}

/// Render the run set as a table, one row per project in run-set order.
/// Deterministic: the run set alone decides the rendering.
pub fn ci_results(results: &Vec<RunResults>) -> (s: String)
    ensures
        s@ == summary_of(results@),
{
    let mut s = String::new();
    proof {
        assert(results@.take(0) =~= Seq::<RunResults>::empty());
        assert(s@ =~= summary_of(results@.take(0)));
    }
    let mut i: usize = 0;
    while i < results.len()
        invariant
            0 <= i <= results@.len(),
            s@ == summary_of(results@.take(i as int)),
        decreases results@.len() - i,
    {
        proof {
            assert(results@.take(i as int + 1).drop_last() =~= results@.take(i as int));
            assert(results@.take(i as int + 1).last() == results@[i as int]);
        }
        let r = &results[i];
        s.append(r.path.as_str());
        s.append(": fmt ");
        if r.fmt {
            s.append("pass");
        } else {
            s.append("fail");
        }
        s.append(" clippy ");
        if r.clippy {
            s.append("pass");
        } else {
            s.append("fail");
        }
        s.append(" test ");
        if r.test {
            s.append("pass");
        } else {
            s.append("fail");
        }
        s.append("\n");
        proof {
            assert(s@ =~= summary_of(results@.take(i as int + 1)));
        }
        i += 1;
    }
    proof {
        assert(results@.take(results@.len() as int) =~= results@);
    }
    s
}

} // verus!
