use vstd::prelude::*;
use vstd::arithmetic::div_mod::{lemma_fundamental_div_mod, lemma_div_pos_is_pos, lemma_div_nonincreasing};

verus! {

/// The sum of a sequence of sub-step sizes.
pub open spec fn seq_sum(s: Seq<i64>) -> int
    decreases s.len(),
{
    if s.len() == 0 {
        0
    } else {
        seq_sum(s.drop_last()) + s.last()
    }
}

/// The exact split of one frame: `min(num_substeps, dt)` parts of
/// `dt / parts` time units each, with the remainder folded into the first.
pub open spec fn substeps_spec(num_substeps: int, dt: int) -> Seq<i64> {
    let parts = if dt < num_substeps {
        dt
    } else {
        num_substeps
    };
    let q = dt / parts;
    let rem = dt % parts;
    Seq::new(parts as nat, |k: int| if k == 0 { (q + rem) as i64 } else { q as i64 })
}

/// Splits a requested frame timestep into sub-step sizes. The split policy is
/// an even division: as many sub-steps as configured (fewer if the frame is
/// too short to give each at least one time unit), with the remainder folded
/// into the first sub-step.
pub struct TimestepManager {
    pub num_substeps: usize,
}

impl TimestepManager {
    pub fn new() -> (r: TimestepManager)
        ensures
            r.num_substeps == 1,
    {
        TimestepManager { num_substeps: 1 }
    }

    pub fn with_substeps(num_substeps: usize) -> (r: TimestepManager)
        requires
            num_substeps >= 1,
        ensures
            r.num_substeps == num_substeps,
    {
        TimestepManager { num_substeps }
    }

    /// The sub-step sizes for one frame of length `dt`: one or more positive
    /// sizes that sum exactly to `dt`.
    pub fn substeps(&self, dt: i64) -> (r: Vec<i64>)
        requires
            self.num_substeps >= 1,
            dt >= 1,
        ensures
            r@ == substeps_spec(self.num_substeps as int, dt as int),
            r@.len() >= 1,
            r@.len() <= self.num_substeps,
            forall|k: int| 0 <= k < r@.len() ==> #[trigger] r@[k] >= 1,
            seq_sum(r@) == dt as int,
    {
        let n: i64 = if self.num_substeps as u64 > dt as u64 {
            dt
        } else {
            proof {
                assert(self.num_substeps as int <= dt as int);
            }
            self.num_substeps as i64
        };
        proof {
            assert(1 <= n <= dt);
            lemma_fundamental_div_mod(dt as int, n as int);
            lemma_div_pos_is_pos(dt as int, n as int);
            lemma_div_nonincreasing(dt as int, n as int);
        }
        let q = dt / n;
        let rem = dt % n;
        proof {
            assert(q as int + rem as int <= dt as int) by (nonlinear_arith)
                requires
                    1 <= n <= dt,
                    q >= 0,
                    dt as int == (n as int) * (q as int) + (rem as int),
                    0 <= (rem as int) < (n as int),
            ;
        }
        proof {
            assert(q >= 1) by {
                assert(dt as int / n as int >= 1) by (nonlinear_arith)
                    requires
                        1 <= n <= dt,
                        dt as int == (n as int) * (dt as int / n as int) + (dt as int % n as int),
                        0 <= (dt as int % n as int) < (n as int),
                ;
            }
        }
        let mut out: Vec<i64> = Vec::new();
        out.push(q + rem);
        proof {
            assert(seq_sum(Seq::<i64>::empty()) == 0);
            assert(out@.drop_last() =~= Seq::<i64>::empty());
            assert(seq_sum(out@.drop_last()) == 0);
            assert(out@.last() == q + rem);
            assert(seq_sum(out@) == seq_sum(out@.drop_last()) + out@.last());
        }
        let mut k: i64 = 1;
        while k < n
            invariant
                1 <= k <= n,
                n <= dt,
                q >= 1,
                rem >= 0,
                q + rem <= dt,
                out@.len() == k as int,
                forall|j: int| 0 <= j < out@.len() ==> #[trigger] out@[j] >= 1,
                out@[0] == q + rem,
                forall|j: int| 1 <= j < out@.len() ==> #[trigger] out@[j] == q,
                seq_sum(out@) == q as int + rem as int + (k as int - 1) * (q as int),
            decreases n - k,
        {
            proof {
                assert(seq_sum(out@.push(q)) == seq_sum(out@) + q as int) by {
                    assert(out@.push(q).drop_last() =~= out@);
                }
                assert((k as int) * (q as int) == (k as int - 1) * (q as int) + q as int) by (nonlinear_arith);
            }
            out.push(q);
            k = k + 1;
        }
        proof {
            assert(seq_sum(out@) == q as int + rem as int + (n as int - 1) * (q as int));
            assert((n as int) * (q as int) == (n as int - 1) * (q as int) + q as int) by (nonlinear_arith);
            assert(dt as int == (n as int) * (q as int) + rem as int);
            assert(out@ =~= substeps_spec(self.num_substeps as int, dt as int));
        }
        out
    }
}

} // verus!
