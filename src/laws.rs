//! Properties of the flow controller that hold across ticks.

use crate::controller::{
    lemma_seeded_steps_append, seeded_steps, step_count, tick_relation, yields_jobs,
};
use crate::dispatch::dealt;
use crate::model::{FlowStep, JobStatus};
use crate::store::{seeded_flow, JobStepView, Store};
use vstd::prelude::*;

verus! {

/// A tick creates no job for a flow that is inactive when it starts.
pub proof fn lemma_inactive_flow_gets_no_jobs(before: Store, after: Store, now: i64, i: int)
    requires
        before.wf(),
        tick_relation(before, after, now),
        0 <= i < before.flows@.len(),
        !before.flows@[i].is_active,
    ensures
        forall|k: int|
            before.jobs@.len() <= k < after.jobs@.len() ==> #[trigger] after.jobs@[k].flow_id
                != before.flows@[i].id,
{
    assert forall|k: int| before.jobs@.len() <= k < after.jobs@.len() implies #[trigger] after.jobs@[k].flow_id
        != before.flows@[i].id by {
        let fid = after.jobs@[k].flow_id;
        assert(yields_jobs(before.flows@[fid - 1]));
        assert(before.flows@[fid - 1].id == fid);
    }
}

/// A tick creates no job for a flow whose run flag is set when it starts.
pub proof fn lemma_run_flow_gets_no_jobs(before: Store, after: Store, now: i64, i: int)
    requires
        before.wf(),
        tick_relation(before, after, now),
        0 <= i < before.flows@.len(),
        before.flows@[i].run_flg,
    ensures
        forall|k: int|
            before.jobs@.len() <= k < after.jobs@.len() ==> #[trigger] after.jobs@[k].flow_id
                != before.flows@[i].id,
{
    assert forall|k: int| before.jobs@.len() <= k < after.jobs@.len() implies #[trigger] after.jobs@[k].flow_id
        != before.flows@[i].id by {
        let fid = after.jobs@[k].flow_id;
        assert(yields_jobs(before.flows@[fid - 1]));
        assert(before.flows@[fid - 1].id == fid);
    }
}

/// Seeding is idempotent: a second tick, at any time, leaves the jobs of
/// the first one exactly as they are.
pub proof fn lemma_second_tick_keeps_jobs(s0: Store, s1: Store, s2: Store, t1: i64, t2: i64)
    requires
        s0.wf(),
        tick_relation(s0, s1, t1),
        tick_relation(s1, s2, t2),
    ensures
        s2.jobs@ == s1.jobs@,
{
    assert forall|i: int| 0 <= i < s1.flows@.len() implies !yields_jobs(
        #[trigger] s1.flows@[i],
    ) by {
        let f0 = s0.flows@[i];
        if yields_jobs(s1.flows@[i]) {
            if s1.flows@[i] == f0 {
                assert(yields_jobs(f0));
                assert(s1.flows@[i] == seeded_flow(f0, t1));
            }
        }
    }
    if s2.jobs@.len() > s1.jobs@.len() {
        let k = s1.jobs@.len() as int;
        let fid = s2.jobs@[k].flow_id;
        assert(yields_jobs(s1.flows@[fid - 1]));
    }
    assert forall|k: int| 0 <= k < s1.jobs@.len() implies #[trigger] s2.jobs@[k] == s1.jobs@[k] by {
        assert(s1.jobs@[k].status != JobStatus::New);
    }
    assert(s2.jobs@ =~= s1.jobs@);
}

/// A job whose steps are all inserted, and which had none before, ends
/// with exactly one step per flow step of its flow.
pub proof fn lemma_seeded_job_step_count(
    steps: Seq<JobStepView>,
    job_id: i32,
    fss: Seq<FlowStep>,
    now: i64,
    n_jobs: int,
    n_flow_steps: int,
)
    requires
        step_count(steps, job_id) == 0,
        seeded_steps(steps, job_id, fss, now, n_jobs, n_flow_steps).len() - steps.len()
            == fss.len(),
    ensures
        step_count(seeded_steps(steps, job_id, fss, now, n_jobs, n_flow_steps), job_id)
            == fss.len(),
{
    lemma_seeded_steps_append(steps, job_id, fss, now, n_jobs, n_flow_steps);
}

/// Every `n`-th item of `items`, starting with the one at index `r`.
pub open spec fn every_nth<T>(items: Seq<T>, n: int, r: int) -> Seq<T>
    decreases items.len(),
{
    if items.len() == 0 {
        Seq::empty()
    } else if r == 0 {
        seq![items[0]] + every_nth(items.drop_first(), n, n - 1)
    } else {
        every_nth(items.drop_first(), n, r - 1)
    }
}

/// How far queue `q` comes after queue `c` in round-robin order over `n`
/// queues.
pub open spec fn queue_offset(q: int, c: int, n: int) -> int {
    if q >= c {
        q - c
    } else {
        q + n - c
    }
}

/// Round-robin dealing from queue `c` appends to queue `q`, in their
/// order, every `n`-th item starting with item `queue_offset(q, c, n)`.
pub proof fn lemma_round_robin_shares<T>(queues: Seq<Seq<T>>, items: Seq<T>, c: int)
    requires
        0 <= c < queues.len(),
    ensures
        dealt(queues, items, c).len() == queues.len(),
        forall|q: int|
            0 <= q < queues.len() ==> #[trigger] dealt(queues, items, c)[q] == queues[q]
                + every_nth(items, queues.len() as int, queue_offset(q, c, queues.len() as int)),
    decreases items.len(),
{
    let n = queues.len() as int;
    if items.len() > 0 {
        let next = queues.update(c, queues[c].push(items[0]));
        let c2 = (c + 1) % n;
        if c + 1 < n {
            vstd::arithmetic::div_mod::lemma_small_mod((c + 1) as nat, n as nat);
        } else {
            vstd::arithmetic::div_mod::lemma_mod_self_0(n);
        }
        lemma_round_robin_shares(next, items.drop_first(), c2);
        assert forall|q: int| 0 <= q < n implies #[trigger] dealt(queues, items, c)[q] == queues[q]
            + every_nth(items, n, queue_offset(q, c, n)) by {
            let rest = every_nth(items.drop_first(), n, queue_offset(q, c2, n));
            if q == c {
                assert(queue_offset(q, c2, n) == n - 1);
                assert(queues[c].push(items[0]) + rest =~= queues[c] + (seq![items[0]] + rest));
            } else {
                assert(queue_offset(q, c2, n) == queue_offset(q, c, n) - 1);
            }
        }
    }
}

/// A share that starts earlier holds as many items as one that starts
/// later, or one more.
proof fn lemma_every_nth_len_order<T>(items: Seq<T>, n: int, r: int, r2: int)
    requires
        0 <= r <= r2 < n,
    ensures
        every_nth(items, n, r2).len() <= every_nth(items, n, r).len() <= every_nth(
            items,
            n,
            r2,
        ).len() + 1,
    decreases items.len(),
{
    if items.len() > 0 {
        let rest = items.drop_first();
        if r > 0 {
            lemma_every_nth_len_order(rest, n, r - 1, r2 - 1);
        } else if r2 > 0 {
            lemma_every_nth_len_order(rest, n, r2 - 1, n - 1);
        }
    }
}

/// Round-robin dealing balances by count: any two queues receive numbers
/// of items that differ by at most one.
pub proof fn lemma_round_robin_balanced<T>(items: Seq<T>, n: int, r1: int, r2: int)
    requires
        0 <= r1 < n,
        0 <= r2 < n,
    ensures
        every_nth(items, n, r1).len() <= every_nth(items, n, r2).len() + 1,
{
    if r1 <= r2 {
        lemma_every_nth_len_order(items, n, r1, r2);
    } else {
        lemma_every_nth_len_order(items, n, r2, r1);
    }
}

} // verus!
