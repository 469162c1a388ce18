//! The flow controller: expands each seedable flow's cron schedule for the
//! current UTC day into jobs, materializes the steps of new jobs from their
//! flow's step template, and launches the first step of seeded jobs.

use crate::clock::{civil_date, day_of, utc_fields, valid_instant, UtcTime};
use crate::model::{Flow, FlowStep, Job, JobForm, JobStatus, JobStepForm, StepStatus};
use crate::schedule::{cron_accepts, instants, todays_trigger_list, todays_triggers, ScheduleError};
use crate::store::{
    job_with_status, lemma_positions, new_job_positions, new_job_pred, promotable, promoted, seeded_flow,
    seedable, seedable_positions, seedable_pred, step_insertable, steps_of, JobStepView, Store, ROW_LIMIT,
};
use crate::text::{
    dashes_to_underscores, decimal, int_text, pad2, pad4, push_char, push_decimal, push_int,
    push_pad2, push_pad4, push_underscored,
};
use vstd::prelude::*;

verus! {

/// `{topic}_{flow name with '-' as '_'}_{YYYY}_{MM}_{DD}_{n}`.
pub open spec fn job_name_text(
    topic: int,
    flow_name: Seq<char>,
    year: int,
    month: int,
    day: int,
    n: nat,
) -> Seq<char> {
    int_text(topic) + seq!['_'] + dashes_to_underscores(flow_name) + seq!['_'] + pad4(
        year as nat,
    ) + seq!['_'] + pad2(month as nat) + seq!['_'] + pad2(day as nat) + seq!['_'] + decimal(n)
}

/// The name of the `n`-th job of a flow on the given date.
pub fn job_name(topic_id: i32, flow_name: &str, date: &UtcTime, n: u64) -> (r: String)
    requires
        date.year >= 0,
    ensures
        r@ == job_name_text(
            topic_id as int,
            flow_name@,
            date.year as int,
            date.month as int,
            date.day as int,
            n as nat,
        ),
{
    let mut s = String::new();
    push_int(&mut s, topic_id as i64);
    push_char(&mut s, '_');
    push_underscored(&mut s, flow_name);
    push_char(&mut s, '_');
    push_pad4(&mut s, date.year as u64);
    push_char(&mut s, '_');
    push_pad2(&mut s, date.month as u64);
    push_char(&mut s, '_');
    push_pad2(&mut s, date.day as u64);
    push_char(&mut s, '_');
    push_decimal(&mut s, n);
    assert(s@ =~= job_name_text(
        topic_id as int,
        flow_name@,
        date.year as int,
        date.month as int,
        date.day as int,
        n as nat,
    ));
    s
}

/// What seeding did with one flow.
#[derive(Clone, Copy, Debug, PartialEq, Eq, Structural)]
pub enum FlowOutcome {
    /// The frequency could not be parsed; the flow was skipped.
    Unparsable,
    /// The flow has triggers today but no topic; it was skipped.
    NoTopic,
    /// The flow was marked as seeded after `attempted` job inserts, of
    /// which `created` succeeded.
    Seeded { attempted: usize, created: usize },
}

/// How many of `wanted` inserts fit in a table that holds `len` rows.
pub open spec fn fitting(len: int, wanted: int) -> int {
    if len + wanted <= ROW_LIMIT {
        wanted
    } else if len <= ROW_LIMIT {
        ROW_LIMIT - len
    } else {
        0
    }
}

/// The `k`-th job that seeding flow `f` creates: named for the date of
/// `now`, starting at the trigger instant `start`.
pub open spec fn is_seeded_job(j: Job, id: int, f: Flow, k: nat, start: int, now: i64) -> bool {
    &&& is_planned_job(j, id, f, k, start, now)
    &&& j.status == JobStatus::New
}

/// `j` is the `k`-th job of flow `f` planned at `now` for the trigger
/// `start`, with id `id`, whatever its status.
pub open spec fn is_planned_job(j: Job, id: int, f: Flow, k: nat, start: int, now: i64) -> bool {
    let (y, m, d) = civil_date(day_of(now as int));
    &&& j.id == id
    &&& j.job_name@ == job_name_text(f.topic_id->0 as int, f.flow_name@, y, m, d, k)
    &&& j.flow_id == f.id
    &&& j.created_dt == now
    &&& j.start_dt is Some
    &&& j.start_dt->0 as int == start
    &&& j.updated_dt == Some(now)
}

/// Whether seeding a flow with these trigger results creates jobs and
/// marks the flow: the schedule parsed, and the flow has a topic or no
/// trigger today.
pub open spec fn seeds(f: Flow, triggers: Result<Vec<i64>, ScheduleError>) -> bool {
    match triggers {
        Ok(ts) => f.topic_id is Some || ts@.len() == 0,
        Err(_) => false,
    }
}

/// Seeds the flow with id `flow_id` from the trigger instants of its
/// schedule today (or the parse error). When the flow is seeded, one job
/// per trigger is inserted, numbered from 0, and the flow is marked as
/// seeded at `now`; otherwise nothing changes.
pub fn seed_flow(
    store: &mut Store,
    flow_id: i32,
    triggers: &Result<Vec<i64>, ScheduleError>,
    now: i64,
    today: &UtcTime,
) -> (r: FlowOutcome)
    requires
        old(store).wf(),
        1 <= flow_id <= old(store).flows@.len(),
        valid_instant(now as int),
        today.describes(now as int),
    ensures
        final(store).wf(),
        ({
            let f = old(store).flows@[flow_id - 1];
            let old_len = old(store).jobs@.len() as int;
            if !seeds(f, *triggers) {
                &&& *final(store) == *old(store)
                &&& r == if triggers is Err {
                    FlowOutcome::Unparsable
                } else {
                    FlowOutcome::NoTopic
                }
            } else {
                let ts = triggers->Ok_0@;
                let c = fitting(old_len, ts.len() as int);
                &&& r matches FlowOutcome::Seeded { attempted, created }
                &&& r->attempted == ts.len()
                &&& r->created == c
                &&& final(store).flows@ == old(store).flows@.update(
                    flow_id - 1,
                    seeded_flow(f, now),
                )
                &&& final(store).jobs@.len() == old_len + c
                &&& final(store).jobs@.subrange(0, old_len) == old(store).jobs@
                &&& forall|k: int|
                    0 <= k < c ==> is_seeded_job(
                        #[trigger] final(store).jobs@[old_len + k],
                        old_len + k + 1,
                        f,
                        k as nat,
                        ts[k] as int,
                        now,
                    )
                &&& final(store).topics == old(store).topics
                &&& final(store).flow_steps == old(store).flow_steps
                &&& final(store).job_steps == old(store).job_steps
            }
        }),
{
    let i = (flow_id - 1) as usize;
    let ts = match triggers {
        Ok(ts) => ts,
        Err(_) => {
            return FlowOutcome::Unparsable;
        },
    };
    let topic = store.flows[i].topic_id;
    if topic.is_none() && ts.len() > 0 {
        return FlowOutcome::NoTopic;
    }
    let name = store.flows[i].flow_name.clone();
    let ghost f = old(store).flows@[flow_id - 1];
    let ghost old_len = old(store).jobs@.len() as int;
    let mut created: usize = 0;
    let mut n: usize = 0;
    while n < ts.len()
        invariant
            store.wf(),
            1 <= flow_id <= store.flows@.len(),
            f == old(store).flows@[flow_id - 1],
            f.id == flow_id,
            store.flows == old(store).flows,
            store.topics == old(store).topics,
            store.flow_steps == old(store).flow_steps,
            store.job_steps == old(store).job_steps,
            old_len == old(store).jobs@.len(),
            name@ == f.flow_name@,
            topic == f.topic_id,
            ts@.len() > 0 ==> topic is Some,
            n <= ts@.len(),
            valid_instant(now as int),
            today.describes(now as int),
            created == fitting(old_len, n as int),
            store.jobs@.len() == old_len + created,
            store.jobs@.subrange(0, old_len) == old(store).jobs@,
            forall|k: int|
                0 <= k < created ==> is_seeded_job(
                    #[trigger] store.jobs@[old_len + k],
                    old_len + k + 1,
                    f,
                    k as nat,
                    ts@[k] as int,
                    now,
                ),
        decreases ts.len() - n,
    {
        let t = match topic {
            Some(t) => t,
            None => 0,
        };
        let job_nm = job_name(t, name.as_str(), today, n as u64);
        let form = JobForm {
            job_name: job_nm,
            flow_id,
            status: JobStatus::New,
            created_dt: now,
            start_dt: Some(ts[n]),
            updated_dt: Some(now),
        };
        let ghost before = store.jobs@;
        let res = store.insert_job(form);
        match res {
            Ok(_) => {
                proof {
                    assert(store.jobs@.subrange(0, old_len) =~= before.subrange(0, old_len));
                    assert forall|k: int| 0 <= k < created + 1 implies is_seeded_job(
                        #[trigger] store.jobs@[old_len + k],
                        old_len + k + 1,
                        f,
                        k as nat,
                        ts@[k] as int,
                        now,
                    ) by {
                        if k < created {
                            assert(store.jobs@[old_len + k] == before[old_len + k]);
                        }
                    }
                }
                created = created + 1;
            },
            Err(_) => {},
        }
        n = n + 1;
    }
    store.mark_flow_seeded(flow_id, now);
    proof {
        assert(store.flows@ =~= old(store).flows@.update(flow_id - 1, seeded_flow(f, now)));
    }
    FlowOutcome::Seeded { attempted: ts.len(), created }
}

/// The job step row that seeding job `job_id` from flow step `fs` adds.
pub open spec fn seed_row(fs: FlowStep, job_id: i32, now: i64, id: int) -> JobStepView {
    JobStepView {
        id: id as i32,
        job_id,
        flow_step_id: fs.id,
        sequence_id: fs.sequence_id,
        input_path: fs.input_dir@,
        output_path: fs.output_dir@,
        command: Seq::empty(),
        status: StepStatus::New,
        created_dt: now,
        updated_dt: Some(now),
    }
}

/// `steps` after an attempt to insert the step of `job_id` for `fs`.
pub open spec fn try_seed(
    steps: Seq<JobStepView>,
    job_id: i32,
    fs: FlowStep,
    now: i64,
    n_jobs: int,
    n_flow_steps: int,
) -> Seq<JobStepView> {
    if step_insertable(steps, job_id, fs.id, fs.sequence_id, n_jobs, n_flow_steps) {
        steps.push(seed_row(fs, job_id, now, (steps.len() + 1) as int))
    } else {
        steps
    }
}

/// `steps` after one insert attempt for each of `fss`, in order.
pub open spec fn seeded_steps(
    steps: Seq<JobStepView>,
    job_id: i32,
    fss: Seq<FlowStep>,
    now: i64,
    n_jobs: int,
    n_flow_steps: int,
) -> Seq<JobStepView>
    decreases fss.len(),
{
    if fss.len() == 0 {
        steps
    } else {
        try_seed(
            seeded_steps(steps, job_id, fss.drop_last(), now, n_jobs, n_flow_steps),
            job_id,
            fss.last(),
            now,
            n_jobs,
            n_flow_steps,
        )
    }
}

/// The number of steps of job `job_id` in `steps`.
pub open spec fn step_count(steps: Seq<JobStepView>, job_id: i32) -> nat
    decreases steps.len(),
{
    if steps.len() == 0 {
        0
    } else {
        step_count(steps.drop_last(), job_id) + if steps.last().job_id == job_id {
            1nat
        } else {
            0nat
        }
    }
}

/// The job status that seeding leaves: `S` when every step was inserted.
pub open spec fn seeding_status(inserted: int, expected: int) -> JobStatus {
    if inserted == expected {
        JobStatus::Seeded
    } else {
        JobStatus::Failed
    }
}

/// The status of a job whose step seeding inserted `inserted` of
/// `expected` steps.
pub fn seeding_outcome(inserted: usize, expected: usize) -> (r: JobStatus)
    ensures
        r == seeding_status(inserted as int, expected as int),
{
    if inserted == expected {
        JobStatus::Seeded
    } else {
        JobStatus::Failed
    }
}

/// Seeding only appends, and only steps of the job being seeded.
pub proof fn lemma_seeded_steps_append(
    steps: Seq<JobStepView>,
    job_id: i32,
    fss: Seq<FlowStep>,
    now: i64,
    n_jobs: int,
    n_flow_steps: int,
)
    ensures
        ({
            let after = seeded_steps(steps, job_id, fss, now, n_jobs, n_flow_steps);
            &&& steps.len() <= after.len() <= steps.len() + fss.len()
            &&& after.subrange(0, steps.len() as int) == steps
            &&& step_count(after, job_id) == step_count(steps, job_id) + after.len()
                - steps.len()
            &&& forall|k: int|
                steps.len() <= k < after.len() ==> (#[trigger] after[k]).status
                    == StepStatus::New
            &&& forall|id2: i32|
                id2 != job_id ==> #[trigger] step_count(after, id2) == step_count(steps, id2)
            &&& after.len() - steps.len() == fss.len() ==> forall|j: int|
                0 <= j < fss.len() ==> #[trigger] after[steps.len() + j] == seed_row(
                    fss[j],
                    job_id,
                    now,
                    steps.len() + j + 1,
                )
        }),
    decreases fss.len(),
{
    if fss.len() > 0 {
        lemma_seeded_steps_append(steps, job_id, fss.drop_last(), now, n_jobs, n_flow_steps);
        let prev = seeded_steps(steps, job_id, fss.drop_last(), now, n_jobs, n_flow_steps);
        let after = seeded_steps(steps, job_id, fss, now, n_jobs, n_flow_steps);
        if after.len() > prev.len() {
            assert(after.drop_last() =~= prev);
            assert(forall|k: int| 0 <= k < prev.len() ==> after[k] == prev[k]);
            assert(after.subrange(0, steps.len() as int) =~= prev.subrange(0, steps.len() as int));
            assert(after.last().job_id == job_id);
            assert forall|id2: i32| id2 != job_id implies #[trigger] step_count(after, id2)
                == step_count(steps, id2) by {
                assert(step_count(after, id2) == step_count(prev, id2));
            }
            if after.len() - steps.len() == fss.len() {
                assert forall|j: int| 0 <= j < fss.len() implies #[trigger] after[steps.len() + j]
                    == seed_row(fss[j], job_id, now, steps.len() + j + 1) by {
                    if j < fss.len() - 1 {
                        assert(fss.drop_last()[j] == fss[j]);
                        assert(after[steps.len() + j] == prev[steps.len() + j]);
                    }
                }
            }
        } else {
            assert(after == prev);
        }
    }
}

/// Every step of `fss` has a step of job `job_id` in `steps` with the same
/// flow step id and sequence number.
pub open spec fn has_steps_of(steps: Seq<JobStepView>, job_id: i32, fss: Seq<FlowStep>) -> bool {
    forall|j: int|
        0 <= j < fss.len() ==> exists|x: int|
            0 <= x < steps.len() && (#[trigger] steps[x]).job_id == job_id && steps[x].flow_step_id
                == (#[trigger] fss[j]).id && steps[x].sequence_id == fss[j].sequence_id
}

/// Two step tables that agree on each row's job, flow step and sequence
/// number count the same steps per job and hold the same copies.
proof fn lemma_same_keys(a: Seq<JobStepView>, b: Seq<JobStepView>, job_id: i32, fss: Seq<FlowStep>)
    requires
        a.len() <= b.len(),
        forall|x: int|
            0 <= x < a.len() ==> (#[trigger] b[x]).job_id == a[x].job_id && b[x].flow_step_id
                == a[x].flow_step_id && b[x].sequence_id == a[x].sequence_id,
    ensures
        a.len() == b.len() ==> step_count(b, job_id) == step_count(a, job_id),
        has_steps_of(a, job_id, fss) ==> has_steps_of(b, job_id, fss),
    decreases a.len(),
{
    if a.len() > 0 && a.len() == b.len() {
        lemma_same_keys(a.drop_last(), b.drop_last(), job_id, fss);
    }
    if has_steps_of(a, job_id, fss) {
        assert forall|j: int| 0 <= j < fss.len() implies exists|x: int|
            0 <= x < b.len() && (#[trigger] b[x]).job_id == job_id && b[x].flow_step_id
                == (#[trigger] fss[j]).id && b[x].sequence_id == fss[j].sequence_id by {
            let x = choose|x: int|
                0 <= x < a.len() && (#[trigger] a[x]).job_id == job_id && a[x].flow_step_id
                    == (#[trigger] fss[j]).id && a[x].sequence_id == fss[j].sequence_id;
            assert(b[x].job_id == job_id);
        }
    }
}

/// What seeding the steps of one job did.
#[derive(Clone, Copy, Debug, PartialEq, Eq, Structural)]
pub struct JobSeeding {
    pub job_id: i32,
    /// Job steps inserted.
    pub inserted: usize,
    /// Flow steps of the job's flow.
    pub expected: usize,
}

/// Materializes the steps of job `job_id` from its flow's step template,
/// then sets the job to `S` when every insert succeeded and to `F`
/// otherwise.
pub fn seed_job(store: &mut Store, job_id: i32, now: i64) -> (r: JobSeeding)
    requires
        old(store).wf(),
        1 <= job_id <= old(store).jobs@.len(),
    ensures
        final(store).wf(),
        ({
            let job = old(store).jobs@[job_id - 1];
            let fss = steps_of(old(store).flow_steps@, job.flow_id);
            let after = seeded_steps(
                old(store).steps(),
                job_id,
                fss,
                now,
                old(store).jobs@.len() as int,
                old(store).flow_steps@.len() as int,
            );
            &&& r.job_id == job_id
            &&& r.expected == fss.len()
            &&& r.inserted == after.len() - old(store).steps().len()
            &&& final(store).steps() == after
            &&& final(store).jobs@ == old(store).jobs@.update(
                job_id - 1,
                job_with_status(job, seeding_status(r.inserted as int, r.expected as int), now),
            )
            &&& final(store).jobs@[job_id - 1].status == JobStatus::Seeded ==> step_count(
                final(store).steps(),
                job_id,
            ) == step_count(old(store).steps(), job_id) + fss.len()
        }),
        final(store).topics == old(store).topics,
        final(store).flows == old(store).flows,
        final(store).flow_steps == old(store).flow_steps,
{
    let flow_id = store.jobs[(job_id - 1) as usize].flow_id;
    let steps = store.find_flow_steps(flow_id);
    let ghost fss = steps@;
    let ghost steps0 = old(store).steps();
    let ghost n_jobs = old(store).jobs@.len() as int;
    let ghost n_fs = old(store).flow_steps@.len() as int;
    let expected = steps.len();
    let mut inserted: usize = 0;
    let mut k: usize = 0;
    while k < expected
        invariant
            store.wf(),
            expected == fss.len(),
            steps@ == fss,
            fss == steps_of(old(store).flow_steps@, flow_id),
            k <= expected,
            1 <= job_id <= store.jobs@.len(),
            store.jobs == old(store).jobs,
            store.topics == old(store).topics,
            store.flows == old(store).flows,
            store.flow_steps == old(store).flow_steps,
            steps0 == old(store).steps(),
            n_jobs == store.jobs@.len(),
            n_fs == store.flow_steps@.len(),
            store.steps() == seeded_steps(steps0, job_id, fss.take(k as int), now, n_jobs, n_fs),
            inserted == store.steps().len() - steps0.len(),
        decreases expected - k,
    {
        proof {
            assert(fss.take(k + 1).drop_last() =~= fss.take(k as int));
            lemma_seeded_steps_append(steps0, job_id, fss.take(k as int), now, n_jobs, n_fs);
        }
        let fs = &steps[k];
        let form = JobStepForm {
            job_id,
            flow_step_id: fs.id,
            sequence_id: fs.sequence_id,
            input_path: fs.input_dir.clone(),
            output_path: fs.output_dir.clone(),
            command: String::new(),
            status: StepStatus::New,
            created_dt: now,
            updated_dt: Some(now),
        };
        match store.insert_job_step(form) {
            Ok(_) => {
                inserted = inserted + 1;
            },
            Err(_) => {},
        }
        k = k + 1;
    }
    assert(fss.take(expected as int) =~= fss);
    proof {
        lemma_seeded_steps_append(steps0, job_id, fss, now, n_jobs, n_fs);
    }
    let status = seeding_outcome(inserted, expected);
    let _ = store.set_job_status(job_id, status, now);
    JobSeeding { job_id, inserted, expected }
}

/// A flow that a tick seeds with jobs: seedable, with a schedule that
/// parses and a topic.
pub open spec fn yields_jobs(f: Flow) -> bool {
    seedable(f) && cron_accepts(f.frequency@) && f.topic_id is Some
}

/// What one controller tick at `now` does to the store.
pub open spec fn tick_relation(before: Store, after: Store, now: i64) -> bool {
    let n_old = before.jobs@.len();
    &&& after.wf()
    &&& after.topics == before.topics
    &&& after.flow_steps == before.flow_steps
    // flows change only by being marked as seeded, and only when seedable;
    // every flow that yields jobs is marked
    &&& after.flows@.len() == before.flows@.len()
    &&& forall|i: int|
        0 <= i < before.flows@.len() ==> {
            ||| #[trigger] after.flows@[i] == before.flows@[i]
            ||| seedable(before.flows@[i]) && after.flows@[i] == seeded_flow(
                before.flows@[i],
                now,
            )
        }
    &&& forall|i: int|
        0 <= i < before.flows@.len() && yields_jobs(#[trigger] before.flows@[i])
            ==> after.flows@[i] == seeded_flow(before.flows@[i], now)
    // existing jobs are kept; only new ones move, to S or F
    &&& n_old <= after.jobs@.len()
    &&& forall|k: int|
        0 <= k < n_old ==> {
            ||| #[trigger] after.jobs@[k] == before.jobs@[k] && before.jobs@[k].status
                != JobStatus::New
            ||| before.jobs@[k].status == JobStatus::New && after.jobs@[k] == job_with_status(
                before.jobs@[k],
                after.jobs@[k].status,
                now,
            )
        }
    // every job created belongs to a flow that yields jobs
    &&& forall|k: int|
        n_old <= k < after.jobs@.len() ==> {
            let fid = #[trigger] after.jobs@[k].flow_id;
            &&& 1 <= fid <= before.flows@.len()
            &&& yields_jobs(before.flows@[fid - 1])
        }
    // no job is left new, and no first step of a seeded job is left new
    &&& forall|k: int|
        0 <= k < after.jobs@.len() ==> #[trigger] after.jobs@[k].status != JobStatus::New
    &&& forall|i: int|
        0 <= i < after.job_steps@.len() ==> !promotable(
            #[trigger] after.job_steps@[i],
            after.jobs@,
        )
    // no step is moved to R
    &&& forall|i: int|
        0 <= i < after.job_steps@.len() && (#[trigger] after.job_steps@[i]).status
            == StepStatus::Running ==> i < before.job_steps@.len() && before.job_steps@[i].status
            == StepStatus::Running
}

/// `rep` reports on flow `f`: its id, and whether its schedule parsed.
pub open spec fn flow_report_of(rep: FlowReport, f: Flow, now: int) -> bool {
    let ts = todays_trigger_list(f.frequency@, now);
    &&& rep.flow_id == f.id
    &&& (rep.outcome == FlowOutcome::Unparsable <==> !cron_accepts(f.frequency@))
    &&& (rep.outcome == FlowOutcome::NoTopic <==> (cron_accepts(f.frequency@) && f.topic_id is None
        && ts.len() > 0))
    &&& (rep.outcome matches FlowOutcome::Seeded { attempted, created } ==> attempted == ts.len())
}

/// `reps` reports, in order, on the seedable flows among `flows`.
pub open spec fn reports_flows(reps: Seq<FlowReport>, flows: Seq<Flow>, now: int) -> bool {
    let pos = seedable_positions(flows, flows.len() as int);
    &&& reps.len() == pos.len()
    &&& forall|q: int|
        0 <= q < reps.len() ==> flow_report_of(#[trigger] reps[q], flows[pos[q]], now)
}

/// One flow considered in a tick.
#[derive(Clone, Copy, Debug, PartialEq, Eq, Structural)]
pub struct FlowReport {
    pub flow_id: i32,
    pub outcome: FlowOutcome,
}

/// What a tick did, for logging.
pub struct TickReport {
    pub flows: Vec<FlowReport>,
    pub jobs: Vec<JobSeeding>,
}

/// Whether a tick at `now` marks flow `f` as seeded (given that it is
/// seedable): its schedule parses, and it has a topic or no trigger left
/// today.
pub open spec fn flow_seeds(f: Flow, now: int) -> bool {
    &&& cron_accepts(f.frequency@)
    &&& f.topic_id is Some || todays_trigger_list(f.frequency@, now).len() == 0
}

/// Flow `f` after a tick at `now`.
pub open spec fn flow_after_tick(f: Flow, now: i64) -> Flow {
    if seedable(f) && flow_seeds(f, now as int) {
        seeded_flow(f, now)
    } else {
        f
    }
}

/// The jobs a tick at `now` plans for flow `f`: one per trigger left
/// today, numbered from 0, as (flow, number, start instant).
pub open spec fn flow_job_plan(f: Flow, now: int) -> Seq<(Flow, nat, int)> {
    let ts = todays_trigger_list(f.frequency@, now);
    if seedable(f) && cron_accepts(f.frequency@) && f.topic_id is Some {
        Seq::new(ts.len(), |k: int| (f, k as nat, ts[k]))
    } else {
        Seq::empty()
    }
}

/// The jobs a tick at `now` plans for the first `n` flows, in order.
pub open spec fn job_plan(flows: Seq<Flow>, n: int, now: int) -> Seq<(Flow, nat, int)>
    decreases n,
{
    if n <= 0 {
        Seq::empty()
    } else {
        job_plan(flows, n - 1, now) + flow_job_plan(flows[n - 1], now)
    }
}

/// Flows that are not seedable add nothing to the plan.
proof fn lemma_plan_skip(flows: Seq<Flow>, a: int, b: int, now: int)
    requires
        0 <= a <= b <= flows.len(),
        forall|i: int| a <= i < b ==> !seedable(#[trigger] flows[i]),
    ensures
        job_plan(flows, b, now) == job_plan(flows, a, now),
    decreases b - a,
{
    if a < b {
        lemma_plan_skip(flows, a, b - 1, now);
        assert(flow_job_plan(flows[b - 1], now) =~= Seq::<(Flow, nat, int)>::empty());
        assert(job_plan(flows, b, now) =~= job_plan(flows, b - 1, now));
    }
}

/// Inserting `x` then `y` rows fits as many as inserting `x + y`.
proof fn lemma_fitting_add(len: int, x: int, y: int)
    requires
        0 <= len <= ROW_LIMIT,
        0 <= x,
        0 <= y,
    ensures
        fitting(len, x) + fitting(len + fitting(len, x), y) == fitting(len, x + y),
        0 <= fitting(len, x) <= x,
        fitting(len, x + y) > fitting(len, x) ==> fitting(len, x) == x,
{
}

/// After the first `n_old` jobs, `jobs` holds the jobs of `plan` that fit
/// the table, in order, each with the next id; with `any_status`, whatever
/// their status, else still new.
pub open spec fn seeded_jobs_as_planned(
    n_old: int,
    jobs: Seq<Job>,
    plan: Seq<(Flow, nat, int)>,
    now: i64,
    any_status: bool,
) -> bool {
    &&& jobs.len() == n_old + fitting(n_old, plan.len() as int)
    &&& forall|j: int|
        0 <= j < fitting(n_old, plan.len() as int) ==> {
            &&& is_planned_job(
                #[trigger] jobs[n_old + j],
                n_old + j + 1,
                plan[j].0,
                plan[j].1,
                plan[j].2,
                now,
            )
            &&& (any_status || jobs[n_old + j].status == JobStatus::New)
        }
}

/// Flows up to this index have been seeded once the first `k` seedable
/// flows (at positions `pos`) have.
pub open spec fn plan_bound(pos: Seq<int>, k: int) -> int {
    if k == 0 {
        0
    } else {
        pos[k - 1] + 1
    }
}

/// Seeds every seedable flow, in table order.
fn seed_flows(store: &mut Store, now: i64, today: &UtcTime) -> (r: Vec<FlowReport>)
    requires
        old(store).wf(),
        valid_instant(now as int),
        today.describes(now as int),
    ensures
        final(store).wf(),
        final(store).topics == old(store).topics,
        final(store).flow_steps == old(store).flow_steps,
        final(store).job_steps == old(store).job_steps,
        final(store).flows@.len() == old(store).flows@.len(),
        forall|i: int|
            0 <= i < old(store).flows@.len() ==> {
                ||| #[trigger] final(store).flows@[i] == old(store).flows@[i]
                ||| seedable(old(store).flows@[i]) && final(store).flows@[i] == seeded_flow(
                    old(store).flows@[i],
                    now,
                )
            },
        forall|i: int|
            0 <= i < old(store).flows@.len() && yields_jobs(#[trigger] old(store).flows@[i])
                ==> final(store).flows@[i] == seeded_flow(old(store).flows@[i], now),
        old(store).jobs@.len() <= final(store).jobs@.len(),
        final(store).jobs@.subrange(0, old(store).jobs@.len() as int) == old(store).jobs@,
        forall|k: int|
            old(store).jobs@.len() <= k < final(store).jobs@.len() ==> {
                let fid = #[trigger] final(store).jobs@[k].flow_id;
                &&& 1 <= fid <= old(store).flows@.len()
                &&& yields_jobs(old(store).flows@[fid - 1])
            },
        reports_flows(r@, old(store).flows@, now as int),
        forall|i: int|
            0 <= i < old(store).flows@.len() ==> #[trigger] final(store).flows@[i]
                == flow_after_tick(old(store).flows@[i], now),
        seeded_jobs_as_planned(old(store).jobs@.len() as int, final(store).jobs@, job_plan(
            old(store).flows@,
            old(store).flows@.len() as int,
            now as int,
        ), now, false),
{
    let flows = store.find_seedable_flows();
    let ghost n = old(store).flows@.len() as int;
    let ghost n_old = old(store).jobs@.len() as int;
    let ghost pos = seedable_positions(old(store).flows@, n);
    proof {
        lemma_positions(old(store).flows@, seedable_pred(), n);
    }
    let m = flows.len();
    proof {
        assert forall|i: int|
            0 <= i < n && seedable(#[trigger] old(store).flows@[i]) implies exists|q: int|
            0 <= q < m && #[trigger] pos[q] == i by {
            assert(seedable_pred()(old(store).flows@[i]));
        }
        assert(job_plan(old(store).flows@, 0, now as int) =~= Seq::<(Flow, nat, int)>::empty());
    }
    let mut reports: Vec<FlowReport> = Vec::new();
    let mut k: usize = 0;
    while k < m
        invariant
            store.wf(),
            old(store).wf(),
            valid_instant(now as int),
            today.describes(now as int),
            m == pos.len(),
            m == flows@.len(),
            k <= m,
            n == old(store).flows@.len(),
            n == store.flows@.len(),
            pos == seedable_positions(old(store).flows@, n),
            forall|q: int|
                0 <= q < m ==> {
                    &&& (#[trigger] flows@[q]).flow_id == old(store).flows@[pos[q]].id
                    &&& flows@[q].frequency == old(store).flows@[pos[q]].frequency
                },
            forall|q: int|
                0 <= q < m ==> 0 <= #[trigger] pos[q] < n && seedable(old(store).flows@[pos[q]]),
            forall|j: int, q: int| 0 <= j < q < m ==> #[trigger] pos[j] < #[trigger] pos[q],
            n_old == old(store).jobs@.len(),
            store.topics == old(store).topics,
            store.flow_steps == old(store).flow_steps,
            store.job_steps == old(store).job_steps,
            forall|i: int|
                0 <= i < n ==> if processed(pos, k as int, i) {
                    #[trigger] store.flows@[i] == flow_after_tick(old(store).flows@[i], now)
                } else {
                    store.flows@[i] == old(store).flows@[i]
                },
            forall|i: int|
                0 <= i < n && seedable(#[trigger] old(store).flows@[i]) ==> exists|q: int|
                    0 <= q < m && #[trigger] pos[q] == i,
            0 <= plan_bound(pos, k as int) <= n,
            k < m ==> plan_bound(pos, k as int) <= pos[k as int],
            seeded_jobs_as_planned(
                n_old,
                store.jobs@,
                job_plan(old(store).flows@, plan_bound(pos, k as int), now as int),
                now,
                false,
            ),
            n_old <= store.jobs@.len(),
            store.jobs@.subrange(0, n_old) == old(store).jobs@,
            forall|j: int|
                n_old <= j < store.jobs@.len() ==> {
                    let fid = #[trigger] store.jobs@[j].flow_id;
                    &&& 1 <= fid <= n
                    &&& yields_jobs(old(store).flows@[fid - 1])
                },
            reports@.len() == k,
            forall|q: int|
                0 <= q < k ==> flow_report_of(#[trigger] reports@[q], old(store).flows@[pos[q]], now as int),
        decreases m - k,
    {
        let ghost before = *store;
        let ghost p = pos[k as int];
        let ghost b = plan_bound(pos, k as int);
        let ghost plan_b = job_plan(old(store).flows@, b, now as int);
        proof {
            assert(!processed(pos, k as int, p));
            assert(old(store).flows@[p].id == p + 1);
            assert forall|i: int| b <= i < p implies !seedable(#[trigger] old(store).flows@[i]) by {
                if seedable(old(store).flows@[i]) {
                    let q = choose|q: int| 0 <= q < m && #[trigger] pos[q] == i;
                    if q < k {
                        assert(pos[q] <= pos[k - 1]);
                    } else if q > k {
                        assert(pos[k as int] < pos[q]);
                    }
                }
            }
            lemma_plan_skip(old(store).flows@, b, p, now as int);
        }
        let triggers = todays_triggers(flows[k].frequency.as_str(), now);
        let flow_id = flows[k].flow_id;
        let outcome = seed_flow(store, flow_id, &triggers, now, today);
        let ghost prev = reports@;
        reports.push(FlowReport { flow_id, outcome });
        proof {
            let f = old(store).flows@[p];
            assert(forall|q: int| 0 <= q < k ==> reports@[q] == prev[q]);
            assert(before.flows@[p] == f);
            let list = todays_trigger_list(f.frequency@, now as int);
            let fp = flow_job_plan(f, now as int);
            let plan2 = job_plan(old(store).flows@, p + 1, now as int);
            assert(plan2 == plan_b + fp);
            assert(plan_bound(pos, k + 1) == p + 1);
            let a_len = plan_b.len() as int;
            let l0 = before.jobs@.len() as int;
            assert(l0 == n_old + fitting(n_old, a_len));
            if triggers is Ok {
                assert(instants(triggers->Ok_0@) == list);
                assert(triggers->Ok_0@.len() == list.len());
            }
            assert(reports@[k as int] == FlowReport { flow_id, outcome });
            if outcome is Seeded {
                assert(seeds(f, triggers));
                assert(outcome->attempted == triggers->Ok_0@.len());
            }
            assert(flow_report_of(reports@[k as int], f, now as int));
            if !(seeds(f, triggers) && f.topic_id is Some) {
                assert(fp =~= Seq::<(Flow, nat, int)>::empty());
                assert(plan2 =~= plan_b);
                if seeds(f, triggers) {
                    assert(list.len() == 0);
                    assert(store.jobs@ =~= before.jobs@) by {
                        assert(store.jobs@.subrange(0, l0) == before.jobs@);
                    }
                }
                assert(store.jobs@ == before.jobs@);
            } else {
                let ts = triggers->Ok_0@;
                assert(fp.len() == ts.len());
                lemma_fitting_add(n_old, a_len, fp.len() as int);
                assert forall|j: int| 0 <= j < fitting(n_old, plan2.len() as int) implies {
                    &&& is_planned_job(
                        #[trigger] store.jobs@[n_old + j],
                        n_old + j + 1,
                        plan2[j].0,
                        plan2[j].1,
                        plan2[j].2,
                        now,
                    )
                    &&& (false || store.jobs@[n_old + j].status == JobStatus::New)
                } by {
                    if j < fitting(n_old, a_len) {
                        assert(store.jobs@[n_old + j] == store.jobs@.subrange(0, l0)[n_old + j]);
                        assert(plan2[j] == plan_b[j]);
                    } else {
                        let jj = j - a_len;
                        assert(plan2[j] == fp[jj]);
                        assert(is_seeded_job(
                            store.jobs@[l0 + jj],
                            l0 + jj + 1,
                            f,
                            jj as nat,
                            ts[jj] as int,
                            now,
                        ));
                    }
                }
            }
            if seeds(f, triggers) {
                let ts = triggers->Ok_0@;
                assert(store.jobs@.subrange(0, n_old) =~= before.jobs@.subrange(0, n_old)) by {
                    assert(store.jobs@.subrange(0, before.jobs@.len() as int) == before.jobs@);
                }
                assert forall|j: int| n_old <= j < store.jobs@.len() implies {
                    let fid = #[trigger] store.jobs@[j].flow_id;
                    &&& 1 <= fid <= n
                    &&& yields_jobs(old(store).flows@[fid - 1])
                } by {
                    if j < before.jobs@.len() {
                        assert(store.jobs@[j] == store.jobs@.subrange(
                            0,
                            before.jobs@.len() as int,
                        )[j]);
                    } else {
                        assert(is_seeded_job(
                            store.jobs@[before.jobs@.len() + (j - before.jobs@.len())],
                            j + 1,
                            f,
                            (j - before.jobs@.len()) as nat,
                            ts[j - before.jobs@.len()] as int,
                            now,
                        ));
                    }
                }
            }
            assert forall|i: int| 0 <= i < n implies processed(pos, k + 1, i) == (processed(
                pos,
                k as int,
                i,
            ) || i == p) by {
                if processed(pos, k + 1, i) && i != p {
                    let q = choose|q: int| 0 <= q < k + 1 && #[trigger] pos[q] == i;
                    assert(q < k);
                }
                if i == p {
                    assert(pos[k as int] == i);
                }
            }
        }
        k = k + 1;
    }
    proof {
        let b = plan_bound(pos, m as int);
        assert forall|i: int| b <= i < n implies !seedable(#[trigger] old(store).flows@[i]) by {
            if seedable(old(store).flows@[i]) {
                let q = choose|q: int| 0 <= q < m && #[trigger] pos[q] == i;
                assert(pos[q] <= pos[m - 1]);
            }
        }
        lemma_plan_skip(old(store).flows@, b, n, now as int);
        assert forall|i: int| 0 <= i < n && seedable(old(store).flows@[i]) implies processed(
            pos,
            m as int,
            i,
        ) by {
            assert(seedable_pred()(old(store).flows@[i]));
        }
        assert forall|i: int|
            0 <= i < n && yields_jobs(#[trigger] old(store).flows@[i]) implies store.flows@[i]
            == seeded_flow(old(store).flows@[i], now) by {
            assert(processed(pos, m as int, i));
        }
    }
    reports
}

/// `reps` reports, in order, on the jobs of `before` in status `N`, each
/// with the status it has in `after`.
pub open spec fn reports_jobs(reps: Seq<JobSeeding>, before: Seq<Job>, after: Seq<Job>) -> bool {
    let pos = new_job_positions(before, before.len() as int);
    &&& reps.len() == pos.len()
    &&& forall|q: int|
        0 <= q < reps.len() ==> {
            &&& (#[trigger] reps[q]).job_id == pos[q] + 1
            &&& after[pos[q]].status == seeding_status(
                reps[q].inserted as int,
                reps[q].expected as int,
            )
        }
}

/// The step seeding of job `job_id`, whose flow has the steps `fss`, left
/// it in `status`: `S` exactly when every step was inserted (one more
/// step of the job per flow step between `before` and `after`), in which
/// case each flow step is copied; `F` otherwise.
pub open spec fn job_seeded_in(
    after: Seq<JobStepView>,
    before: Seq<JobStepView>,
    job_id: i32,
    fss: Seq<FlowStep>,
    status: JobStatus,
) -> bool {
    &&& (status == JobStatus::Seeded <==> step_count(after, job_id) == step_count(before, job_id)
        + fss.len())
    &&& (status == JobStatus::Seeded ==> has_steps_of(after, job_id, fss))
    &&& (status == JobStatus::Seeded || status == JobStatus::Failed)
}

/// Whether position `i` is among the first `k` of `pos`.
pub open spec fn processed(pos: Seq<int>, k: int, i: int) -> bool {
    exists|q: int| 0 <= q < k && #[trigger] pos[q] == i
}

/// Seeds the steps of every new job, in table order.
#[verifier::rlimit(100)]
fn seed_new_jobs(store: &mut Store, now: i64) -> (r: Vec<JobSeeding>)
    requires
        old(store).wf(),
    ensures
        final(store).wf(),
        final(store).topics == old(store).topics,
        final(store).flows == old(store).flows,
        final(store).flow_steps == old(store).flow_steps,
        final(store).jobs@.len() == old(store).jobs@.len(),
        forall|k: int|
            0 <= k < old(store).jobs@.len() ==> {
                ||| #[trigger] final(store).jobs@[k] == old(store).jobs@[k] && old(
                    store,
                ).jobs@[k].status != JobStatus::New
                ||| old(store).jobs@[k].status == JobStatus::New && final(store).jobs@[k]
                    == job_with_status(old(store).jobs@[k], final(store).jobs@[k].status, now)
            },
        forall|k: int|
            0 <= k < final(store).jobs@.len() ==> #[trigger] final(store).jobs@[k].status
                != JobStatus::New,
        reports_jobs(r@, old(store).jobs@, final(store).jobs@),
        old(store).steps().len() <= final(store).steps().len(),
        forall|i: int|
            0 <= i < old(store).steps().len()
                ==> #[trigger] final(store).steps()[i] == old(store).steps()[i],
        forall|i: int|
            old(store).steps().len() <= i < final(store).steps().len()
                ==> (#[trigger] final(store).steps()[i]).status == StepStatus::New,
        forall|i: int|
            0 <= i < old(store).jobs@.len() && old(store).jobs@[i].status == JobStatus::New
                ==> job_seeded_in(
                final(store).steps(),
                old(store).steps(),
                (i + 1) as i32,
                steps_of(old(store).flow_steps@, old(store).jobs@[i].flow_id),
                #[trigger] final(store).jobs@[i].status,
            ),
        forall|i: int|
            0 <= i < old(store).jobs@.len() && #[trigger] old(store).jobs@[i].status
                == JobStatus::New ==> exists|q: int|
                0 <= q < r@.len() && #[trigger] r@[q].job_id == i + 1,
{
    let new_jobs = store.find_new_jobs();
    let ghost len = old(store).jobs@.len() as int;
    let ghost pos = new_job_positions(old(store).jobs@, len);
    proof {
        lemma_positions(old(store).jobs@, new_job_pred(), len);
    }
    let m = new_jobs.len();
    let mut reports: Vec<JobSeeding> = Vec::new();
    let mut k: usize = 0;
    while k < m
        invariant
            store.wf(),
            m == pos.len(),
            m == new_jobs@.len(),
            k <= m,
            len == old(store).jobs@.len(),
            len == store.jobs@.len(),
            pos == new_job_positions(old(store).jobs@, len),
            forall|q: int|
                0 <= q < m ==> (#[trigger] new_jobs@[q]).job_id == old(store).jobs@[pos[q]].id,
            forall|q: int|
                0 <= q < m ==> 0 <= #[trigger] pos[q] < len && old(store).jobs@[pos[q]].status
                    == JobStatus::New,
            forall|j: int, q: int| 0 <= j < q < m ==> #[trigger] pos[j] < #[trigger] pos[q],
            len <= ROW_LIMIT,
            forall|i: int|
                0 <= i < len && processed(pos, k as int, i) ==> job_seeded_in(
                    store.steps(),
                    old(store).steps(),
                    (i + 1) as i32,
                    steps_of(old(store).flow_steps@, old(store).jobs@[i].flow_id),
                    #[trigger] store.jobs@[i].status,
                ),
            forall|i: int|
                0 <= i < len && !processed(pos, k as int, i) ==> #[trigger] step_count(
                    store.steps(),
                    (i + 1) as i32,
                ) == step_count(old(store).steps(), (i + 1) as i32),
            old(store).wf(),
            store.topics == old(store).topics,
            store.flows == old(store).flows,
            store.flow_steps == old(store).flow_steps,
            forall|i: int|
                0 <= i < len ==> if processed(pos, k as int, i) {
                    &&& old(store).jobs@[i].status == JobStatus::New
                    &&& #[trigger] store.jobs@[i] == job_with_status(
                        old(store).jobs@[i],
                        store.jobs@[i].status,
                        now,
                    )
                    &&& store.jobs@[i].status != JobStatus::New
                } else {
                    store.jobs@[i] == old(store).jobs@[i]
                },
            old(store).steps().len() <= store.steps().len(),
            forall|i: int|
                0 <= i < old(store).steps().len() ==> #[trigger] store.steps()[i] == old(
                    store,
                ).steps()[i],
            forall|i: int|
                old(store).steps().len() <= i < store.steps().len() ==> (#[trigger] store.steps()[i]).status
                    == StepStatus::New,
            reports@.len() == k,
            forall|q: int|
                0 <= q < k ==> {
                    &&& (#[trigger] reports@[q]).job_id == pos[q] + 1
                    &&& store.jobs@[pos[q]].status == seeding_status(
                        reports@[q].inserted as int,
                        reports@[q].expected as int,
                    )
                },
        decreases m - k,
    {
        let job_id = new_jobs[k].job_id;
        let ghost p = pos[k as int];
        let ghost before = *store;
        proof {
            assert(!processed(pos, k as int, p));
            assert(old(store).jobs@[p].id == p + 1);
        }
        let rep = seed_job(store, job_id, now);
        proof {
            let job = before.jobs@[p];
            lemma_seeded_steps_append(
                before.steps(),
                job_id,
                steps_of(before.flow_steps@, job.flow_id),
                now,
                before.jobs@.len() as int,
                before.flow_steps@.len() as int,
            );
            let after = store.steps();
            assert forall|i: int| 0 <= i < before.steps().len() implies #[trigger] after[i]
                == before.steps()[i] by {
                assert(after.subrange(0, before.steps().len() as int)[i] == after[i]);
            }
            let fss = steps_of(old(store).flow_steps@, job.flow_id);
            assert(job == old(store).jobs@[p]);
            assert forall|i: int|
                0 <= i < len && processed(pos, k + 1, i) implies job_seeded_in(
                store.steps(),
                old(store).steps(),
                (i + 1) as i32,
                steps_of(old(store).flow_steps@, old(store).jobs@[i].flow_id),
                #[trigger] store.jobs@[i].status,
            ) by {
                let fi = steps_of(old(store).flow_steps@, old(store).jobs@[i].flow_id);
                lemma_same_keys(before.steps(), after, (i + 1) as i32, fi);
                if i == p {
                    assert(step_count(before.steps(), job_id) == step_count(
                        old(store).steps(),
                        job_id,
                    ));
                    if store.jobs@[i].status == JobStatus::Seeded {
                        assert forall|jj: int| 0 <= jj < fss.len() implies exists|x: int|
                            0 <= x < after.len() && (#[trigger] after[x]).job_id == job_id
                                && after[x].flow_step_id == (#[trigger] fss[jj]).id
                                && after[x].sequence_id == fss[jj].sequence_id by {
                            assert(after[before.steps().len() + jj] == seed_row(
                                fss[jj],
                                job_id,
                                now,
                                before.steps().len() + jj + 1,
                            ));
                        }
                    }
                } else {
                    assert(processed(pos, k as int, i));
                    assert(step_count(after, (i + 1) as i32) == step_count(
                        before.steps(),
                        (i + 1) as i32,
                    ));
                }
            }
            assert forall|i: int|
                0 <= i < len && !processed(pos, k + 1, i) implies #[trigger] step_count(
                store.steps(),
                (i + 1) as i32,
            ) == step_count(old(store).steps(), (i + 1) as i32) by {
                assert(step_count(after, (i + 1) as i32) == step_count(
                    before.steps(),
                    (i + 1) as i32,
                ));
            }
            assert forall|i: int| 0 <= i < len implies processed(pos, k + 1, i) == (
            processed(pos, k as int, i) || i == p) by {
                if processed(pos, k + 1, i) && i != p {
                    let q = choose|q: int| 0 <= q < k + 1 && #[trigger] pos[q] == i;
                    assert(q < k);
                }
                if i == p {
                    assert(pos[k as int] == i);
                }
            }
        }
        let ghost prev = reports@;
        reports.push(rep);
        proof {
            assert forall|q: int| 0 <= q < k + 1 implies {
                &&& (#[trigger] reports@[q]).job_id == pos[q] + 1
                &&& store.jobs@[pos[q]].status == seeding_status(
                    reports@[q].inserted as int,
                    reports@[q].expected as int,
                )
            } by {
                if q < k {
                    assert(reports@[q] == prev[q]);
                    assert(pos[q] != p);
                }
            }
        }
        k = k + 1;
    }
    proof {
        assert forall|i: int| 0 <= i < len && old(store).jobs@[i].status == JobStatus::New implies processed(
            pos,
            m as int,
            i,
        ) by {
            assert(new_job_pred()(old(store).jobs@[i]));
        }
        assert forall|i: int|
            0 <= i < len && #[trigger] old(store).jobs@[i].status == JobStatus::New implies exists|q: int|
            0 <= q < reports@.len() && #[trigger] reports@[q].job_id == i + 1 by {
            assert(processed(pos, m as int, i));
            let q = choose|q: int| 0 <= q < m && #[trigger] pos[q] == i;
            assert(reports@[q].job_id == i + 1);
        }
        assert forall|i: int| 0 <= i < len implies {
            ||| #[trigger] store.jobs@[i] == old(store).jobs@[i] && old(store).jobs@[i].status
                != JobStatus::New
            ||| old(store).jobs@[i].status == JobStatus::New && store.jobs@[i] == job_with_status(
                old(store).jobs@[i],
                store.jobs@[i].status,
                now,
            )
        } && store.jobs@[i].status != JobStatus::New by {
            if old(store).jobs@[i].status == JobStatus::New {
                assert(processed(pos, m as int, i));
            }
        }
    }
    reports
}

/// One controller tick at `now`: seeds the seedable flows with today's
/// remaining triggers, materializes the steps of every new job, and
/// launches the first step of every seeded job.
#[verifier::rlimit(100)]
pub fn flow_tick(store: &mut Store, now: i64) -> (r: TickReport)
    requires
        old(store).wf(),
        valid_instant(now as int),
    ensures
        tick_relation(*old(store), *final(store), now),
        forall|i: int|
            0 <= i < old(store).flows@.len() ==> #[trigger] final(store).flows@[i]
                == flow_after_tick(old(store).flows@[i], now),
        seeded_jobs_as_planned(
            old(store).jobs@.len() as int,
            final(store).jobs@,
            job_plan(old(store).flows@, old(store).flows@.len() as int, now as int),
            now,
            true,
        ),
        forall|i: int|
            0 <= i < final(store).jobs@.len() && (i >= old(store).jobs@.len() || old(
                store,
            ).jobs@[i].status == JobStatus::New) ==> job_seeded_in(
                final(store).steps(),
                old(store).steps(),
                (i + 1) as i32,
                steps_of(old(store).flow_steps@, final(store).jobs@[i].flow_id),
                #[trigger] final(store).jobs@[i].status,
            ),
        forall|i: int|
            0 <= i < final(store).jobs@.len() && (i >= old(store).jobs@.len() || old(
                store,
            ).jobs@[i].status == JobStatus::New) ==> exists|q: int|
                0 <= q < r.jobs@.len() && #[trigger] r.jobs@[q].job_id == i + 1,
        reports_flows(r.flows@, old(store).flows@, now as int),
        forall|q: int|
            0 <= q < r.jobs@.len() ==> {
                let id = (#[trigger] r.jobs@[q]).job_id;
                &&& 1 <= id <= final(store).jobs@.len()
                &&& final(store).jobs@[id - 1].status == seeding_status(
                    r.jobs@[q].inserted as int,
                    r.jobs@[q].expected as int,
                )
            },
{
    let today = utc_fields(now);
    let flows = seed_flows(store, now, &today);
    let ghost mid = *store;
    let jobs = seed_new_jobs(store, now);
    let ghost mid2 = *store;
    store.promote_first_steps(now);
    proof {
        let n_old = old(store).jobs@.len() as int;
        let plan = job_plan(old(store).flows@, old(store).flows@.len() as int, now as int);
        assert forall|i: int|
            0 <= i < mid.jobs@.len() && (i >= n_old || old(store).jobs@[i].status
                == JobStatus::New) implies #[trigger] mid.jobs@[i].status == JobStatus::New by {
            if i < n_old {
                assert(mid.jobs@[i] == mid.jobs@.subrange(0, n_old)[i]);
            } else {
                assert(is_planned_job(
                    mid.jobs@[n_old + (i - n_old)],
                    n_old + (i - n_old) + 1,
                    plan[i - n_old].0,
                    plan[i - n_old].1,
                    plan[i - n_old].2,
                    now,
                ));
            }
        }
        assert forall|j: int| 0 <= j < fitting(n_old, plan.len() as int) implies {
            &&& is_planned_job(
                #[trigger] store.jobs@[n_old + j],
                n_old + j + 1,
                plan[j].0,
                plan[j].1,
                plan[j].2,
                now,
            )
            &&& (true || store.jobs@[n_old + j].status == JobStatus::New)
        } by {
            assert(mid.jobs@[n_old + j].status == JobStatus::New);
        }
        assert forall|i: int|
            0 <= i < store.jobs@.len() && (i >= n_old || old(store).jobs@[i].status
                == JobStatus::New) implies job_seeded_in(
            store.steps(),
            old(store).steps(),
            (i + 1) as i32,
            steps_of(old(store).flow_steps@, store.jobs@[i].flow_id),
            #[trigger] store.jobs@[i].status,
        ) by {
            assert(mid.jobs@[i].status == JobStatus::New);
            let fss = steps_of(old(store).flow_steps@, store.jobs@[i].flow_id);
            assert forall|x: int| 0 <= x < mid2.steps().len() implies (#[trigger] store.steps()[x]).job_id
                == mid2.steps()[x].job_id && store.steps()[x].flow_step_id
                == mid2.steps()[x].flow_step_id && store.steps()[x].sequence_id
                == mid2.steps()[x].sequence_id by {
                assert(store.steps()[x] == store.job_steps@[x]@);
                assert(mid2.steps()[x] == mid2.job_steps@[x]@);
            }
            lemma_same_keys(mid2.steps(), store.steps(), (i + 1) as i32, fss);
        }
        assert forall|i: int|
            0 <= i < store.jobs@.len() && (i >= n_old || old(store).jobs@[i].status
                == JobStatus::New) implies exists|q: int|
            0 <= q < jobs@.len() && #[trigger] jobs@[q].job_id == i + 1 by {
            assert(mid.jobs@[i].status == JobStatus::New);
        }
        lemma_positions(mid.jobs@, new_job_pred(), mid.jobs@.len() as int);
        let pos = new_job_positions(mid.jobs@, mid.jobs@.len() as int);
        assert forall|q: int| 0 <= q < jobs@.len() implies {
            let id = (#[trigger] jobs@[q]).job_id;
            &&& 1 <= id <= store.jobs@.len()
            &&& store.jobs@[id - 1].status == seeding_status(
                jobs@[q].inserted as int,
                jobs@[q].expected as int,
            )
        } by {
            assert(0 <= pos[q] < mid.jobs@.len());
        }
        let n_old = old(store).jobs@.len() as int;
        assert forall|k: int| 0 <= k < n_old implies {
            ||| #[trigger] store.jobs@[k] == old(store).jobs@[k] && old(store).jobs@[k].status
                != JobStatus::New
            ||| old(store).jobs@[k].status == JobStatus::New && store.jobs@[k] == job_with_status(
                old(store).jobs@[k],
                store.jobs@[k].status,
                now,
            )
        } by {
            assert(mid.jobs@[k] == mid.jobs@.subrange(0, n_old)[k]);
        }
        assert forall|k: int| n_old <= k < store.jobs@.len() implies {
            let fid = #[trigger] store.jobs@[k].flow_id;
            &&& 1 <= fid <= old(store).flows@.len()
            &&& yields_jobs(old(store).flows@[fid - 1])
        } by {
            assert(mid.jobs@[k].flow_id == mid2.jobs@[k].flow_id);
        }
        assert forall|i: int|
            0 <= i < store.job_steps@.len() && (#[trigger] store.job_steps@[i]).status
                == StepStatus::Running implies i < old(store).job_steps@.len() && old(
            store,
        ).job_steps@[i].status == StepStatus::Running by {
            assert(mid2.steps()[i].status == mid2.job_steps@[i].status);
            if i < mid.steps().len() {
                assert(mid.steps()[i].status == mid.job_steps@[i].status);
            }
        }
        assert forall|i: int| 0 <= i < store.job_steps@.len() implies !promotable(
            #[trigger] store.job_steps@[i],
            store.jobs@,
        ) by {
            if promotable(mid2.job_steps@[i], mid2.jobs@) {
                assert(store.job_steps@[i] == promoted(mid2.job_steps@[i], now));
            }
        }
    }
    TickReport { flows, jobs }
}

} // verus!
