//! The relational store: the five tables held in memory, with the typed
//! queries and conditional updates the controllers are built on. Row ids
//! are assigned in insertion order starting at 1, so the row with id `k`
//! sits at position `k - 1` of its table.

use crate::model::{
    Flow, FlowForm, FlowStep, FlowStepForm, Job, JobForm, JobStatus, JobStep, JobStepForm,
    StepStatus, Topic, TopicForm,
};
use vstd::prelude::*;

verus! {

/// The most rows a table can hold: ids are positive `i32` values.
pub const ROW_LIMIT: usize = 2147483646;

/// Why a mutation was refused.
#[derive(Clone, Copy, Debug, PartialEq, Eq, Structural)]
pub enum StoreError {
    /// The table holds `ROW_LIMIT` rows.
    Full,
    /// A referenced topic does not exist.
    MissingTopic,
    /// A referenced flow does not exist.
    MissingFlow,
    /// A referenced flow step does not exist.
    MissingFlowStep,
    /// A referenced job does not exist.
    MissingJob,
    /// The job already has a step with this sequence number.
    DuplicateStep,
    /// No job step has the given id.
    MissingJobStep,
    /// The job step is not in status `S`.
    NotScheduled,
}

/// What the store holds of a job step, with its texts as character
/// sequences.
pub struct JobStepView {
    pub id: i32,
    pub job_id: i32,
    pub flow_step_id: i32,
    pub sequence_id: i32,
    pub input_path: Seq<char>,
    pub output_path: Seq<char>,
    pub command: Seq<char>,
    pub status: StepStatus,
    pub created_dt: i64,
    pub updated_dt: Option<i64>,
}

impl View for JobStep {
    type V = JobStepView;

    open spec fn view(&self) -> JobStepView {
        JobStepView {
            id: self.id,
            job_id: self.job_id,
            flow_step_id: self.flow_step_id,
            sequence_id: self.sequence_id,
            input_path: self.input_path@,
            output_path: self.output_path@,
            command: self.command@,
            status: self.status,
            created_dt: self.created_dt,
            updated_dt: self.updated_dt,
        }
    }
}

/// The job steps of a table, as views.
pub open spec fn step_views(v: Seq<JobStep>) -> Seq<JobStepView> {
    v.map_values(|s: JobStep| s@)
}

/// Whether `steps` holds a step of `job_id` with sequence number `seq`.
pub open spec fn has_step(steps: Seq<JobStepView>, job_id: i32, seq: i32) -> bool {
    exists|k: int| 0 <= k < steps.len() && #[trigger] steps[k].job_id == job_id && steps[k].sequence_id == seq
}

/// Whether a job step for `job_id`, `flow_step_id` and `seq` can be added
/// to `steps`, given how many jobs and flow steps exist.
pub open spec fn step_insertable(
    steps: Seq<JobStepView>,
    job_id: i32,
    flow_step_id: i32,
    seq: i32,
    n_jobs: int,
    n_flow_steps: int,
) -> bool {
    &&& steps.len() < ROW_LIMIT
    &&& 1 <= job_id <= n_jobs
    &&& 1 <= flow_step_id <= n_flow_steps
    &&& !has_step(steps, job_id, seq)
}

/// The view of the row that inserting `form` with id `id` adds.
pub open spec fn step_row(form: JobStepForm, id: int) -> JobStepView {
    JobStepView {
        id: id as i32,
        job_id: form.job_id,
        flow_step_id: form.flow_step_id,
        sequence_id: form.sequence_id,
        input_path: form.input_path@,
        output_path: form.output_path@,
        command: form.command@,
        status: form.status,
        created_dt: form.created_dt,
        updated_dt: form.updated_dt,
    }
}

/// The job row that inserting `form` with id `id` adds.
pub open spec fn job_row(form: JobForm, id: int) -> Job {
    Job {
        id: id as i32,
        job_name: form.job_name,
        flow_id: form.flow_id,
        status: form.status,
        created_dt: form.created_dt,
        start_dt: form.start_dt,
        updated_dt: form.updated_dt,
    }
}

/// A flow after it has been marked as seeded at `ts`.
pub open spec fn seeded_flow(f: Flow, ts: i64) -> Flow {
    Flow { run_flg: true, updated_dt: Some(ts), ..f }
}

/// A job after its status has been set at `ts`.
pub open spec fn job_with_status(j: Job, status: JobStatus, ts: i64) -> Job {
    Job { status, updated_dt: Some(ts), ..j }
}

/// A flow that the controller considers: active and not yet seeded.
pub open spec fn seedable(f: Flow) -> bool {
    f.is_active && !f.run_flg
}

/// Positions, in increasing order, of the first `n` elements of `s` that
/// satisfy `p`.
pub open spec fn positions<T>(s: Seq<T>, p: spec_fn(T) -> bool, n: int) -> Seq<int>
    decreases n,
{
    if n <= 0 {
        Seq::empty()
    } else if p(s[n - 1]) {
        positions(s, p, n - 1).push(n - 1)
    } else {
        positions(s, p, n - 1)
    }
}

/// The positions are in range, satisfy `p`, increase, and miss none.
pub proof fn lemma_positions<T>(s: Seq<T>, p: spec_fn(T) -> bool, n: int)
    requires
        0 <= n <= s.len(),
    ensures
        forall|k: int|
            0 <= k < positions(s, p, n).len() ==> 0 <= #[trigger] positions(s, p, n)[k] < n
                && p(s[positions(s, p, n)[k]]),
        forall|j: int, k: int|
            0 <= j < k < positions(s, p, n).len() ==> #[trigger] positions(s, p, n)[j]
                < #[trigger] positions(s, p, n)[k],
        forall|i: int|
            0 <= i < n && #[trigger] p(s[i]) ==> exists|k: int|
                0 <= k < positions(s, p, n).len() && #[trigger] positions(s, p, n)[k] == i,
    decreases n,
{
    if n > 0 {
        lemma_positions(s, p, n - 1);
        let prev = positions(s, p, n - 1);
        let cur = positions(s, p, n);
        assert forall|i: int| 0 <= i < n && #[trigger] p(s[i]) implies exists|k: int|
            0 <= k < cur.len() && #[trigger] cur[k] == i by {
            if i < n - 1 {
                let k = choose|k: int| 0 <= k < prev.len() && #[trigger] prev[k] == i;
                assert(cur[k] == i);
            } else {
                assert(cur[cur.len() - 1] == i);
            }
        }
    }
}

/// `seedable` as a predicate value.
pub open spec fn seedable_pred() -> spec_fn(Flow) -> bool {
    |f: Flow| seedable(f)
}

/// Jobs in status `N`, as a predicate value.
pub open spec fn new_job_pred() -> spec_fn(Job) -> bool {
    |j: Job| j.status == JobStatus::New
}

/// Positions of the seedable flows among the first `n` flows.
pub open spec fn seedable_positions(flows: Seq<Flow>, n: int) -> Seq<int> {
    positions(flows, seedable_pred(), n)
}

/// Positions of the jobs in status `N` among the first `n` jobs.
pub open spec fn new_job_positions(jobs: Seq<Job>, n: int) -> Seq<int> {
    positions(jobs, new_job_pred(), n)
}

/// The steps of flow `flow_id` among `fss`, in table order.
pub open spec fn steps_of(fss: Seq<FlowStep>, flow_id: i32) -> Seq<FlowStep>
    decreases fss.len(),
{
    if fss.len() == 0 {
        Seq::empty()
    } else if fss.last().flow_id == flow_id {
        steps_of(fss.drop_last(), flow_id).push(fss.last())
    } else {
        steps_of(fss.drop_last(), flow_id)
    }
}

/// What `find_seedable_flows` reports of a flow.
pub struct SeedableFlow {
    pub flow_id: i32,
    pub flow_name: String,
    pub frequency: String,
    pub topic_id: Option<i32>,
}

/// What `find_new_jobs` reports of a job.
pub struct NewJob {
    pub job_id: i32,
    pub job_name: String,
    pub flow_id: i32,
    pub start_dt: Option<i64>,
}

fn copy_text_opt(o: &Option<String>) -> (r: Option<String>)
    ensures
        r == *o,
{
    match o {
        Some(s) => Some(s.clone()),
        None => None,
    }
}

fn copy_flow_step(fs: &FlowStep) -> (r: FlowStep)
    ensures
        r == *fs,
{
    FlowStep {
        id: fs.id,
        flow_step_name: fs.flow_step_name.clone(),
        sequence_id: fs.sequence_id,
        flow_id: fs.flow_id,
        input_dir: fs.input_dir.clone(),
        output_dir: fs.output_dir.clone(),
        script_path: fs.script_path.clone(),
        script_parameters: copy_text_opt(&fs.script_parameters),
        created_dt: fs.created_dt,
        updated_dt: fs.updated_dt,
    }
}

/// A first step of a job in status `S` that is still in status `N`.
pub open spec fn promotable(s: JobStep, jobs: Seq<Job>) -> bool {
    &&& s.status == StepStatus::New
    &&& s.sequence_id == 1
    &&& 1 <= s.job_id <= jobs.len()
    &&& jobs[s.job_id - 1].status == JobStatus::Seeded
}

/// A step after the launcher promoted it at `ts`.
pub open spec fn promoted(s: JobStep, ts: i64) -> JobStep {
    JobStep { status: StepStatus::Scheduled, updated_dt: Some(ts), ..s }
}

/// The five tables.
pub struct Store {
    pub topics: Vec<Topic>,
    pub flows: Vec<Flow>,
    pub flow_steps: Vec<FlowStep>,
    pub jobs: Vec<Job>,
    pub job_steps: Vec<JobStep>,
}

impl Store {
    /// Ids follow positions, tables fit the id range, and every job step
    /// refers to an existing job.
    pub open spec fn wf(&self) -> bool {
        &&& self.topics@.len() <= ROW_LIMIT
        &&& self.flows@.len() <= ROW_LIMIT
        &&& self.flow_steps@.len() <= ROW_LIMIT
        &&& self.jobs@.len() <= ROW_LIMIT
        &&& self.job_steps@.len() <= ROW_LIMIT
        &&& forall|i: int| 0 <= i < self.topics@.len() ==> #[trigger] self.topics@[i].id == i + 1
        &&& forall|i: int| 0 <= i < self.flows@.len() ==> #[trigger] self.flows@[i].id == i + 1
        &&& forall|i: int|
            0 <= i < self.flow_steps@.len() ==> #[trigger] self.flow_steps@[i].id == i + 1
        &&& forall|i: int| 0 <= i < self.jobs@.len() ==> #[trigger] self.jobs@[i].id == i + 1
        &&& forall|i: int|
            0 <= i < self.job_steps@.len() ==> #[trigger] self.job_steps@[i].id == i + 1
        &&& forall|i: int|
            0 <= i < self.job_steps@.len() ==> 1 <= #[trigger] self.job_steps@[i].job_id
                <= self.jobs@.len()
    }

    /// The job steps, as views.
    pub open spec fn steps(&self) -> Seq<JobStepView> {
        step_views(self.job_steps@)
    }

    /// An empty store.
    pub fn new() -> (r: Store)
        ensures
            r.wf(),
            r.topics@.len() == 0,
            r.flows@.len() == 0,
            r.flow_steps@.len() == 0,
            r.jobs@.len() == 0,
            r.job_steps@.len() == 0,
    {
        Store {
            topics: Vec::new(),
            flows: Vec::new(),
            flow_steps: Vec::new(),
            jobs: Vec::new(),
            job_steps: Vec::new(),
        }
    }

    /// Adds a topic and returns its id.
    pub fn insert_topic(&mut self, form: TopicForm) -> (r: Result<i32, StoreError>)
        requires
            old(self).wf(),
        ensures
            final(self).wf(),
            old(self).topics@.len() < ROW_LIMIT <==> r is Ok,
            r matches Err(e) ==> e == StoreError::Full && *final(self) == *old(self),
            r matches Ok(id) ==> {
                &&& id == old(self).topics@.len() + 1
                &&& final(self).topics@ == old(self).topics@.push(
                    Topic {
                        id,
                        topic_name: form.topic_name,
                        search_text: form.search_text,
                        landing_dir: form.landing_dir,
                        archive_dir: form.archive_dir,
                        stage_dir: form.stage_dir,
                        catalog_dir: form.catalog_dir,
                        work_dir: form.work_dir,
                        created_dt: form.created_dt,
                        updated_dt: form.updated_dt,
                    },
                )
                &&& final(self).flows == old(self).flows
                &&& final(self).flow_steps == old(self).flow_steps
                &&& final(self).jobs == old(self).jobs
                &&& final(self).job_steps == old(self).job_steps
            },
    {
        let n = self.topics.len();
        if n >= ROW_LIMIT {
            return Err(StoreError::Full);
        }
        let id = (n + 1) as i32;
        self.topics.push(
            Topic {
                id,
                topic_name: form.topic_name,
                search_text: form.search_text,
                landing_dir: form.landing_dir,
                archive_dir: form.archive_dir,
                stage_dir: form.stage_dir,
                catalog_dir: form.catalog_dir,
                work_dir: form.work_dir,
                created_dt: form.created_dt,
                updated_dt: form.updated_dt,
            },
        );
        Ok(id)
    }

    /// Adds a flow, not yet seeded, and returns its id. A topic it names
    /// must exist.
    pub fn insert_flow(&mut self, form: FlowForm) -> (r: Result<i32, StoreError>)
        requires
            old(self).wf(),
        ensures
            final(self).wf(),
            r is Ok <==> (old(self).flows@.len() < ROW_LIMIT && (form.topic_id matches Some(
                t,
            ) ==> 1 <= t <= old(self).topics@.len())),
            r matches Err(e) ==> *final(self) == *old(self) && (e == StoreError::Full <==> old(
                self,
            ).flows@.len() >= ROW_LIMIT) && (e == StoreError::Full || e
                == StoreError::MissingTopic),
            r matches Ok(id) ==> {
                &&& id == old(self).flows@.len() + 1
                &&& final(self).flows@ == old(self).flows@.push(
                    Flow {
                        id,
                        flow_name: form.flow_name,
                        topic_id: form.topic_id,
                        frequency: form.frequency,
                        is_active: form.is_active,
                        run_flg: false,
                        created_dt: form.created_dt,
                        updated_dt: form.updated_dt,
                    },
                )
                &&& final(self).topics == old(self).topics
                &&& final(self).flow_steps == old(self).flow_steps
                &&& final(self).jobs == old(self).jobs
                &&& final(self).job_steps == old(self).job_steps
            },
    {
        let n = self.flows.len();
        if n >= ROW_LIMIT {
            return Err(StoreError::Full);
        }
        if let Some(t) = form.topic_id {
            if t < 1 || t as usize > self.topics.len() {
                return Err(StoreError::MissingTopic);
            }
        }
        let id = (n + 1) as i32;
        self.flows.push(
            Flow {
                id,
                flow_name: form.flow_name,
                topic_id: form.topic_id,
                frequency: form.frequency,
                is_active: form.is_active,
                run_flg: false,
                created_dt: form.created_dt,
                updated_dt: form.updated_dt,
            },
        );
        Ok(id)
    }

    /// Adds a step to an existing flow and returns its id.
    pub fn insert_flow_step(&mut self, form: FlowStepForm) -> (r: Result<i32, StoreError>)
        requires
            old(self).wf(),
        ensures
            final(self).wf(),
            r is Ok <==> (old(self).flow_steps@.len() < ROW_LIMIT && 1 <= form.flow_id <= old(
                self,
            ).flows@.len()),
            r matches Err(e) ==> *final(self) == *old(self) && (e == StoreError::Full <==> old(
                self,
            ).flow_steps@.len() >= ROW_LIMIT) && (e == StoreError::Full || e
                == StoreError::MissingFlow),
            r matches Ok(id) ==> {
                &&& id == old(self).flow_steps@.len() + 1
                &&& final(self).flow_steps@ == old(self).flow_steps@.push(
                    FlowStep {
                        id,
                        flow_step_name: form.flow_step_name,
                        sequence_id: form.sequence_id,
                        flow_id: form.flow_id,
                        input_dir: form.input_dir,
                        output_dir: form.output_dir,
                        script_path: form.script_path,
                        script_parameters: form.script_parameters,
                        created_dt: form.created_dt,
                        updated_dt: form.updated_dt,
                    },
                )
                &&& final(self).topics == old(self).topics
                &&& final(self).flows == old(self).flows
                &&& final(self).jobs == old(self).jobs
                &&& final(self).job_steps == old(self).job_steps
            },
    {
        let n = self.flow_steps.len();
        if n >= ROW_LIMIT {
            return Err(StoreError::Full);
        }
        if form.flow_id < 1 || form.flow_id as usize > self.flows.len() {
            return Err(StoreError::MissingFlow);
        }
        let id = (n + 1) as i32;
        self.flow_steps.push(
            FlowStep {
                id,
                flow_step_name: form.flow_step_name,
                sequence_id: form.sequence_id,
                flow_id: form.flow_id,
                input_dir: form.input_dir,
                output_dir: form.output_dir,
                script_path: form.script_path,
                script_parameters: form.script_parameters,
                created_dt: form.created_dt,
                updated_dt: form.updated_dt,
            },
        );
        Ok(id)
    }

    /// Adds a job of an existing flow and returns its id.
    pub fn insert_job(&mut self, form: JobForm) -> (r: Result<i32, StoreError>)
        requires
            old(self).wf(),
        ensures
            final(self).wf(),
            r is Ok <==> (old(self).jobs@.len() < ROW_LIMIT && 1 <= form.flow_id <= old(
                self,
            ).flows@.len()),
            r matches Err(e) ==> *final(self) == *old(self) && (e == StoreError::Full <==> old(
                self,
            ).jobs@.len() >= ROW_LIMIT) && (e == StoreError::Full || e
                == StoreError::MissingFlow),
            r matches Ok(id) ==> {
                &&& id == old(self).jobs@.len() + 1
                &&& final(self).jobs@ == old(self).jobs@.push(job_row(form, id as int))
                &&& final(self).topics == old(self).topics
                &&& final(self).flows == old(self).flows
                &&& final(self).flow_steps == old(self).flow_steps
                &&& final(self).job_steps == old(self).job_steps
            },
    {
        let n = self.jobs.len();
        if n >= ROW_LIMIT {
            return Err(StoreError::Full);
        }
        if form.flow_id < 1 || form.flow_id as usize > self.flows.len() {
            return Err(StoreError::MissingFlow);
        }
        let id = (n + 1) as i32;
        self.jobs.push(
            Job {
                id,
                job_name: form.job_name,
                flow_id: form.flow_id,
                status: form.status,
                created_dt: form.created_dt,
                start_dt: form.start_dt,
                updated_dt: form.updated_dt,
            },
        );
        Ok(id)
    }

    /// Marks a flow as seeded: sets `run_flg` and the update time of every
    /// flow row with id `flow_id`.
    pub fn mark_flow_seeded(&mut self, flow_id: i32, ts: i64)
        requires
            old(self).wf(),
        ensures
            final(self).wf(),
            final(self).flows@.len() == old(self).flows@.len(),
            forall|i: int|
                0 <= i < old(self).flows@.len() ==> #[trigger] final(self).flows@[i] == if old(
                    self,
                ).flows@[i].id == flow_id {
                    seeded_flow(old(self).flows@[i], ts)
                } else {
                    old(self).flows@[i]
                },
            final(self).topics == old(self).topics,
            final(self).flow_steps == old(self).flow_steps,
            final(self).jobs == old(self).jobs,
            final(self).job_steps == old(self).job_steps,
    {
        let n = self.flows.len();
        let mut i: usize = 0;
        while i < n
            invariant
                n == self.flows@.len(),
                n == old(self).flows@.len(),
                i <= n,
                self.wf(),
                forall|k: int|
                    0 <= k < n ==> #[trigger] self.flows@[k] == if k < i && old(self).flows@[k].id
                        == flow_id {
                        seeded_flow(old(self).flows@[k], ts)
                    } else {
                        old(self).flows@[k]
                    },
                self.topics == old(self).topics,
                self.flow_steps == old(self).flow_steps,
                self.jobs == old(self).jobs,
                self.job_steps == old(self).job_steps,
            decreases n - i,
        {
            if self.flows[i].id == flow_id {
                self.flows[i].run_flg = true;
                self.flows[i].updated_dt = Some(ts);
            }
            i = i + 1;
        }
    }

    /// Sets the status of the job with id `job_id`.
    pub fn set_job_status(&mut self, job_id: i32, status: JobStatus, ts: i64) -> (r: Result<
        (),
        StoreError,
    >)
        requires
            old(self).wf(),
        ensures
            final(self).wf(),
            r is Ok <==> 1 <= job_id <= old(self).jobs@.len(),
            r matches Err(e) ==> e == StoreError::MissingJob && *final(self) == *old(self),
            r is Ok ==> final(self).jobs@ == old(self).jobs@.update(
                job_id - 1,
                job_with_status(old(self).jobs@[job_id - 1], status, ts),
            ),
            final(self).topics == old(self).topics,
            final(self).flows == old(self).flows,
            final(self).flow_steps == old(self).flow_steps,
            final(self).job_steps == old(self).job_steps,
    {
        if job_id < 1 || job_id as usize > self.jobs.len() {
            return Err(StoreError::MissingJob);
        }
        let i = (job_id - 1) as usize;
        self.jobs[i].status = status;
        self.jobs[i].updated_dt = Some(ts);
        assert(self.jobs@ =~= old(self).jobs@.update(
            job_id - 1,
            job_with_status(old(self).jobs@[job_id - 1], status, ts),
        ));
        Ok(())
    }

    /// Adds a step to a job and returns its id. The job and the flow step
    /// must exist, and the job must not already have a step with the same
    /// sequence number.
    pub fn insert_job_step(&mut self, form: JobStepForm) -> (r: Result<i32, StoreError>)
        requires
            old(self).wf(),
        ensures
            final(self).wf(),
            r is Ok <==> step_insertable(
                old(self).steps(),
                form.job_id,
                form.flow_step_id,
                form.sequence_id,
                old(self).jobs@.len() as int,
                old(self).flow_steps@.len() as int,
            ),
            r matches Err(e) ==> {
                &&& *final(self) == *old(self)
                &&& (e == StoreError::Full <==> old(self).job_steps@.len() >= ROW_LIMIT)
                &&& (e == StoreError::MissingJob <==> (old(self).job_steps@.len() < ROW_LIMIT
                    && !(1 <= form.job_id <= old(self).jobs@.len())))
                &&& (e == StoreError::MissingFlowStep <==> (old(self).job_steps@.len()
                    < ROW_LIMIT && 1 <= form.job_id <= old(self).jobs@.len() && !(1
                    <= form.flow_step_id <= old(self).flow_steps@.len())))
                &&& (e == StoreError::Full || e == StoreError::MissingJob || e
                    == StoreError::MissingFlowStep || e == StoreError::DuplicateStep)
            },
            r matches Ok(id) ==> {
                &&& id == old(self).job_steps@.len() + 1
                &&& final(self).steps() == old(self).steps().push(step_row(form, id as int))
                &&& final(self).job_steps@[id - 1] == (JobStep {
                    id,
                    job_id: form.job_id,
                    flow_step_id: form.flow_step_id,
                    sequence_id: form.sequence_id,
                    input_path: form.input_path,
                    output_path: form.output_path,
                    command: form.command,
                    status: form.status,
                    created_dt: form.created_dt,
                    updated_dt: form.updated_dt,
                })
                &&& final(self).topics == old(self).topics
                &&& final(self).flows == old(self).flows
                &&& final(self).flow_steps == old(self).flow_steps
                &&& final(self).jobs == old(self).jobs
            },
    {
        let n = self.job_steps.len();
        if n >= ROW_LIMIT {
            return Err(StoreError::Full);
        }
        if form.job_id < 1 || form.job_id as usize > self.jobs.len() {
            return Err(StoreError::MissingJob);
        }
        if form.flow_step_id < 1 || form.flow_step_id as usize > self.flow_steps.len() {
            return Err(StoreError::MissingFlowStep);
        }
        let mut k: usize = 0;
        while k < n
            invariant
                n == self.job_steps@.len(),
                n < ROW_LIMIT,
                k <= n,
                *self == *old(self),
                self.wf(),
                1 <= form.job_id <= self.jobs@.len(),
                1 <= form.flow_step_id <= self.flow_steps@.len(),
                forall|j: int|
                    0 <= j < k ==> !(#[trigger] self.job_steps@[j].job_id == form.job_id
                        && self.job_steps@[j].sequence_id == form.sequence_id),
            decreases n - k,
        {
            if self.job_steps[k].job_id == form.job_id && self.job_steps[k].sequence_id
                == form.sequence_id {
                assert(self.steps()[k as int].job_id == form.job_id);
                return Err(StoreError::DuplicateStep);
            }
            k = k + 1;
        }
        assert(!has_step(self.steps(), form.job_id, form.sequence_id)) by {
            assert forall|j: int| 0 <= j < self.steps().len() implies !(
            #[trigger] self.steps()[j].job_id == form.job_id && self.steps()[j].sequence_id
                == form.sequence_id) by {
                assert(self.steps()[j] == self.job_steps@[j]@);
            }
        }
        let id = (n + 1) as i32;
        let row = JobStep {
            id,
            job_id: form.job_id,
            flow_step_id: form.flow_step_id,
            sequence_id: form.sequence_id,
            input_path: form.input_path,
            output_path: form.output_path,
            command: form.command,
            status: form.status,
            created_dt: form.created_dt,
            updated_dt: form.updated_dt,
        };
        self.job_steps.push(row);
        assert(self.steps() =~= old(self).steps().push(step_row(form, id as int)));
        Ok(id)
    }

    /// The job launcher's update: every step with sequence number 1 and
    /// status `N` whose job has status `S` moves to `S` at `ts`.
    pub fn promote_first_steps(&mut self, ts: i64)
        requires
            old(self).wf(),
        ensures
            final(self).wf(),
            final(self).job_steps@.len() == old(self).job_steps@.len(),
            forall|i: int|
                0 <= i < old(self).job_steps@.len() ==> #[trigger] final(self).job_steps@[i] == if promotable(
                    old(self).job_steps@[i],
                    old(self).jobs@,
                ) {
                    promoted(old(self).job_steps@[i], ts)
                } else {
                    old(self).job_steps@[i]
                },
            final(self).topics == old(self).topics,
            final(self).flows == old(self).flows,
            final(self).flow_steps == old(self).flow_steps,
            final(self).jobs == old(self).jobs,
    {
        let n = self.job_steps.len();
        let mut i: usize = 0;
        while i < n
            invariant
                n == self.job_steps@.len(),
                n == old(self).job_steps@.len(),
                i <= n,
                self.wf(),
                forall|k: int|
                    0 <= k < n ==> #[trigger] self.job_steps@[k] == if k < i && promotable(
                        old(self).job_steps@[k],
                        old(self).jobs@,
                    ) {
                        promoted(old(self).job_steps@[k], ts)
                    } else {
                        old(self).job_steps@[k]
                    },
                self.topics == old(self).topics,
                self.flows == old(self).flows,
                self.flow_steps == old(self).flow_steps,
                self.jobs == old(self).jobs,
            decreases n - i,
        {
            let job_id = self.job_steps[i].job_id;
            if self.job_steps[i].status == StepStatus::New && self.job_steps[i].sequence_id == 1
                && self.jobs[(job_id - 1) as usize].status == JobStatus::Seeded {
                self.job_steps[i].status = StepStatus::Scheduled;
                self.job_steps[i].updated_dt = Some(ts);
            }
            i = i + 1;
        }
    }

    /// Records that a worker took the step with id `job_step_id`: the step
    /// moves from `S` to `R` with the given command. A step in any other
    /// status is left alone.
    pub fn set_job_step_running(&mut self, job_step_id: i32, command: String, ts: i64) -> (r:
        Result<(), StoreError>)
        requires
            old(self).wf(),
        ensures
            final(self).wf(),
            r is Ok <==> (1 <= job_step_id <= old(self).job_steps@.len() && old(
                self,
            ).job_steps@[job_step_id - 1].status == StepStatus::Scheduled),
            r matches Err(e) ==> *final(self) == *old(self) && (e == StoreError::MissingJobStep
                <==> !(1 <= job_step_id <= old(self).job_steps@.len())) && (e
                == StoreError::MissingJobStep || e == StoreError::NotScheduled),
            r is Ok ==> final(self).job_steps@ == old(self).job_steps@.update(
                job_step_id - 1,
                JobStep {
                    status: StepStatus::Running,
                    command,
                    updated_dt: Some(ts),
                    ..old(self).job_steps@[job_step_id - 1]
                },
            ),
            final(self).topics == old(self).topics,
            final(self).flows == old(self).flows,
            final(self).flow_steps == old(self).flow_steps,
            final(self).jobs == old(self).jobs,
    {
        if job_step_id < 1 || job_step_id as usize > self.job_steps.len() {
            return Err(StoreError::MissingJobStep);
        }
        let i = (job_step_id - 1) as usize;
        if self.job_steps[i].status != StepStatus::Scheduled {
            return Err(StoreError::NotScheduled);
        }
        self.job_steps[i].status = StepStatus::Running;
        self.job_steps[i].command = command;
        self.job_steps[i].updated_dt = Some(ts);
        Ok(())
    }

    /// The flows that are active and not yet seeded, in table order.
    pub fn find_seedable_flows(&self) -> (r: Vec<SeedableFlow>)
        ensures
            r@.len() == seedable_positions(self.flows@, self.flows@.len() as int).len(),
            forall|k: int|
                0 <= k < r@.len() ==> {
                    let f = self.flows@[seedable_positions(self.flows@, self.flows@.len() as int)[k]];
                    &&& (#[trigger] r@[k]).flow_id == f.id
                    &&& r@[k].flow_name == f.flow_name
                    &&& r@[k].frequency == f.frequency
                    &&& r@[k].topic_id == f.topic_id
                },
    {
        let n = self.flows.len();
        let mut out: Vec<SeedableFlow> = Vec::new();
        let mut i: usize = 0;
        while i < n
            invariant
                n == self.flows@.len(),
                i <= n,
                out@.len() == seedable_positions(self.flows@, i as int).len(),
                forall|k: int|
                    0 <= k < out@.len() ==> {
                        let f = self.flows@[seedable_positions(self.flows@, i as int)[k]];
                        &&& (#[trigger] out@[k]).flow_id == f.id
                        &&& out@[k].flow_name == f.flow_name
                        &&& out@[k].frequency == f.frequency
                        &&& out@[k].topic_id == f.topic_id
                    },
            decreases n - i,
        {
            let f = &self.flows[i];
            if f.is_active && !f.run_flg {
                let ghost prev = out@;
                out.push(
                    SeedableFlow {
                        flow_id: f.id,
                        flow_name: f.flow_name.clone(),
                        frequency: f.frequency.clone(),
                        topic_id: f.topic_id,
                    },
                );
                assert(forall|k: int| 0 <= k < prev.len() ==> out@[k] == prev[k]);
            }
            i = i + 1;
        }
        out
    }

    /// The jobs in status `N`, in table order.
    pub fn find_new_jobs(&self) -> (r: Vec<NewJob>)
        ensures
            r@.len() == new_job_positions(self.jobs@, self.jobs@.len() as int).len(),
            forall|k: int|
                0 <= k < r@.len() ==> {
                    let j = self.jobs@[new_job_positions(self.jobs@, self.jobs@.len() as int)[k]];
                    &&& (#[trigger] r@[k]).job_id == j.id
                    &&& r@[k].job_name == j.job_name
                    &&& r@[k].flow_id == j.flow_id
                    &&& r@[k].start_dt == j.start_dt
                },
    {
        let n = self.jobs.len();
        let mut out: Vec<NewJob> = Vec::new();
        let mut i: usize = 0;
        while i < n
            invariant
                n == self.jobs@.len(),
                i <= n,
                out@.len() == new_job_positions(self.jobs@, i as int).len(),
                forall|k: int|
                    0 <= k < out@.len() ==> {
                        let j = self.jobs@[new_job_positions(self.jobs@, i as int)[k]];
                        &&& (#[trigger] out@[k]).job_id == j.id
                        &&& out@[k].job_name == j.job_name
                        &&& out@[k].flow_id == j.flow_id
                        &&& out@[k].start_dt == j.start_dt
                    },
            decreases n - i,
        {
            let j = &self.jobs[i];
            if j.status == JobStatus::New {
                let ghost prev = out@;
                out.push(
                    NewJob {
                        job_id: j.id,
                        job_name: j.job_name.clone(),
                        flow_id: j.flow_id,
                        start_dt: j.start_dt,
                    },
                );
                assert(forall|k: int| 0 <= k < prev.len() ==> out@[k] == prev[k]);
            }
            i = i + 1;
        }
        out
    }

    /// The steps of flow `flow_id`, in table order.
    pub fn find_flow_steps(&self, flow_id: i32) -> (r: Vec<FlowStep>)
        ensures
            r@ == steps_of(self.flow_steps@, flow_id),
    {
        let n = self.flow_steps.len();
        let mut out: Vec<FlowStep> = Vec::new();
        let mut i: usize = 0;
        while i < n
            invariant
                n == self.flow_steps@.len(),
                i <= n,
                out@ == steps_of(self.flow_steps@.take(i as int), flow_id),
            decreases n - i,
        {
            assert(self.flow_steps@.take(i + 1).drop_last() =~= self.flow_steps@.take(i as int));
            if self.flow_steps[i].flow_id == flow_id {
                out.push(copy_flow_step(&self.flow_steps[i]));
            }
            i = i + 1;
        }
        assert(self.flow_steps@.take(n as int) =~= self.flow_steps@);
        out
    }
}

} // verus!
