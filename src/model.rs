//! Rows of the five relational tables (topic, flow, flow_step, job,
//! job_step), the forms used to insert them, and the status codes.
//! Timestamps are seconds since the Unix epoch.

use vstd::prelude::*;

verus! {

/// Status of a job: `N` new, `S` seeded, `F` failed.
#[derive(Clone, Copy, Debug, PartialEq, Eq, Structural)]
pub enum JobStatus {
    New,
    Seeded,
    Failed,
}

/// Status of a job step: `N` new, `S` scheduled, `R` running,
/// `C` completed, `F` failed.
#[derive(Clone, Copy, Debug, PartialEq, Eq, Structural)]
pub enum StepStatus {
    New,
    Scheduled,
    Running,
    Completed,
    Failed,
}

impl JobStatus {
    pub open spec fn spec_code(self) -> char {
        match self {
            JobStatus::New => 'N',
            JobStatus::Seeded => 'S',
            JobStatus::Failed => 'F',
        }
    }

    /// The single-letter code stored in the table.
    pub fn code(&self) -> (c: char)
        ensures
            c == self.spec_code(),
    {
        match self {
            JobStatus::New => 'N',
            JobStatus::Seeded => 'S',
            JobStatus::Failed => 'F',
        }
    }

    /// The status with the given code, if any.
    pub fn from_code(c: char) -> (r: Option<JobStatus>)
        ensures
            r matches Some(s) ==> s.spec_code() == c,
            r is None <==> (c != 'N' && c != 'S' && c != 'F'),
    {
        if c == 'N' {
            Some(JobStatus::New)
        } else if c == 'S' {
            Some(JobStatus::Seeded)
        } else if c == 'F' {
            Some(JobStatus::Failed)
        } else {
            None
        }
    }
}

impl StepStatus {
    pub open spec fn spec_code(self) -> char {
        match self {
            StepStatus::New => 'N',
            StepStatus::Scheduled => 'S',
            StepStatus::Running => 'R',
            StepStatus::Completed => 'C',
            StepStatus::Failed => 'F',
        }
    }

    /// The single-letter code stored in the table.
    pub fn code(&self) -> (c: char)
        ensures
            c == self.spec_code(),
    {
        match self {
            StepStatus::New => 'N',
            StepStatus::Scheduled => 'S',
            StepStatus::Running => 'R',
            StepStatus::Completed => 'C',
            StepStatus::Failed => 'F',
        }
    }

    /// The status with the given code, if any.
    pub fn from_code(c: char) -> (r: Option<StepStatus>)
        ensures
            r matches Some(s) ==> s.spec_code() == c,
            r is None <==> (c != 'N' && c != 'S' && c != 'R' && c != 'C' && c != 'F'),
    {
        if c == 'N' {
            Some(StepStatus::New)
        } else if c == 'S' {
            Some(StepStatus::Scheduled)
        } else if c == 'R' {
            Some(StepStatus::Running)
        } else if c == 'C' {
            Some(StepStatus::Completed)
        } else if c == 'F' {
            Some(StepStatus::Failed)
        } else {
            None
        }
    }
}

/// A subject (search term) that flows are attached to.
#[derive(Clone, Debug)]
pub struct Topic {
    pub id: i32,
    pub topic_name: String,
    pub search_text: String,
    pub landing_dir: Option<String>,
    pub archive_dir: Option<String>,
    pub stage_dir: Option<String>,
    pub catalog_dir: Option<String>,
    pub work_dir: Option<String>,
    pub created_dt: i64,
    pub updated_dt: Option<i64>,
}

/// A named, recurring pipeline definition.
#[derive(Clone, Debug)]
pub struct Flow {
    pub id: i32,
    pub flow_name: String,
    pub topic_id: Option<i32>,
    pub frequency: String,
    pub is_active: bool,
    pub run_flg: bool,
    pub created_dt: i64,
    pub updated_dt: Option<i64>,
}

/// An ordered stage of a flow, naming an external script.
#[derive(Clone, Debug)]
pub struct FlowStep {
    pub id: i32,
    pub flow_step_name: String,
    pub sequence_id: i32,
    pub flow_id: i32,
    pub input_dir: String,
    pub output_dir: String,
    pub script_path: String,
    pub script_parameters: Option<String>,
    pub created_dt: i64,
    pub updated_dt: Option<i64>,
}

/// One dated instance of a flow.
#[derive(Clone, Debug)]
pub struct Job {
    pub id: i32,
    pub job_name: String,
    pub flow_id: i32,
    pub status: JobStatus,
    pub created_dt: i64,
    pub start_dt: Option<i64>,
    pub updated_dt: Option<i64>,
}

/// One execution of a flow step inside a job.
#[derive(Clone, Debug)]
pub struct JobStep {
    pub id: i32,
    pub job_id: i32,
    pub flow_step_id: i32,
    pub sequence_id: i32,
    pub input_path: String,
    pub output_path: String,
    pub command: String,
    pub status: StepStatus,
    pub created_dt: i64,
    pub updated_dt: Option<i64>,
}

/// Values of a topic row to insert.
#[derive(Clone, Debug)]
pub struct TopicForm {
    pub topic_name: String,
    pub search_text: String,
    pub landing_dir: Option<String>,
    pub archive_dir: Option<String>,
    pub stage_dir: Option<String>,
    pub catalog_dir: Option<String>,
    pub work_dir: Option<String>,
    pub created_dt: i64,
    pub updated_dt: Option<i64>,
}

/// Values of a flow row to insert; a new flow is not yet seeded.
#[derive(Clone, Debug)]
pub struct FlowForm {
    pub flow_name: String,
    pub topic_id: Option<i32>,
    pub is_active: bool,
    pub frequency: String,
    pub created_dt: i64,
    pub updated_dt: Option<i64>,
}

/// Values of a flow step row to insert.
#[derive(Clone, Debug)]
pub struct FlowStepForm {
    pub flow_step_name: String,
    pub sequence_id: i32,
    pub flow_id: i32,
    pub input_dir: String,
    pub output_dir: String,
    pub script_path: String,
    pub script_parameters: Option<String>,
    pub created_dt: i64,
    pub updated_dt: Option<i64>,
}

/// Values of a job row to insert.
#[derive(Clone, Debug)]
pub struct JobForm {
    pub job_name: String,
    pub flow_id: i32,
    pub status: JobStatus,
    pub created_dt: i64,
    pub start_dt: Option<i64>,
    pub updated_dt: Option<i64>,
}

/// Values of a job step row to insert.
#[derive(Clone, Debug)]
pub struct JobStepForm {
    pub job_id: i32,
    pub flow_step_id: i32,
    pub sequence_id: i32,
    pub input_path: String,
    pub output_path: String,
    pub command: String,
    pub status: StepStatus,
    pub created_dt: i64,
    pub updated_dt: Option<i64>,
}

} // verus!
