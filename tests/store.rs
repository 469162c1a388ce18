use ct_nlp::model::{FlowForm, FlowStepForm, JobForm, JobStatus, JobStepForm, StepStatus};
use ct_nlp::store::{Store, StoreError};

fn flow(topic: Option<i32>) -> FlowForm {
    FlowForm {
        flow_name: "f".to_string(),
        topic_id: topic,
        is_active: true,
        frequency: "0 0 12 * * * *".to_string(),
        created_dt: 0,
        updated_dt: None,
    }
}

fn flow_step(flow_id: i32) -> FlowStepForm {
    FlowStepForm {
        flow_step_name: "s".to_string(),
        sequence_id: 1,
        flow_id,
        input_dir: "i".to_string(),
        output_dir: "o".to_string(),
        script_path: "p".to_string(),
        script_parameters: None,
        created_dt: 0,
        updated_dt: None,
    }
}

fn job(flow_id: i32) -> JobForm {
    JobForm {
        job_name: "j".to_string(),
        flow_id,
        status: JobStatus::New,
        created_dt: 0,
        start_dt: None,
        updated_dt: None,
    }
}

fn job_step(job_id: i32, flow_step_id: i32, seq: i32) -> JobStepForm {
    JobStepForm {
        job_id,
        flow_step_id,
        sequence_id: seq,
        input_path: "i".to_string(),
        output_path: "o".to_string(),
        command: String::new(),
        status: StepStatus::New,
        created_dt: 0,
        updated_dt: None,
    }
}

fn one_of_each() -> Store {
    let mut st = Store::new();
    st.insert_flow(flow(None)).unwrap();
    st.insert_flow_step(flow_step(1)).unwrap();
    st.insert_job(job(1)).unwrap();
    st
}

#[test]
fn ids_follow_insertion_order() {
    let mut st = one_of_each();
    assert_eq!(st.insert_job(job(1)), Ok(2));
    assert_eq!(st.insert_job_step(job_step(1, 1, 1)), Ok(1));
    assert_eq!(st.insert_job_step(job_step(2, 1, 1)), Ok(2));
    assert_eq!(st.job_steps[1].job_id, 2);
}

#[test]
fn foreign_keys_are_checked() {
    let mut st = one_of_each();
    assert_eq!(st.insert_flow(flow(Some(1))), Err(StoreError::MissingTopic));
    assert_eq!(st.insert_flow_step(flow_step(5)), Err(StoreError::MissingFlow));
    assert_eq!(st.insert_job(job(0)), Err(StoreError::MissingFlow));
    assert_eq!(st.insert_job_step(job_step(2, 1, 1)), Err(StoreError::MissingJob));
    assert_eq!(st.insert_job_step(job_step(1, 9, 1)), Err(StoreError::MissingFlowStep));
    assert_eq!(st.jobs.len(), 1);
    assert_eq!(st.job_steps.len(), 0);
}

#[test]
fn duplicate_sequence_in_a_job_is_refused() {
    let mut st = one_of_each();
    assert_eq!(st.insert_job_step(job_step(1, 1, 1)), Ok(1));
    assert_eq!(st.insert_job_step(job_step(1, 1, 1)), Err(StoreError::DuplicateStep));
    assert_eq!(st.insert_job_step(job_step(1, 1, 2)), Ok(2));
}

#[test]
fn running_requires_a_scheduled_step() {
    let mut st = one_of_each();
    st.insert_job_step(job_step(1, 1, 1)).unwrap();
    assert_eq!(
        st.set_job_step_running(1, "cmd".to_string(), 5),
        Err(StoreError::NotScheduled)
    );
    assert_eq!(st.job_steps[0].status, StepStatus::New);
    assert_eq!(
        st.set_job_step_running(2, String::new(), 5),
        Err(StoreError::MissingJobStep)
    );
    st.set_job_status(1, JobStatus::Seeded, 3).unwrap();
    st.promote_first_steps(4);
    assert_eq!(st.job_steps[0].status, StepStatus::Scheduled);
    assert_eq!(st.job_steps[0].updated_dt, Some(4));
    assert_eq!(st.set_job_step_running(1, String::new(), 5), Ok(()));
    assert_eq!(st.job_steps[0].status, StepStatus::Running);
    assert_eq!(st.job_steps[0].updated_dt, Some(5));
    // a second worker cannot take it
    assert_eq!(
        st.set_job_step_running(1, String::new(), 6),
        Err(StoreError::NotScheduled)
    );
}

#[test]
fn launcher_promotes_only_first_steps_of_seeded_jobs() {
    let mut st = one_of_each();
    st.insert_job(job(1)).unwrap();
    st.insert_job_step(job_step(1, 1, 1)).unwrap();
    st.insert_job_step(job_step(1, 1, 2)).unwrap();
    st.insert_job_step(job_step(2, 1, 1)).unwrap();
    st.set_job_status(1, JobStatus::Seeded, 1).unwrap();
    st.set_job_status(2, JobStatus::Failed, 1).unwrap();
    st.promote_first_steps(2);
    let statuses: Vec<StepStatus> = st.job_steps.iter().map(|s| s.status).collect();
    assert_eq!(
        statuses,
        vec![StepStatus::Scheduled, StepStatus::New, StepStatus::New]
    );
}

#[test]
fn set_job_status_of_missing_job_fails() {
    let mut st = one_of_each();
    assert_eq!(
        st.set_job_status(2, JobStatus::Seeded, 1),
        Err(StoreError::MissingJob)
    );
    assert_eq!(st.set_job_status(1, JobStatus::Failed, 9), Ok(()));
    assert_eq!(st.jobs[0].status, JobStatus::Failed);
    assert_eq!(st.jobs[0].updated_dt, Some(9));
}

#[test]
fn status_codes_round_trip() {
    for s in [JobStatus::New, JobStatus::Seeded, JobStatus::Failed] {
        assert_eq!(JobStatus::from_code(s.code()), Some(s));
    }
    for s in [
        StepStatus::New,
        StepStatus::Scheduled,
        StepStatus::Running,
        StepStatus::Completed,
        StepStatus::Failed,
    ] {
        assert_eq!(StepStatus::from_code(s.code()), Some(s));
    }
    assert_eq!(StepStatus::Running.code(), 'R');
    assert_eq!(JobStatus::from_code('X'), None);
    assert_eq!(StepStatus::from_code('S'), Some(StepStatus::Scheduled));
}

#[test]
fn queries_filter_in_table_order() {
    let mut st = one_of_each();
    st.insert_flow(flow(None)).unwrap();
    let mut off = flow(None);
    off.is_active = false;
    st.insert_flow(off).unwrap();
    st.mark_flow_seeded(1, 7);
    let seedable = st.find_seedable_flows();
    assert_eq!(seedable.len(), 1);
    assert_eq!(seedable[0].flow_id, 2);
    assert_eq!(seedable[0].frequency, "0 0 12 * * * *");

    st.insert_job(job(2)).unwrap();
    st.set_job_status(1, JobStatus::Seeded, 1).unwrap();
    let new_jobs = st.find_new_jobs();
    assert_eq!(new_jobs.len(), 1);
    assert_eq!(new_jobs[0].job_id, 2);
    assert_eq!(new_jobs[0].flow_id, 2);

    st.insert_flow_step(flow_step(2)).unwrap();
    st.insert_flow_step(flow_step(1)).unwrap();
    let steps = st.find_flow_steps(1);
    let ids: Vec<i32> = steps.iter().map(|s| s.id).collect();
    assert_eq!(ids, vec![1, 3]);
    assert_eq!(steps[1].script_path, "p");
    assert_eq!(st.find_flow_steps(9).len(), 0);
}
