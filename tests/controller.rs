use ct_nlp::clock::utc_time_of;
use ct_nlp::controller::{flow_tick, job_name, seed_job, seeding_outcome, FlowOutcome};
use ct_nlp::model::{FlowForm, FlowStepForm, JobStatus, StepStatus, TopicForm};
use ct_nlp::store::Store;

// 2024-01-15T00:00:00Z
const DAY: i64 = 1705276800;
const EIGHT_AM: i64 = DAY + 8 * 3600;
const NOON: i64 = DAY + 12 * 3600;

fn topic_form(name: &str) -> TopicForm {
    TopicForm {
        topic_name: name.to_string(),
        search_text: name.to_string(),
        landing_dir: None,
        archive_dir: None,
        stage_dir: None,
        catalog_dir: None,
        work_dir: None,
        created_dt: DAY,
        updated_dt: None,
    }
}

fn flow_form(name: &str, topic: Option<i32>, freq: &str, active: bool) -> FlowForm {
    FlowForm {
        flow_name: name.to_string(),
        topic_id: topic,
        is_active: active,
        frequency: freq.to_string(),
        created_dt: DAY,
        updated_dt: None,
    }
}

fn step_form(flow_id: i32, seq: i32, script: &str) -> FlowStepForm {
    FlowStepForm {
        flow_step_name: format!("step{}", seq),
        sequence_id: seq,
        flow_id,
        input_dir: format!("/in/{}", seq),
        output_dir: format!("/out/{}", seq),
        script_path: script.to_string(),
        script_parameters: Some("--topic_id --output_dir".to_string()),
        created_dt: DAY,
        updated_dt: None,
    }
}

/// Seven topics and nine inactive filler flows, so the next flow gets id 10.
fn base_store() -> Store {
    let mut st = Store::new();
    for k in 0..7 {
        st.insert_topic(topic_form(&format!("t{}", k))).unwrap();
    }
    for k in 0..9 {
        st.insert_flow(flow_form(&format!("filler-{}", k), None, "0 0 12 * * * *", false))
            .unwrap();
    }
    st
}

fn steps_of_job(st: &Store, job_id: i32) -> usize {
    st.job_steps.iter().filter(|s| s.job_id == job_id).count()
}

#[test]
fn job_name_formats_topic_flow_date_and_index() {
    let date = utc_time_of(EIGHT_AM);
    assert_eq!(job_name(7, "nlp-land", &date, 0), "7_nlp_land_2024_01_15_0");
    assert_eq!(job_name(-3, "a-b-c", &date, 12), "-3_a_b_c_2024_01_15_12");
}

#[test]
fn single_daily_flow_with_topic_seeds_one_job() {
    let mut st = base_store();
    let fid = st
        .insert_flow(flow_form("nlp-land", Some(7), "0 0 12 * * * *", true))
        .unwrap();
    assert_eq!(fid, 10);
    st.insert_flow_step(step_form(10, 1, "nlp_topic_land")).unwrap();
    st.insert_flow_step(step_form(10, 2, "nlp_stage")).unwrap();
    let report = flow_tick(&mut st, EIGHT_AM);
    assert_eq!(st.jobs.len(), 1);
    let job = &st.jobs[0];
    assert_eq!(job.job_name, "7_nlp_land_2024_01_15_0");
    assert_eq!(job.flow_id, 10);
    assert_eq!(job.status, JobStatus::Seeded);
    assert_eq!(job.start_dt, Some(NOON));
    assert_eq!(steps_of_job(&st, job.id), 2);
    assert!(st.flows[9].run_flg);
    assert_eq!(st.flows[9].updated_dt, Some(EIGHT_AM));
    assert_eq!(report.flows.len(), 1);
    assert_eq!(
        report.flows[0].outcome,
        FlowOutcome::Seeded { attempted: 1, created: 1 }
    );
    // the launcher promoted the first step only
    let first = st.job_steps.iter().find(|s| s.sequence_id == 1).unwrap();
    let second = st.job_steps.iter().find(|s| s.sequence_id == 2).unwrap();
    assert_eq!(first.status, StepStatus::Scheduled);
    assert_eq!(second.status, StepStatus::New);
    assert_eq!(first.input_path, "/in/1");
    assert_eq!(first.output_path, "/out/1");
    assert_eq!(first.command, "");
}

#[test]
fn flow_without_topic_is_skipped() {
    let mut st = base_store();
    st.insert_flow(flow_form("nlp-land", None, "0 0 12 * * * *", true)).unwrap();
    let report = flow_tick(&mut st, EIGHT_AM);
    assert_eq!(st.jobs.len(), 0);
    assert!(!st.flows[9].run_flg);
    assert_eq!(report.flows[0].outcome, FlowOutcome::NoTopic);
}

#[test]
fn flow_without_topic_and_no_trigger_today_is_marked() {
    let mut st = base_store();
    st.insert_flow(flow_form("nlp-land", None, "0 0 12 * * * *", true)).unwrap();
    let report = flow_tick(&mut st, NOON + 60);
    assert_eq!(st.jobs.len(), 0);
    assert!(st.flows[9].run_flg);
    assert_eq!(
        report.flows[0].outcome,
        FlowOutcome::Seeded { attempted: 0, created: 0 }
    );
}

#[test]
fn malformed_frequency_is_skipped() {
    let mut st = base_store();
    st.insert_flow(flow_form("nlp-land", Some(7), "not a cron", true)).unwrap();
    let report = flow_tick(&mut st, EIGHT_AM);
    assert_eq!(st.jobs.len(), 0);
    assert!(!st.flows[9].run_flg);
    assert_eq!(report.flows[0].outcome, FlowOutcome::Unparsable);
}

#[test]
fn partial_job_step_seeding_fails_the_job() {
    let mut st = base_store();
    st.insert_flow(flow_form("nlp-land", Some(7), "0 0 12 * * * *", true)).unwrap();
    st.insert_flow_step(step_form(10, 1, "a")).unwrap();
    // same sequence number: the second insert is refused
    st.insert_flow_step(step_form(10, 1, "b")).unwrap();
    st.insert_flow_step(step_form(10, 2, "c")).unwrap();
    let report = flow_tick(&mut st, EIGHT_AM);
    assert_eq!(st.jobs.len(), 1);
    assert_eq!(st.jobs[0].status, JobStatus::Failed);
    assert_eq!(report.jobs.len(), 1);
    assert_eq!(report.jobs[0].expected, 3);
    assert_eq!(report.jobs[0].inserted, 2);
    // the launcher leaves the failed job's first step alone
    assert!(st.job_steps.iter().all(|s| s.status == StepStatus::New));
}

#[test]
fn daily_flow_round_trip_before_and_after_noon() {
    let mut early = base_store();
    early
        .insert_flow(flow_form("nlp-land", Some(3), "0 0 12 * * * *", true))
        .unwrap();
    flow_tick(&mut early, EIGHT_AM);
    assert_eq!(early.jobs.len(), 1);
    assert_eq!(early.jobs[0].job_name, "3_nlp_land_2024_01_15_0");
    assert!(early.flows[9].run_flg);

    let mut late = base_store();
    late.insert_flow(flow_form("nlp-land", Some(3), "0 0 12 * * * *", true))
        .unwrap();
    flow_tick(&mut late, NOON);
    assert_eq!(late.jobs.len(), 0);
    assert!(late.flows[9].run_flg);
}

#[test]
fn second_tick_creates_no_more_jobs() {
    let mut st = base_store();
    st.insert_flow(flow_form("nlp-land", Some(7), "0 0 12 * * * *", true)).unwrap();
    st.insert_flow(flow_form("hourly", Some(2), "0 0 * * * * *", true)).unwrap();
    st.insert_flow(flow_form("broken", Some(2), "nope", true)).unwrap();
    st.insert_flow_step(step_form(10, 1, "a")).unwrap();
    flow_tick(&mut st, EIGHT_AM);
    let names: Vec<String> = st.jobs.iter().map(|j| j.job_name.clone()).collect();
    // noon, and the hours 09..23
    assert_eq!(names.len(), 1 + 15);
    assert_eq!(names[1], "2_hourly_2024_01_15_0");
    assert_eq!(names[15], "2_hourly_2024_01_15_14");
    flow_tick(&mut st, EIGHT_AM + 1800);
    let again: Vec<String> = st.jobs.iter().map(|j| j.job_name.clone()).collect();
    assert_eq!(names, again);
}

#[test]
fn inactive_and_already_run_flows_get_no_jobs() {
    let mut st = base_store();
    st.insert_flow(flow_form("off", Some(7), "0 0 12 * * * *", false)).unwrap();
    let run = st.insert_flow(flow_form("done", Some(7), "0 0 12 * * * *", true)).unwrap();
    st.mark_flow_seeded(run, DAY);
    let report = flow_tick(&mut st, EIGHT_AM);
    assert_eq!(st.jobs.len(), 0);
    assert_eq!(report.flows.len(), 0);
    assert!(!st.flows[9].run_flg);
}

#[test]
fn seeded_job_has_one_step_per_flow_step() {
    let mut st = base_store();
    st.insert_flow(flow_form("three", Some(1), "0 0 12 * * * *", true)).unwrap();
    for k in 1..=3 {
        st.insert_flow_step(step_form(10, k, "s")).unwrap();
    }
    // a step of another flow is not part of the template
    st.insert_flow(flow_form("other", Some(1), "0 0 12 * * * *", false)).unwrap();
    st.insert_flow_step(step_form(11, 1, "x")).unwrap();
    flow_tick(&mut st, EIGHT_AM);
    assert_eq!(st.jobs[0].status, JobStatus::Seeded);
    assert_eq!(steps_of_job(&st, 1), 3);
    let seqs: Vec<i32> = st.job_steps.iter().map(|s| s.sequence_id).collect();
    assert_eq!(seqs, vec![1, 2, 3]);
}

#[test]
fn seed_job_without_flow_steps_succeeds_with_none() {
    let mut st = base_store();
    st.insert_flow(flow_form("empty", Some(1), "0 0 12 * * * *", true)).unwrap();
    flow_tick(&mut st, EIGHT_AM);
    assert_eq!(st.jobs[0].status, JobStatus::Seeded);
    assert_eq!(st.job_steps.len(), 0);
    let rep = seed_job(&mut st, 1, NOON);
    assert_eq!(rep.inserted, 0);
    assert_eq!(rep.expected, 0);
}

#[test]
fn seeding_outcome_needs_every_insert() {
    assert_eq!(seeding_outcome(3, 3), JobStatus::Seeded);
    assert_eq!(seeding_outcome(0, 0), JobStatus::Seeded);
    assert_eq!(seeding_outcome(1, 3), JobStatus::Failed);
}
