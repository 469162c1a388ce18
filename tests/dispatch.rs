use ct_nlp::clock::utc_time_of;
use ct_nlp::conn::{get_conn, ConnectError};
use ct_nlp::dispatch::{
    build_command, deal_round_robin, dispatch_launchable, find_launchable_steps,
    one_shot_trigger, worker_action, CommandError, Envelope, RejectReason, WorkOrder,
    WorkerAction, FLUSH_ID, POISON_ID,
};
use ct_nlp::model::{FlowForm, FlowStepForm, StepStatus, TopicForm};
use ct_nlp::controller::flow_tick;
use ct_nlp::store::Store;

const EIGHT_AM: i64 = 1705276800 + 8 * 3600;

fn order(id: i32, params: Option<&str>, start: Option<i64>) -> WorkOrder {
    WorkOrder::new(
        id,
        "S".to_string(),
        Some(7),
        start,
        "nlp_topic_land".to_string(),
        params.map(|p| p.to_string()),
        Some("/data/in".to_string()),
        Some("/data/out".to_string()),
    )
}

fn strs(v: &[String]) -> Vec<&str> {
    v.iter().map(|s| s.as_str()).collect()
}

#[test]
fn round_robin_over_three_queues() {
    let mut queues: Vec<Vec<i32>> = vec![vec![], vec![], vec![]];
    let next = deal_round_robin(&mut queues, (1..=7).collect(), 0);
    assert_eq!(queues[0], vec![1, 4, 7]);
    assert_eq!(queues[1], vec![2, 5]);
    assert_eq!(queues[2], vec![3, 6]);
    assert_eq!(next, 1);
    let next = deal_round_robin(&mut queues, vec![8, 9], next);
    assert_eq!(queues[1], vec![2, 5, 8]);
    assert_eq!(queues[2], vec![3, 6, 9]);
    assert_eq!(next, 0);
}

#[test]
fn command_recognizes_the_five_options() {
    let o = order(
        42,
        Some("--topic_id --job_step_id --config --input_dir --output_dir --verbose"),
        None,
    );
    let argv = build_command(&o, "conf.yaml").unwrap();
    assert_eq!(
        strs(&argv),
        vec![
            "run",
            "--bin",
            "nlp_topic_land",
            "--",
            "--topic_id",
            "7",
            "--job_step_id",
            "42",
            "--config",
            "conf.yaml",
            "--input_dir",
            "/data/in",
            "--output_dir",
            "/data/out",
        ]
    );
}

#[test]
fn command_without_parameters_is_the_prefix() {
    let o = order(1, None, None);
    let argv = build_command(&o, "c").unwrap();
    assert_eq!(strs(&argv), vec!["run", "--bin", "nlp_topic_land", "--"]);
    let o = order(1, Some(""), None);
    assert_eq!(build_command(&o, "c").unwrap().len(), 4);
}

#[test]
fn command_with_missing_values_is_refused() {
    let mut o = order(1, Some("--config --input_dir"), None);
    o.in_path = None;
    assert_eq!(build_command(&o, "c"), Err(CommandError::MissingInputDir));
    let mut o = order(1, Some("--output_dir"), None);
    o.out_path = None;
    assert_eq!(build_command(&o, "c"), Err(CommandError::MissingOutputDir));
    let mut o = order(1, Some("--topic_id"), None);
    o.subject_id = None;
    assert_eq!(build_command(&o, "c"), Err(CommandError::MissingTopic));
}

#[test]
fn sentinels_become_control_envelopes() {
    assert!(matches!(Envelope::from_order(order(POISON_ID, None, None)), Envelope::Poison));
    assert!(matches!(Envelope::from_order(order(FLUSH_ID, None, None)), Envelope::Flush));
    assert!(matches!(Envelope::from_order(order(5, None, None)), Envelope::Live(_)));
    assert!(matches!(worker_action(Envelope::Poison, "c"), WorkerAction::Stop));
    assert!(matches!(worker_action(Envelope::Flush, "c"), WorkerAction::Flush));
    // a sentinel id on an order that fails the checks is dropped, not obeyed
    let mut bad = order(POISON_ID, None, None);
    bad.status_cd = "N".to_string();
    let env = Envelope::from_order(bad);
    assert!(matches!(env, Envelope::Live(_)));
    assert!(matches!(
        worker_action(env, "c"),
        WorkerAction::Reject(RejectReason::NotScheduled)
    ));
    let mut no_subject = order(FLUSH_ID, None, None);
    no_subject.subject_id = None;
    assert!(matches!(
        worker_action(Envelope::from_order(no_subject), "c"),
        WorkerAction::Reject(RejectReason::NoSubject)
    ));
}

#[test]
fn worker_rejects_invalid_orders() {
    let mut o = order(1, None, None);
    o.status_cd = "N".to_string();
    assert!(matches!(
        worker_action(Envelope::Live(o), "c"),
        WorkerAction::Reject(RejectReason::NotScheduled)
    ));
    let mut o = order(1, None, None);
    o.subject_id = None;
    assert!(matches!(
        worker_action(Envelope::Live(o), "c"),
        WorkerAction::Reject(RejectReason::NoSubject)
    ));
    let mut o = order(1, None, None);
    o.script_name = String::new();
    assert!(matches!(
        worker_action(Envelope::Live(o), "c"),
        WorkerAction::Reject(RejectReason::NoScript)
    ));
    let o = order(1, None, Some(-1));
    assert!(matches!(
        worker_action(Envelope::Live(o), "c"),
        WorkerAction::Reject(RejectReason::StartOutOfRange)
    ));
    let mut o = order(1, Some("--input_dir"), None);
    o.in_path = None;
    assert!(matches!(
        worker_action(Envelope::Live(o), "c"),
        WorkerAction::Skip(CommandError::MissingInputDir)
    ));
}

#[test]
fn worker_runs_ad_hoc_orders_now() {
    let o = order(3, Some("--job_step_id"), None);
    match worker_action(Envelope::Live(o), "c") {
        WorkerAction::Run { argv } => {
            assert_eq!(
                strs(&argv),
                vec!["run", "--bin", "nlp_topic_land", "--", "--job_step_id", "3"]
            )
        }
        _ => panic!("expected an ad-hoc run"),
    }
}

#[test]
fn scheduled_order_fires_once_and_marks_step_running() {
    let mut st = Store::new();
    st.insert_topic(TopicForm {
        topic_name: "t".to_string(),
        search_text: "t".to_string(),
        landing_dir: None,
        archive_dir: None,
        stage_dir: None,
        catalog_dir: None,
        work_dir: None,
        created_dt: 0,
        updated_dt: None,
    })
    .unwrap();
    st.insert_flow(FlowForm {
        flow_name: "soon".to_string(),
        topic_id: Some(1),
        is_active: true,
        frequency: "30 0 8 * * * *".to_string(),
        created_dt: 0,
        updated_dt: None,
    })
    .unwrap();
    st.insert_flow_step(FlowStepForm {
        flow_step_name: "land".to_string(),
        sequence_id: 1,
        flow_id: 1,
        input_dir: "/in".to_string(),
        output_dir: "/out".to_string(),
        script_path: "nlp_topic_land".to_string(),
        script_parameters: Some("--topic_id --job_step_id".to_string()),
        created_dt: 0,
        updated_dt: None,
    })
    .unwrap();
    flow_tick(&mut st, EIGHT_AM);
    assert_eq!(st.jobs[0].start_dt, Some(EIGHT_AM + 30));

    let mut queues: Vec<Vec<WorkOrder>> = vec![vec![], vec![]];
    let next = dispatch_launchable(&st, &mut queues, 1);
    assert_eq!(next, 0);
    assert_eq!(queues[0].len(), 0);
    let o = queues[1].pop().unwrap();
    assert_eq!(o.job_step_id, 1);
    assert_eq!(o.job_start, Some(EIGHT_AM + 30));
    match worker_action(Envelope::Live(o), "c") {
        WorkerAction::Schedule { job_step_id, trigger, argv } => {
            assert_eq!(trigger, "30 0 8 15 1 * 2024");
            assert_eq!(
                strs(&argv),
                vec!["run", "--bin", "nlp_topic_land", "--", "--topic_id", "1", "--job_step_id", "1"]
            );
            st.set_job_step_running(job_step_id, String::new(), EIGHT_AM + 1).unwrap();
        }
        _ => panic!("expected a scheduled run"),
    }
    assert_eq!(st.job_steps[0].status, StepStatus::Running);
}

#[test]
fn launchable_steps_join_job_flow_and_flow_step() {
    let mut st = Store::new();
    st.insert_flow(FlowForm {
        flow_name: "f".to_string(),
        topic_id: None,
        is_active: true,
        frequency: "0 0 12 * * * *".to_string(),
        created_dt: 0,
        updated_dt: None,
    })
    .unwrap();
    st.insert_flow_step(FlowStepForm {
        flow_step_name: "s".to_string(),
        sequence_id: 1,
        flow_id: 1,
        input_dir: "/a".to_string(),
        output_dir: "/b".to_string(),
        script_path: "x".to_string(),
        script_parameters: None,
        created_dt: 0,
        updated_dt: None,
    })
    .unwrap();
    assert_eq!(find_launchable_steps(&st).len(), 0);
    // a flow without topic and no trigger left today yields no job at all
    flow_tick(&mut st, EIGHT_AM + 5 * 3600);
    assert_eq!(st.jobs.len(), 0);
    assert_eq!(find_launchable_steps(&st).len(), 0);
}

#[test]
fn one_shot_trigger_renders_utc_fields() {
    assert_eq!(one_shot_trigger(0), "0 0 0 1 1 * 1970");
    assert_eq!(one_shot_trigger(EIGHT_AM + 3723), "3 2 9 15 1 * 2024");
    let t = utc_time_of(951827696); // 2000-02-29T12:34:56Z
    assert_eq!((t.year, t.month, t.day), (2000, 2, 29));
    assert_eq!((t.hour, t.minute, t.second), (12, 34, 56));
}

#[test]
fn connection_settings_are_checked_in_order() {
    assert_eq!(
        get_conn("db", "u", "p", "h", "5432").unwrap(),
        "postgres://u:p@h:5432/db"
    );
    assert_eq!(get_conn("", "", "", "", ""), Err(ConnectError::EmptyDbName));
    assert_eq!(get_conn("d", "", "p", "h", "1"), Err(ConnectError::EmptyUser));
    assert_eq!(get_conn("d", "u", "", "h", "1"), Err(ConnectError::EmptyPassword));
    assert_eq!(get_conn("d", "u", "p", "", "1"), Err(ConnectError::EmptyHost));
    assert_eq!(get_conn("d", "u", "p", "h", ""), Err(ConnectError::EmptyPort));
    assert_eq!(ConnectError::EmptyHost.message(), "ERR: db_host is invalid");
}
