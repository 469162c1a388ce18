//! The worker dispatcher: work orders built from launchable job steps,
//! their round-robin distribution over the worker queues, and what a
//! worker does with each order it dequeues.

use crate::clock::{civil_date, day_of, utc_fields, valid_instant};
use crate::text::{
    decimal, int_text, push_char, push_decimal, push_int, same_text, space_tokens, split_spaces,
};
use crate::model::{JobStatus, JobStep, StepStatus};
use crate::store::Store;
use vstd::prelude::*;

verus! {

/// Number of worker queues of the dispatcher.
pub const WORKER_COUNT: usize = 8;

/// The job step id that tells a worker to stop.
pub const POISON_ID: i32 = -9999;

/// The job step id that tells a worker to check its pending work.
pub const FLUSH_ID: i32 = -8888;

/// The dispatch envelope for one job step.
pub struct WorkOrder {
    pub job_step_id: i32,
    pub status_cd: String,
    pub subject_id: Option<i32>,
    pub job_start: Option<i64>,
    pub script_name: String,
    pub script_params: Option<String>,
    pub in_path: Option<String>,
    pub out_path: Option<String>,
}

impl WorkOrder {
    pub fn new(
        job_step_id: i32,
        status_cd: String,
        subject_id: Option<i32>,
        job_start: Option<i64>,
        script_name: String,
        script_params: Option<String>,
        in_path: Option<String>,
        out_path: Option<String>,
    ) -> (r: Self)
        ensures
            r == (WorkOrder {
                job_step_id,
                status_cd,
                subject_id,
                job_start,
                script_name,
                script_params,
                in_path,
                out_path,
            }),
    {
        WorkOrder {
            job_step_id,
            status_cd,
            subject_id,
            job_start,
            script_name,
            script_params,
            in_path,
            out_path,
        }
    }
}

/// What travels through a worker queue.
pub enum Envelope {
    /// The worker leaves its loop.
    Poison,
    /// The worker checks its pending work and goes on.
    Flush,
    /// A job step to run.
    Live(WorkOrder),
}

/// The checks a worker makes on every order before anything else: status
/// `S`, a subject, and a script name.
pub open spec fn passes_checks(o: WorkOrder) -> bool {
    &&& o.status_cd@ == "S"@
    &&& o.subject_id is Some
    &&& o.script_name@.len() > 0
}

fn check_order(o: &WorkOrder) -> (r: bool)
    ensures
        r == passes_checks(*o),
{
    same_text(o.status_cd.as_str(), "S") && o.subject_id.is_some()
        && o.script_name.as_str().unicode_len() > 0
}

impl Envelope {
    /// Reads the sentinel ids of an order that passes the worker's checks:
    /// `POISON_ID` and `FLUSH_ID` become the control envelopes. Any other
    /// order, including one with a sentinel id that fails the checks, is
    /// live, and the worker drops it if it fails them.
    pub fn from_order(order: WorkOrder) -> (r: Envelope)
        ensures
            passes_checks(order) && order.job_step_id == POISON_ID ==> r is Poison,
            passes_checks(order) && order.job_step_id == FLUSH_ID ==> r is Flush,
            !passes_checks(order) || (order.job_step_id != POISON_ID && order.job_step_id
                != FLUSH_ID) ==> r == Envelope::Live(order),
    {
        if check_order(&order) {
            if order.job_step_id == POISON_ID {
                return Envelope::Poison;
            } else if order.job_step_id == FLUSH_ID {
                return Envelope::Flush;
            }
        }
        Envelope::Live(order)
    }
}

/// `queues` after dealing `items` one by one, starting at queue `cursor`
/// and moving to the next queue (wrapping to the first) after each item.
pub open spec fn dealt<T>(queues: Seq<Seq<T>>, items: Seq<T>, cursor: int) -> Seq<Seq<T>>
    decreases items.len(),
{
    if items.len() == 0 || queues.len() == 0 {
        queues
    } else {
        dealt(
            queues.update(cursor, queues[cursor].push(items[0])),
            items.drop_first(),
            (cursor + 1) % (queues.len() as int),
        )
    }
}

/// The queues' contents as sequences.
pub open spec fn contents<T>(queues: Seq<Vec<T>>) -> Seq<Seq<T>> {
    queues.map_values(|q: Vec<T>| q@)
}

/// Deals `items` round-robin over `queues`, starting at queue `cursor`,
/// and returns the cursor for the next round.
pub fn deal_round_robin<T>(queues: &mut Vec<Vec<T>>, items: Vec<T>, cursor: usize) -> (r: usize)
    requires
        old(queues)@.len() > 0,
        cursor < old(queues)@.len(),
    ensures
        final(queues)@.len() == old(queues)@.len(),
        contents(final(queues)@) == dealt(contents(old(queues)@), items@, cursor as int),
        r == (cursor + items@.len()) % (old(queues)@.len() as int),
{
    let n = queues.len();
    let mut items = items;
    let ghost all = items@;
    let mut c = cursor;
    let mut k: usize = 0;
    let total = items.len();
    proof {
        vstd::arithmetic::div_mod::lemma_small_mod(cursor as nat, n as nat);
    }
    while items.len() > 0
        invariant
            n == queues@.len(),
            n == old(queues)@.len(),
            n > 0,
            c < n,
            total == all.len(),
            k + items@.len() == total,
            items@ == all.skip(k as int),
            c == (cursor + k) % (n as int),
            dealt(contents(queues@), items@, c as int) == dealt(
                contents(old(queues)@),
                all,
                cursor as int,
            ),
        decreases items@.len(),
    {
        let ghost before = contents(queues@);
        let ghost rest = items@;
        let item = items.remove(0);
        queues[c].push(item);
        proof {
            assert(before.len() == n);
            assert(dealt(before, rest, c as int) == dealt(
                before.update(c as int, before[c as int].push(rest[0])),
                rest.drop_first(),
                (c as int + 1) % (n as int),
            ));
            if c + 1 < n {
                vstd::arithmetic::div_mod::lemma_small_mod((c + 1) as nat, n as nat);
            } else {
                vstd::arithmetic::div_mod::lemma_mod_self_0(n as int);
            }
            assert(contents(queues@) =~= before.update(c as int, before[c as int].push(rest[0])));
            assert(items@ =~= rest.drop_first());
            assert(all.skip(k + 1) =~= all.skip(k as int).drop_first());
            assert((c as int + 1) % (n as int) == (cursor + k + 1) % (n as int)) by {
                vstd::arithmetic::div_mod::lemma_add_mod_noop(cursor + k, 1, n as int);
                vstd::arithmetic::div_mod::lemma_add_mod_noop(c as int, 1, n as int);
                vstd::arithmetic::div_mod::lemma_mod_twice(cursor + k, n as int);
            }
        }
        c = if c + 1 == n {
            0
        } else {
            c + 1
        };
        k = k + 1;
    }
    assert(k == total);
    c
}

/// A recognized script option whose value the order lacks.
#[derive(Clone, Copy, Debug, PartialEq, Eq, Structural)]
pub enum CommandError {
    MissingTopic,
    MissingInputDir,
    MissingOutputDir,
}

/// The views of a sequence of strings.
pub open spec fn texts(v: Seq<String>) -> Seq<Seq<char>> {
    v.map_values(|s: String| s@)
}

/// The arguments that one parameter token adds to the command.
pub open spec fn option_args(tok: Seq<char>, o: WorkOrder, config: Seq<char>) -> Result<
    Seq<Seq<char>>,
    CommandError,
> {
    if tok == "--topic_id"@ {
        match o.subject_id {
            Some(t) => Ok(seq!["--topic_id"@, int_text(t as int)]),
            None => Err(CommandError::MissingTopic),
        }
    } else if tok == "--job_step_id"@ {
        Ok(seq!["--job_step_id"@, int_text(o.job_step_id as int)])
    } else if tok == "--config"@ {
        Ok(seq!["--config"@, config])
    } else if tok == "--input_dir"@ {
        match o.in_path {
            Some(p) => Ok(seq!["--input_dir"@, p@]),
            None => Err(CommandError::MissingInputDir),
        }
    } else if tok == "--output_dir"@ {
        match o.out_path {
            Some(p) => Ok(seq!["--output_dir"@, p@]),
            None => Err(CommandError::MissingOutputDir),
        }
    } else {
        Ok(Seq::empty())
    }
}

/// The command for the tokens `toks`: the fixed prefix, then the
/// arguments of each token in order; the first failing token decides.
pub open spec fn args_for(toks: Seq<Seq<char>>, o: WorkOrder, config: Seq<char>) -> Result<
    Seq<Seq<char>>,
    CommandError,
>
    decreases toks.len(),
{
    if toks.len() == 0 {
        Ok(seq!["run"@, "--bin"@, o.script_name@, "--"@])
    } else {
        match args_for(toks.drop_last(), o, config) {
            Ok(a) => match option_args(toks.last(), o, config) {
                Ok(x) => Ok(a + x),
                Err(e) => Err(e),
            },
            Err(e) => Err(e),
        }
    }
}

/// The parameter tokens of an order: its parameters split at spaces.
pub open spec fn param_tokens(o: WorkOrder) -> Seq<Seq<char>> {
    match o.script_params {
        Some(p) => space_tokens(p@),
        None => Seq::empty(),
    }
}

/// The argument vector that launches the order's script.
pub open spec fn command_args(o: WorkOrder, config: Seq<char>) -> Result<
    Seq<Seq<char>>,
    CommandError,
> {
    args_for(param_tokens(o), o, config)
}

fn text_of(s: &str) -> (r: String)
    ensures
        r@ == s@,
{
    String::from_str(s)
}

fn int_string(i: i32) -> (r: String)
    ensures
        r@ == int_text(i as int),
{
    let mut s = String::new();
    push_int(&mut s, i as i64);
    s
}

/// Appends to `args` what one parameter token adds.
fn push_option(args: &mut Vec<String>, tok: &str, o: &WorkOrder, config: &str) -> (r: Result<
    (),
    CommandError,
>)
    ensures
        r is Ok <==> option_args(tok@, *o, config@) is Ok,
        r matches Err(e) ==> option_args(tok@, *o, config@) == Err::<Seq<Seq<char>>, _>(e),
        r is Ok ==> texts(final(args)@) == texts(old(args)@) + option_args(
            tok@,
            *o,
            config@,
        )->Ok_0,
        r is Err ==> final(args)@ == old(args)@,
{
    let ghost start = old(args)@;
    if same_text(tok, "--topic_id") {
        match o.subject_id {
            Some(t) => {
                args.push(text_of("--topic_id"));
                args.push(int_string(t));
            },
            None => {
                return Err(CommandError::MissingTopic);
            },
        }
    } else if same_text(tok, "--job_step_id") {
        args.push(text_of("--job_step_id"));
        args.push(int_string(o.job_step_id));
    } else if same_text(tok, "--config") {
        args.push(text_of("--config"));
        args.push(text_of(config));
    } else if same_text(tok, "--input_dir") {
        match &o.in_path {
            Some(p) => {
                args.push(text_of("--input_dir"));
                args.push(p.clone());
            },
            None => {
                return Err(CommandError::MissingInputDir);
            },
        }
    } else if same_text(tok, "--output_dir") {
        match &o.out_path {
            Some(p) => {
                args.push(text_of("--output_dir"));
                args.push(p.clone());
            },
            None => {
                return Err(CommandError::MissingOutputDir);
            },
        }
    }
    assert(texts(args@) =~= texts(start) + option_args(tok@, *o, config@)->Ok_0);
    Ok(())
}

/// Assembles the argument vector for the order's script: `run --bin
/// <script> --`, then for each recognized parameter token the option and
/// its value from the order (`config` for `--config`); other tokens are
/// ignored.
pub fn build_command(o: &WorkOrder, config: &str) -> (r: Result<Vec<String>, CommandError>)
    ensures
        r is Ok <==> command_args(*o, config@) is Ok,
        r matches Ok(v) ==> texts(v@) == command_args(*o, config@)->Ok_0,
        r matches Err(e) ==> command_args(*o, config@) == Err::<Seq<Seq<char>>, _>(e),
{
    let toks: Vec<String> = match &o.script_params {
        Some(p) => split_spaces(p.as_str()),
        None => Vec::new(),
    };
    let ghost all = param_tokens(*o);
    assert(texts(toks@) =~= all);
    let mut args: Vec<String> = Vec::new();
    args.push(text_of("run"));
    args.push(text_of("--bin"));
    args.push(o.script_name.clone());
    args.push(text_of("--"));
    assert(texts(args@) =~= seq!["run"@, "--bin"@, o.script_name@, "--"@]);
    let mut i: usize = 0;
    while i < toks.len()
        invariant
            texts(toks@) == all,
            all == param_tokens(*o),
            i <= toks@.len(),
            args_for(all.take(i as int), *o, config@) == Ok::<_, CommandError>(texts(args@)),
        decreases toks.len() - i,
    {
        let ghost before = texts(args@);
        proof {
            assert(all.take(i + 1).drop_last() =~= all.take(i as int));
            assert(all.take(i + 1).last() == toks@[i as int]@);
        }
        match push_option(&mut args, toks[i].as_str(), o, config) {
            Ok(()) => {},
            Err(e) => {
                proof {
                    lemma_args_for_err_sticky(all, (i + 1) as int, *o, config@, e);
                }
                return Err(e);
            },
        }
        i = i + 1;
    }
    assert(all.take(i as int) =~= all);
    Ok(args)
}

/// Once a prefix of the tokens fails, every longer prefix fails the same way.
proof fn lemma_args_for_err_sticky(
    toks: Seq<Seq<char>>,
    k: int,
    o: WorkOrder,
    config: Seq<char>,
    e: CommandError,
)
    requires
        0 <= k <= toks.len(),
        args_for(toks.take(k), o, config) == Err::<Seq<Seq<char>>, _>(e),
    ensures
        args_for(toks, o, config) == Err::<Seq<Seq<char>>, _>(e),
    decreases toks.len() - k,
{
    if k < toks.len() {
        assert(toks.take(k + 1).drop_last() =~= toks.take(k));
        lemma_args_for_err_sticky(toks, k + 1, o, config, e);
    } else {
        assert(toks.take(k) =~= toks);
    }
}

/// The seven-field cron expression `S M H d m * Y` that fires once, at the
/// instant `t`.
pub open spec fn trigger_text(t: int) -> Seq<char> {
    let (y, mo, d) = civil_date(day_of(t));
    let x = t % 86400;
    decimal((x % 60) as nat) + seq![' '] + decimal(((x / 60) % 60) as nat) + seq![' ']
        + decimal(((x / 60) / 60) as nat) + seq![' '] + decimal(d as nat) + seq![' '] + decimal(
        mo as nat,
    ) + seq![' ', '*', ' '] + int_text(y)
}

proof fn lemma_time_of_day(h: int, m: int, s: int, x: int)
    requires
        0 <= h,
        0 <= m < 60,
        0 <= s < 60,
        h * 3600 + m * 60 + s == x,
    ensures
        s == x % 60,
        m == (x / 60) % 60,
        h == (x / 60) / 60,
{
    assert(x == (h * 60 + m) * 60 + s) by (nonlinear_arith)
        requires
            h * 3600 + m * 60 + s == x,
    ;
    vstd::arithmetic::div_mod::lemma_fundamental_div_mod_converse(x, 60, h * 60 + m, s);
    vstd::arithmetic::div_mod::lemma_fundamental_div_mod_converse(h * 60 + m, 60, h, m);
}

/// The cron expression that fires once at the instant `t`.
pub fn one_shot_trigger(t: i64) -> (r: String)
    requires
        valid_instant(t as int),
    ensures
        r@ == trigger_text(t as int),
{
    let u = utc_fields(t);
    proof {
        lemma_time_of_day(u.hour as int, u.minute as int, u.second as int, t as int % 86400);
    }
    let mut s = String::new();
    push_decimal(&mut s, u.second as u64);
    push_char(&mut s, ' ');
    push_decimal(&mut s, u.minute as u64);
    push_char(&mut s, ' ');
    push_decimal(&mut s, u.hour as u64);
    push_char(&mut s, ' ');
    push_decimal(&mut s, u.day as u64);
    push_char(&mut s, ' ');
    push_decimal(&mut s, u.month as u64);
    push_char(&mut s, ' ');
    push_char(&mut s, '*');
    push_char(&mut s, ' ');
    push_int(&mut s, u.year as i64);
    assert(s@ =~= trigger_text(t as int));
    s
}

/// Why a worker drops an order without running it.
#[derive(Clone, Copy, Debug, PartialEq, Eq, Structural)]
pub enum RejectReason {
    /// The order's status code is not `S`.
    NotScheduled,
    /// The order has no subject (topic).
    NoSubject,
    /// The order names no script.
    NoScript,
    /// The start instant is outside the range the library handles.
    StartOutOfRange,
}

/// What a worker does with the envelope it dequeued.
pub enum WorkerAction {
    /// Leave the loop.
    Stop,
    /// Check pending work and go on.
    Flush,
    /// Drop the order.
    Reject(RejectReason),
    /// Drop the order: an option it asks for has no value.
    Skip(CommandError),
    /// Register a one-shot job firing at `trigger` that runs `argv`, then
    /// mark the step as running.
    Schedule { job_step_id: i32, trigger: String, argv: Vec<String> },
    /// Run `argv` now and wait for it.
    Run { argv: Vec<String> },
}

/// The first check an order fails, if any.
pub open spec fn rejection(o: WorkOrder) -> Option<RejectReason> {
    if o.status_cd@ != "S"@ {
        Some(RejectReason::NotScheduled)
    } else if o.subject_id is None {
        Some(RejectReason::NoSubject)
    } else if o.script_name@.len() == 0 {
        Some(RejectReason::NoScript)
    } else if o.job_start matches Some(t) && !valid_instant(t as int) {
        Some(RejectReason::StartOutOfRange)
    } else {
        None
    }
}

/// Decides what a worker configured with `config` does with `env`.
pub fn worker_action(env: Envelope, config: &str) -> (r: WorkerAction)
    ensures
        env is Poison ==> r is Stop,
        env is Flush ==> r is Flush,
        env matches Envelope::Live(o) ==> match rejection(o) {
            Some(why) => r == WorkerAction::Reject(why),
            None => match command_args(o, config@) {
                Err(e) => r == WorkerAction::Skip(e),
                Ok(args) => match o.job_start {
                    Some(t) => r matches WorkerAction::Schedule { job_step_id, trigger, argv }
                        && job_step_id == o.job_step_id && trigger@ == trigger_text(t as int)
                        && texts(argv@) == args,
                    None => r matches WorkerAction::Run { argv } && texts(argv@) == args,
                },
            },
        },
{
    let o = match env {
        Envelope::Poison => {
            return WorkerAction::Stop;
        },
        Envelope::Flush => {
            return WorkerAction::Flush;
        },
        Envelope::Live(o) => o,
    };
    if !same_text(o.status_cd.as_str(), "S") {
        return WorkerAction::Reject(RejectReason::NotScheduled);
    }
    if o.subject_id.is_none() {
        return WorkerAction::Reject(RejectReason::NoSubject);
    }
    if o.script_name.as_str().unicode_len() == 0 {
        return WorkerAction::Reject(RejectReason::NoScript);
    }
    if let Some(t) = o.job_start {
        if t < 0 || t > crate::clock::MAX_INSTANT {
            return WorkerAction::Reject(RejectReason::StartOutOfRange);
        }
    }
    let argv = match build_command(&o, config) {
        Ok(argv) => argv,
        Err(e) => {
            return WorkerAction::Skip(e);
        },
    };
    match o.job_start {
        Some(t) => WorkerAction::Schedule {
            job_step_id: o.job_step_id,
            trigger: one_shot_trigger(t),
            argv,
        },
        None => WorkerAction::Run { argv },
    }
}

/// A job step that dispatch picks up: in status `S`, of a job in status
/// `S`, and joined to its flow step and that step's flow.
pub open spec fn launchable(st: Store, s: JobStep) -> bool {
    &&& s.status == StepStatus::Scheduled
    &&& 1 <= s.job_id <= st.jobs@.len()
    &&& st.jobs@[s.job_id - 1].status == JobStatus::Seeded
    &&& 1 <= s.flow_step_id <= st.flow_steps@.len()
    &&& 1 <= st.flow_steps@[s.flow_step_id - 1].flow_id <= st.flows@.len()
}

/// `o` is the work order of the launchable step `s`.
pub open spec fn is_order_for(st: Store, s: JobStep, o: WorkOrder) -> bool {
    let fs = st.flow_steps@[s.flow_step_id - 1];
    let job = st.jobs@[s.job_id - 1];
    let f = st.flows@[fs.flow_id - 1];
    &&& o.job_step_id == s.id
    &&& o.status_cd@ == "S"@
    &&& o.subject_id == f.topic_id
    &&& o.job_start == job.start_dt
    &&& o.script_name == fs.script_path
    &&& o.script_params == fs.script_parameters
    &&& o.in_path == Some(fs.input_dir)
    &&& o.out_path == Some(fs.output_dir)
}

/// Positions of the launchable steps among the first `n` job steps.
pub open spec fn launch_positions(st: Store, n: int) -> Seq<int>
    decreases n,
{
    if n <= 0 {
        Seq::empty()
    } else if launchable(st, st.job_steps@[n - 1]) {
        launch_positions(st, n - 1).push(n - 1)
    } else {
        launch_positions(st, n - 1)
    }
}

fn clone_text_opt(o: &Option<String>) -> (r: Option<String>)
    ensures
        r == *o,
{
    match o {
        Some(s) => Some(s.clone()),
        None => None,
    }
}

/// The work orders of all launchable job steps, in table order.
pub fn find_launchable_steps(st: &Store) -> (r: Vec<WorkOrder>)
    requires
        st.wf(),
    ensures
        r@.len() == launch_positions(*st, st.job_steps@.len() as int).len(),
        forall|k: int|
            0 <= k < r@.len() ==> is_order_for(
                *st,
                st.job_steps@[launch_positions(*st, st.job_steps@.len() as int)[k]],
                #[trigger] r@[k],
            ),
{
    let n = st.job_steps.len();
    let mut out: Vec<WorkOrder> = Vec::new();
    let mut i: usize = 0;
    while i < n
        invariant
            st.wf(),
            n == st.job_steps@.len(),
            i <= n,
            out@.len() == launch_positions(*st, i as int).len(),
            forall|k: int|
                0 <= k < out@.len() ==> is_order_for(
                    *st,
                    st.job_steps@[launch_positions(*st, i as int)[k]],
                    #[trigger] out@[k],
                ),
        decreases n - i,
    {
        let s = &st.job_steps[i];
        if s.status == StepStatus::Scheduled && s.job_id >= 1 && s.job_id as usize
            <= st.jobs.len() && st.jobs[(s.job_id - 1) as usize].status == JobStatus::Seeded
            && s.flow_step_id >= 1 && s.flow_step_id as usize <= st.flow_steps.len() {
            let fs = &st.flow_steps[(s.flow_step_id - 1) as usize];
            if fs.flow_id >= 1 && fs.flow_id as usize <= st.flows.len() {
                let job = &st.jobs[(s.job_id - 1) as usize];
                let f = &st.flows[(fs.flow_id - 1) as usize];
                let order = WorkOrder::new(
                    s.id,
                    text_of("S"),
                    f.topic_id,
                    job.start_dt,
                    fs.script_path.clone(),
                    clone_text_opt(&fs.script_parameters),
                    Some(fs.input_dir.clone()),
                    Some(fs.output_dir.clone()),
                );
                let ghost prev = out@;
                out.push(order);
                proof {
                    assert forall|k: int| 0 <= k < out@.len() implies is_order_for(
                        *st,
                        st.job_steps@[launch_positions(*st, i + 1)[k]],
                        #[trigger] out@[k],
                    ) by {
                        if k < prev.len() {
                            assert(out@[k] == prev[k]);
                        }
                    }
                }
            }
        }
        i = i + 1;
    }
    out
}

/// One dispatcher tick: packages every launchable step into a work order
/// and deals the orders round-robin over `queues` from `cursor`; returns
/// the cursor for the next tick.
pub fn dispatch_launchable(st: &Store, queues: &mut Vec<Vec<WorkOrder>>, cursor: usize) -> (r:
    usize)
    requires
        st.wf(),
        old(queues)@.len() > 0,
        cursor < old(queues)@.len(),
    ensures
        final(queues)@.len() == old(queues)@.len(),
        exists|os: Seq<WorkOrder>|
            {
                &&& os.len() == launch_positions(*st, st.job_steps@.len() as int).len()
                &&& forall|k: int|
                    0 <= k < os.len() ==> is_order_for(
                        *st,
                        st.job_steps@[launch_positions(*st, st.job_steps@.len() as int)[k]],
                        #[trigger] os[k],
                    )
                &&& contents(final(queues)@) == dealt(contents(old(queues)@), os, cursor as int)
                &&& r == (cursor + os.len()) % (old(queues)@.len() as int)
            },
{
    let orders = find_launchable_steps(st);
    let ghost os = orders@;
    let r = deal_round_robin(queues, orders, cursor);
    assert(contents(queues@) == dealt(contents(old(queues)@), os, cursor as int));
    r
}

} // verus!
