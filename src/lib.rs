//! Core of a database-backed workflow orchestrator: cron expansion of flows
//! into dated jobs, job-step seeding and launching, and round-robin dispatch
//! of launchable steps to a bounded worker pool.
//!
//! - `text`: decimal rendering, name normalisation and space splitting.
//! - `clock`: UTC instants as epoch seconds and their calendar fields.
//! - `schedule`: the cron evaluator.
//! - `model`: table rows, insert forms and status codes.
//! - `store`: the five tables with their queries and conditional updates.
//! - `controller`: the flow controller tick and the job step launcher.
//! - `dispatch`: work orders, round-robin dealing and worker decisions.
//! - `conn`: connection settings.
//! - `laws`: properties that span several ticks or calls.

pub mod text;
pub mod clock;
pub mod schedule;
pub mod model;
pub mod store;
pub mod controller;
pub mod laws;
pub mod dispatch;
pub mod conn;
