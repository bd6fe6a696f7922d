//! Verified state logic of the ScriptScore desktop host: moderation, results
//! export, results/LMS upload preparation, report rendering, the shared LMS
//! roster cache, the runtime job scheduler and its dispatch, worker messages
//! and the job history, and the student workflow stages.
pub mod errors;
pub mod json;
pub mod text;
pub mod models;
pub mod seqs;
pub mod sorted;
pub mod messages;
pub mod moderation;
pub mod scheduler;
pub mod roster_cache;
pub mod results_lms;
pub mod report;
pub mod results_export;
pub mod runtime;
pub mod workflow;
pub mod stage_payloads;
pub mod pii;
pub mod host_workflow;
pub mod submission_delete;
pub mod project_setup;
pub mod dispatch;
pub mod worker_messages;
pub mod provider_probes;
pub mod job_records;
pub mod batch_steps;
pub mod embed_image;
