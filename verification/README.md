# scriptscore_state

The state logic of the ScriptScore desktop host, written in Verus: the
functions in `src/` state what they do in `requires`/`ensures` contracts,
and Verus proves each body against its contract.

## Layout

- `src/` — the verified library.
  - `scheduler`, `dispatch`, `runtime`, `worker_messages`, `job_records`:
    the runtime job queue (dependencies, failure and cancellation), which job
    starts next, the worker's messages and the events relayed to the
    frontend, and what the job history keeps.
  - `workflow`, `stage_payloads`, `pii`: the student workflow stages (each
    next step of a submission, PII screening, grading of one submission and of
    a batch), where a stopped submission resumes, review inputs, worker request
    payloads and PII trigger words.
  - `batch_steps`: the batch pipeline's changes to the workflow state: moving
    several submissions into a stage, stopping or failing them, and recording
    what canonicalization, crop, PII screening and parsing came to.
  - `moderation`, `results_export`, `results_lms`, `report`: moderated scores
    and feedback, CSV and HTML exports, finalization and LMS upload, and the
    HTML report posted with each grade; `embed_image` makes its images small
    enough to embed.
  - `roster_cache`, `project_setup`, `host_workflow`, `submission_delete`,
    `provider_probes`: the LMS roster cache, setup decisions, host workflows,
    submission deletion and worker/provider probes.
  - `json`, `text`, `seqs`, `sorted`, `messages`, `errors`, `models`: the JSON
    model, text primitives, sequence functions and the shared records.
- `tests/` — tests run against the compiled library.
- `app/` — ordinary Rust around the library: serde forms of its records,
  JSON conversion, files written by exports, reading report images, and the
  drivers of the single-submission and batch pipelines.

Public proof functions named `law_*` state properties that hold across
operations (for example, that a failed job's dependents are either skipped
or released, never both).
