//! The shared LMS roster cache of the open project.
//!
//! Each change of context (another project, another course, no LMS) starts a
//! new generation. A background preload carries the generation it was started
//! with; its results are accepted only while that generation is current and
//! its task is the active one, so a preload of a project that was closed or
//! replaced can never overwrite the cache of the project that is open now.
use vstd::prelude::*;
use crate::errors::{HostError, RuntimeJobEvent, WorkerStatus};
use crate::json::JsonValue;
use crate::models::{LmsRosterCacheSnapshot, LmsRosterCacheStatus, LmsRosterRow};
use crate::text::{clone_opt_text, opt_text, opt_text_eq, owned, push_text, text_eq, text_or_empty};

verus! {

/// The LMS roster source a preload reads: the provider, the course, and the
/// connection the roster is fetched through.
#[derive(Debug, PartialEq, Eq)]
pub struct ActiveLmsRosterLoader {
    pub provider_id: String,
    pub course_id: String,
    /// The LMS base URL the roster is fetched from.
    pub base_url: String,
}

impl Clone for ActiveLmsRosterLoader {
    fn clone(&self) -> (r: Self)
        ensures
            r == *self,
    {
        ActiveLmsRosterLoader {
            provider_id: self.provider_id.clone(),
            course_id: self.course_id.clone(),
            base_url: self.base_url.clone(),
        }
    }
}

/// Whether two loaders read the same roster through the same connection.
pub open spec fn same_loader(a: ActiveLmsRosterLoader, b: ActiveLmsRosterLoader) -> bool {
    a.provider_id@ == b.provider_id@ && a.course_id@ == b.course_id@ && a.base_url@ == b.base_url@
}

/// What the open project and the settings say about the roster.
#[derive(Debug)]
#[allow(inconsistent_fields)]
pub enum CacheResolution {
    /// No roster can be loaded, for the reason given.
    Idle {
        project_path: Option<String>,
        provider: Option<String>,
        course_id: Option<String>,
        reason: String,
    },
    /// The roster of `loader` belongs to the project at `project_path`.
    Ready { project_path: String, loader: ActiveLmsRosterLoader },
}

/// What reconciling the cache with the current context did.
#[derive(Debug, PartialEq, Eq, Structural)]
pub enum RosterReconcileOutcome {
    /// Nothing changed.
    Unchanged,
    /// The cache changed; consumers are to be notified.
    Changed,
    /// A preload of the given generation starts; consumers are to be notified
    /// and the preload task spawned.
    StartedLoading(u64),
}

/// What the preload task does after a step.
#[derive(Debug, PartialEq, Eq, Structural)]
pub enum PreloadStep {
    /// The task is over; the cache was not touched.
    Stop,
    /// The cache took the step's outcome: notify consumers, and the task is over.
    NotifyAndStop,
    /// The cache took the step's outcome: notify consumers, wait, and go on.
    NotifyAndContinue,
}

/// The roster cache.
#[derive(Debug)]
pub struct ProjectLmsRosterCache {
    generation: u64,
    project_path: Option<String>,
    lms_provider: Option<String>,
    course_id: Option<String>,
    active_loader: Option<ActiveLmsRosterLoader>,
    status: LmsRosterCacheStatus,
    rows: Vec<LmsRosterRow>,
    last_error: Option<String>,
    idle_reason: Option<String>,
    active_task_generation: Option<u64>,
}

/// The generation that follows `g` (wrapping around at the top).
pub open spec fn next_generation(g: u64) -> u64 {
    if g == u64::MAX {
        0
    } else {
        (g + 1) as u64
    }
}

impl ProjectLmsRosterCache {
    /// The current generation.
    pub closed spec fn generation(&self) -> u64 {
        self.generation
    }

    /// The generation of the preload task that may still report, if any.
    pub closed spec fn task_generation(&self) -> Option<u64> {
        self.active_task_generation
    }

    pub closed spec fn status(&self) -> LmsRosterCacheStatus {
        self.status
    }

    pub closed spec fn rows(&self) -> Seq<LmsRosterRow> {
        self.rows@
    }

    pub closed spec fn project_path(&self) -> Option<Seq<char>> {
        opt_text(self.project_path)
    }

    pub closed spec fn lms_provider(&self) -> Option<Seq<char>> {
        opt_text(self.lms_provider)
    }

    pub closed spec fn course_id(&self) -> Option<Seq<char>> {
        opt_text(self.course_id)
    }

    pub closed spec fn loader(&self) -> Option<ActiveLmsRosterLoader> {
        self.active_loader
    }

    pub closed spec fn last_error(&self) -> Option<Seq<char>> {
        opt_text(self.last_error)
    }

    pub closed spec fn idle_reason(&self) -> Option<Seq<char>> {
        opt_text(self.idle_reason)
    }

    /// Whether a preload of generation `g` may still change the cache.
    pub open spec fn accepts(&self, g: u64) -> bool {
        self.generation() == g && self.task_generation() == Some(g)
    }

    /// Whether the cache holds the idle state described by the arguments.
    pub open spec fn is_idle_with(
        &self,
        project_path: Option<Seq<char>>,
        provider: Option<Seq<char>>,
        course_id: Option<Seq<char>>,
        reason: Seq<char>,
    ) -> bool {
        &&& self.status() == LmsRosterCacheStatus::Idle
        &&& self.project_path() == project_path
        &&& self.lms_provider() == provider
        &&& self.course_id() == course_id
        &&& self.idle_reason() == Some(reason)
        &&& self.rows().len() == 0
    }

    /// Whether the cache was just made idle from `old` with the given context.
    pub open spec fn became_idle(
        &self,
        old: ProjectLmsRosterCache,
        project_path: Option<Seq<char>>,
        provider: Option<Seq<char>>,
        course_id: Option<Seq<char>>,
        reason: Seq<char>,
    ) -> bool {
        &&& self.generation() == next_generation(old.generation())
        &&& self.is_idle_with(project_path, provider, course_id, reason)
        &&& self.loader() is None
        &&& self.last_error() is None
        &&& self.task_generation() is None
    }

    /// Whether the cache just started loading through `loader` from `old`.
    pub open spec fn began_loading(
        &self,
        old: ProjectLmsRosterCache,
        project_path: Seq<char>,
        loader: ActiveLmsRosterLoader,
    ) -> bool {
        &&& self.generation() == next_generation(old.generation())
        &&& self.project_path() == Some(project_path)
        &&& self.lms_provider() == Some(loader.provider_id@)
        &&& self.course_id() == Some(loader.course_id@)
        &&& self.loader() == Some(loader)
        &&& self.status() == LmsRosterCacheStatus::Loading
        &&& self.rows().len() == 0
        &&& self.last_error() is None
        &&& self.idle_reason() is None
        &&& self.task_generation() == Some(self.generation())
    }

    /// Whether the cache belongs to `project_path` and reads through `loader`.
    pub open spec fn in_loader_context(&self, project_path: Seq<char>, loader: ActiveLmsRosterLoader) -> bool {
        &&& self.project_path() == Some(project_path)
        &&& self.loader() matches Some(l) && same_loader(l, loader)
        &&& self.lms_provider() == Some(loader.provider_id@)
        &&& self.course_id() == Some(loader.course_id@)
    }

    /// Whether the snapshot `s` shows the cache as it is.
    pub open spec fn shown_by(&self, s: LmsRosterCacheSnapshot) -> bool {
        &&& s.status == self.status()
        &&& opt_text(s.project_path) == self.project_path()
        &&& opt_text(s.lms_provider) == self.lms_provider()
        &&& opt_text(s.course_id) == self.course_id()
        &&& s.rows@ == self.rows()
        &&& opt_text(s.last_error) == self.last_error()
        &&& opt_text(s.idle_reason) == self.idle_reason()
    }
}

impl Default for ProjectLmsRosterCache {
    /// An idle cache of generation zero with no context.
    fn default() -> (c: Self)
        ensures
            c.generation() == 0,
            c.status() == LmsRosterCacheStatus::Idle,
            c.rows().len() == 0,
            c.project_path() is None,
            c.lms_provider() is None,
            c.course_id() is None,
            c.loader() is None,
            c.last_error() is None,
            c.idle_reason() is None,
            c.task_generation() is None,
    {
        ProjectLmsRosterCache {
            generation: 0,
            project_path: None,
            lms_provider: None,
            course_id: None,
            active_loader: None,
            status: LmsRosterCacheStatus::Idle,
            rows: Vec::new(),
            last_error: None,
            idle_reason: None,
            active_task_generation: None,
        }
    }
}

/// A copy of a list of roster rows.
fn clone_rows(v: &Vec<LmsRosterRow>) -> (r: Vec<LmsRosterRow>)
    ensures
        r@ == v@,
{
    let r = v.clone();
    proof {
        assert forall|i: int| 0 <= i < v@.len() implies r@[i] == v@[i] by {
            assert(cloned::<LmsRosterRow>(v@[i], r@[i]));
        }
        assert(r@ =~= v@);
    }
    r
}

fn next_generation_of(g: u64) -> (r: u64)
    ensures
        r == next_generation(g),
{
    g.wrapping_add(1)
}

impl ProjectLmsRosterCache {
    /// A copy of the cache as consumers see it.
    pub fn snapshot(&self) -> (s: LmsRosterCacheSnapshot)
        ensures
            self.shown_by(s),
    {
        LmsRosterCacheSnapshot {
            status: self.status,
            project_path: clone_opt_text(&self.project_path),
            lms_provider: clone_opt_text(&self.lms_provider),
            course_id: clone_opt_text(&self.course_id),
            rows: clone_rows(&self.rows),
            last_error: clone_opt_text(&self.last_error),
            idle_reason: clone_opt_text(&self.idle_reason),
        }
    }

    /// Whether the cache belongs to `project_path` and reads through `loader`.
    pub fn same_loader_context(&self, project_path: &str, loader: &ActiveLmsRosterLoader) -> (r: bool)
        ensures
            r == self.in_loader_context(project_path@, *loader),
    {
        let path_matches = match &self.project_path {
            Some(p) => text_eq(p.as_str(), project_path),
            None => false,
        };
        let loader_matches = match &self.active_loader {
            Some(l) => text_eq(l.provider_id.as_str(), loader.provider_id.as_str()) && text_eq(
                l.course_id.as_str(),
                loader.course_id.as_str(),
            ) && text_eq(l.base_url.as_str(), loader.base_url.as_str()),
            None => false,
        };
        let provider_matches = match &self.lms_provider {
            Some(p) => text_eq(p.as_str(), loader.provider_id.as_str()),
            None => false,
        };
        let course_matches = match &self.course_id {
            Some(c) => text_eq(c.as_str(), loader.course_id.as_str()),
            None => false,
        };
        path_matches && loader_matches && provider_matches && course_matches
    }

    /// Starts a new generation with no roster, for the given context and reason.
    pub fn set_idle(
        &mut self,
        project_path: Option<String>,
        lms_provider: Option<String>,
        course_id: Option<String>,
        reason: String,
    )
        ensures
            final(self).became_idle(
                *old(self),
                opt_text(project_path),
                opt_text(lms_provider),
                opt_text(course_id),
                reason@,
            ),
    {
        self.generation = next_generation_of(self.generation);
        self.project_path = project_path;
        self.lms_provider = lms_provider;
        self.course_id = course_id;
        self.active_loader = None;
        self.status = LmsRosterCacheStatus::Idle;
        self.rows = Vec::new();
        self.last_error = None;
        self.idle_reason = Some(reason);
        self.active_task_generation = None;
    }

    /// Starts a new generation loading the roster of `loader` for the project
    /// at `project_path`; returns the generation the preload task carries.
    pub fn start_loading(&mut self, project_path: String, loader: ActiveLmsRosterLoader) -> (g: u64)
        ensures
            final(self).began_loading(*old(self), project_path@, loader),
            g == final(self).generation(),
            final(self).accepts(g),
    {
        self.generation = next_generation_of(self.generation);
        self.project_path = Some(project_path);
        self.lms_provider = Some(loader.provider_id.clone());
        self.course_id = Some(loader.course_id.clone());
        self.active_loader = Some(loader);
        self.status = LmsRosterCacheStatus::Loading;
        self.rows = Vec::new();
        self.last_error = None;
        self.idle_reason = None;
        self.active_task_generation = Some(self.generation);
        self.generation
    }

    /// A preload of generation `g` tries again: the cache shows it loading.
    /// Ignored (false) when `g` is stale.
    pub fn mark_retry_loading(&mut self, g: u64) -> (r: bool)
        ensures
            r == old(self).accepts(g),
            !r ==> *final(self) == *old(self),
            r ==> final(self).status() == LmsRosterCacheStatus::Loading && final(self).last_error() is None
                && final(self).idle_reason() is None && final(self).generation() == old(self).generation() && final(self).task_generation() == old(self).task_generation()
                && final(self).rows() == old(self).rows() && final(self).project_path() == old(self).project_path() && final(self).lms_provider() == old(self).lms_provider() && final(self).course_id() == old(self).course_id() && final(self).loader() == old(self).loader(),
    {
        if self.generation != g || self.active_task_generation != Some(g) {
            return false;
        }
        self.status = LmsRosterCacheStatus::Loading;
        self.last_error = None;
        self.idle_reason = None;
        true
    }

    /// A preload of generation `g` delivered `rows`: the cache is ready and the
    /// task is done. Ignored (false) when `g` is stale.
    pub fn finish_ready(&mut self, g: u64, rows: Vec<LmsRosterRow>) -> (r: bool)
        ensures
            r == old(self).accepts(g),
            !r ==> *final(self) == *old(self),
            r ==> final(self).status() == LmsRosterCacheStatus::Ready && final(self).rows() == rows@
                && final(self).last_error() is None && final(self).idle_reason() is None && final(self).task_generation() is None && final(self).generation() == old(self).generation()
                && final(self).project_path() == old(self).project_path() && final(self).lms_provider() == old(self).lms_provider() && final(self).course_id() == old(self).course_id() && final(self).loader() == old(self).loader(),
    {
        if self.generation != g || self.active_task_generation != Some(g) {
            return false;
        }
        self.status = LmsRosterCacheStatus::Ready;
        self.rows = rows;
        self.last_error = None;
        self.idle_reason = None;
        self.active_task_generation = None;
        true
    }

    /// A preload of generation `g` failed with `message`: the cache shows the
    /// error and the task may retry. Ignored (false) when `g` is stale.
    pub fn finish_error(&mut self, g: u64, message: String) -> (r: bool)
        ensures
            r == old(self).accepts(g),
            !r ==> *final(self) == *old(self),
            r ==> final(self).status() == LmsRosterCacheStatus::Error && final(self).rows().len() == 0
                && final(self).last_error() == Some(message@) && final(self).idle_reason() is None
                && final(self).task_generation() == old(self).task_generation() && final(self).generation() == old(self).generation() && final(self).project_path() == old(self).project_path() && final(self).lms_provider() == old(self).lms_provider() && final(self).course_id() == old(self).course_id() && final(self).loader() == old(self).loader(),
    {
        if self.generation != g || self.active_task_generation != Some(g) {
            return false;
        }
        self.status = LmsRosterCacheStatus::Error;
        self.rows = Vec::new();
        self.last_error = Some(message);
        self.idle_reason = None;
        true
    }

    /// Takes the outcome of one roster fetch of the preload of generation `g`
    /// and says what the task does next: rows end the task; an error is shown
    /// and the task retries after a pause; a stale generation ends the task
    /// without touching the cache.
    pub fn record_fetch_outcome(&mut self, g: u64, outcome: Result<Vec<LmsRosterRow>, String>) -> (step:
        PreloadStep)
        ensures
            !old(self).accepts(g) ==> step == PreloadStep::Stop && *final(self) == *old(self),
            old(self).accepts(g) && outcome is Ok ==> step == PreloadStep::NotifyAndStop && final(self).status() == LmsRosterCacheStatus::Ready && final(self).rows() == outcome->Ok_0@
                && final(self).task_generation() is None,
            old(self).accepts(g) && outcome is Err ==> step == PreloadStep::NotifyAndContinue && final(self).status() == LmsRosterCacheStatus::Error && final(self).last_error() == Some(
                outcome->Err_0@,
            ) && final(self).accepts(g),
    {
        match outcome {
            Ok(rows) => {
                if self.finish_ready(g, rows) {
                    PreloadStep::NotifyAndStop
                } else {
                    PreloadStep::Stop
                }
            },
            Err(message) => {
                if self.finish_error(g, message) {
                    PreloadStep::NotifyAndContinue
                } else {
                    PreloadStep::Stop
                }
            },
        }
    }

    /// The cache of a project that was closed: idle, with no context.
    pub fn clear_for_closed_project(&mut self)
        ensures
            final(self).became_idle(*old(self), None, None, None, "No project is currently open."@),
    {
        self.set_idle(None, None, None, owned("No project is currently open."));
    }

    /// Brings the cache in line with an idle resolution: nothing changes when
    /// it already shows exactly that idle state; otherwise a new idle
    /// generation starts. Returns whether the cache changed.
    pub fn reconcile_idle(
        &mut self,
        project_path: Option<String>,
        provider: Option<String>,
        course_id: Option<String>,
        reason: String,
    ) -> (changed: bool)
        ensures
            changed == !old(self).is_idle_with(
                opt_text(project_path),
                opt_text(provider),
                opt_text(course_id),
                reason@,
            ),
            !changed ==> *final(self) == *old(self),
            changed ==> final(self).became_idle(
                *old(self),
                opt_text(project_path),
                opt_text(provider),
                opt_text(course_id),
                reason@,
            ),
    {
        let reason_matches = match &self.idle_reason {
            Some(r) => text_eq(r.as_str(), reason.as_str()),
            None => false,
        };
        let unchanged = self.status == LmsRosterCacheStatus::Idle && opt_text_eq(
            &self.project_path,
            &project_path,
        ) && opt_text_eq(&self.lms_provider, &provider) && opt_text_eq(&self.course_id, &course_id)
            && reason_matches && self.rows.len() == 0;
        if unchanged {
            false
        } else {
            self.set_idle(project_path, provider, course_id, reason);
            true
        }
    }

    /// Brings the cache in line with a ready resolution. When loading is
    /// wanted, a preload starts unless the cache already reads through this
    /// loader and is ready or loading. Otherwise the cache only turns idle
    /// ("not started yet") when it reads through another loader.
    pub fn reconcile_ready(
        &mut self,
        start_loading: bool,
        project_path: String,
        loader: ActiveLmsRosterLoader,
    ) -> (r: RosterReconcileOutcome)
        ensures
            ({
                let same = old(self).in_loader_context(project_path@, loader);
                let busy_or_ready = old(self).status() == LmsRosterCacheStatus::Ready || old(self).task_generation() is Some;
                &&& start_loading && same && busy_or_ready ==> r == RosterReconcileOutcome::Unchanged
                    && *final(self) == *old(self)
                &&& start_loading && !(same && busy_or_ready) ==> r == RosterReconcileOutcome::StartedLoading(
                    final(self).generation(),
                ) && final(self).began_loading(*old(self), project_path@, loader)
                &&& !start_loading && same ==> r == RosterReconcileOutcome::Unchanged && *final(self)
                    == *old(self)
                &&& !start_loading && !same ==> r == RosterReconcileOutcome::Changed && final(self).became_idle(
                    *old(self),
                    Some(project_path@),
                    Some(loader.provider_id@),
                    Some(loader.course_id@),
                    "Shared LMS roster preload has not started yet."@,
                )
            }),
    {
        let same = self.same_loader_context(project_path.as_str(), &loader);
        if start_loading {
            if same && (self.status == LmsRosterCacheStatus::Ready
                || self.active_task_generation.is_some()) {
                return RosterReconcileOutcome::Unchanged;
            }
            let g = self.start_loading(project_path, loader);
            return RosterReconcileOutcome::StartedLoading(g);
        }
        if !same {
            let provider = loader.provider_id.clone();
            let course = loader.course_id.clone();
            self.set_idle(
                Some(project_path),
                Some(provider),
                Some(course),
                owned("Shared LMS roster preload has not started yet."),
            );
            RosterReconcileOutcome::Changed
        } else {
            RosterReconcileOutcome::Unchanged
        }
    }

    /// Brings the cache in line with `resolution` (see `reconcile_idle` and
    /// `reconcile_ready`).
    pub fn reconcile(&mut self, resolution: CacheResolution, start_loading: bool) -> (r:
        RosterReconcileOutcome)
        ensures
            match resolution {
                CacheResolution::Idle { project_path, provider, course_id, reason } => {
                    let unchanged = old(self).is_idle_with(
                        opt_text(project_path),
                        opt_text(provider),
                        opt_text(course_id),
                        reason@,
                    );
                    &&& unchanged ==> r == RosterReconcileOutcome::Unchanged && *final(self) == *old(self)
                    &&& !unchanged ==> r == RosterReconcileOutcome::Changed && final(self).became_idle(
                        *old(self),
                        opt_text(project_path),
                        opt_text(provider),
                        opt_text(course_id),
                        reason@,
                    )
                },
                CacheResolution::Ready { project_path, loader } => {
                    let same = old(self).in_loader_context(project_path@, loader);
                    let busy_or_ready = old(self).status() == LmsRosterCacheStatus::Ready || old(self).task_generation() is Some;
                    &&& start_loading && same && busy_or_ready ==> r
                        == RosterReconcileOutcome::Unchanged && *final(self) == *old(self)
                    &&& start_loading && !(same && busy_or_ready) ==> r
                        == RosterReconcileOutcome::StartedLoading(final(self).generation()) && final(self).began_loading(*old(self), project_path@, loader)
                    &&& !start_loading && same ==> r == RosterReconcileOutcome::Unchanged && *final(self) == *old(self)
                    &&& !start_loading && !same ==> r == RosterReconcileOutcome::Changed && final(self).became_idle(
                        *old(self),
                        Some(project_path@),
                        Some(loader.provider_id@),
                        Some(loader.course_id@),
                        "Shared LMS roster preload has not started yet."@,
                    )
                },
            },
    {
        match resolution {
            CacheResolution::Idle { project_path, provider, course_id, reason } => {
                if self.reconcile_idle(project_path, provider, course_id, reason) {
                    RosterReconcileOutcome::Changed
                } else {
                    RosterReconcileOutcome::Unchanged
                }
            },
            CacheResolution::Ready { project_path, loader } => {
                self.reconcile_ready(start_loading, project_path, loader)
            },
        }
    }
}

/// The course and roster rows a consumer may use, or why it may not: an idle
/// cache is a validation error, a loading or failed one a conflict.
pub fn required_cached_rows(snapshot: LmsRosterCacheSnapshot, action: &str) -> (r: Result<
    (String, Vec<LmsRosterRow>),
    HostError,
>)
    ensures
        match snapshot.status {
            LmsRosterCacheStatus::Ready => r matches Ok((course, rows)) && course@ == text_or_empty(
                snapshot.course_id,
            ) && rows@ == snapshot.rows@,
            LmsRosterCacheStatus::Idle => r matches Err(e) && e is Validation && e.msg() == action@
                + " requires a shared LMS roster, but preload is idle: "@ + match opt_text(
                snapshot.idle_reason,
            ) {
                Some(reason) => reason,
                None => "missing roster prerequisites"@,
            },
            LmsRosterCacheStatus::Loading => r matches Err(e) && e is Conflict && e.msg() == action@
                + " requires the shared LMS roster, but preload is still running."@,
            LmsRosterCacheStatus::Error => r matches Err(e) && e is Conflict && e.msg() == action@
                + " requires the shared LMS roster, but preload failed: "@ + match opt_text(
                snapshot.last_error,
            ) {
                Some(err) => err,
                None => "unknown LMS roster preload error"@,
            },
        },
{
    match snapshot.status {
        LmsRosterCacheStatus::Ready => {
            let course = match snapshot.course_id {
                Some(c) => c,
                None => String::new(),
            };
            Ok((course, snapshot.rows))
        },
        LmsRosterCacheStatus::Idle => {
            let mut message = owned(action);
            push_text(&mut message, " requires a shared LMS roster, but preload is idle: ");
            match &snapshot.idle_reason {
                Some(reason) => push_text(&mut message, reason.as_str()),
                None => push_text(&mut message, "missing roster prerequisites"),
            }
            Err(HostError::Validation(message))
        },
        LmsRosterCacheStatus::Loading => {
            let mut message = owned(action);
            push_text(&mut message, " requires the shared LMS roster, but preload is still running.");
            Err(HostError::Conflict(message))
        },
        LmsRosterCacheStatus::Error => {
            let mut message = owned(action);
            push_text(&mut message, " requires the shared LMS roster, but preload failed: ");
            match &snapshot.last_error {
                Some(err) => push_text(&mut message, err.as_str()),
                None => push_text(&mut message, "unknown LMS roster preload error"),
            }
            Err(HostError::Conflict(message))
        },
    }
}

/// The course and roster rows when the cache is ready.
pub fn cached_rows_if_ready(snapshot: LmsRosterCacheSnapshot) -> (r: Option<(String, Vec<LmsRosterRow>)>)
    ensures
        snapshot.status == LmsRosterCacheStatus::Ready <==> r is Some,
        r matches Some((course, rows)) ==> course@ == text_or_empty(snapshot.course_id) && rows@
            == snapshot.rows@,
{
    if snapshot.status == LmsRosterCacheStatus::Ready {
        let course = match snapshot.course_id {
            Some(c) => c,
            None => String::new(),
        };
        Some((course, snapshot.rows))
    } else {
        None
    }
}

// ---------------------------------------------------------------------------
// Laws
// ---------------------------------------------------------------------------

/// A new generation makes every preload of the previous one stale: once the
/// cache has moved on from `g` (idle or loading again), it accepts nothing
/// more from the preload of `g`.
pub proof fn law_new_generation_rejects_previous(c: ProjectLmsRosterCache, g: u64)
    requires
        c.generation() == next_generation(g),
    ensures
        !c.accepts(g),
{
}


/// The event telling the frontend that the roster cache changed, carrying
/// the cache's snapshot as JSON.
pub fn roster_cache_event(worker_status: WorkerStatus, snapshot_payload: JsonValue) -> (e: RuntimeJobEvent)
    ensures
        e.event_type@ == "lms_roster_cache_updated"@,
        e.command_name@ == "lms.roster-cache"@,
        e.worker_status == worker_status,
        e.request_id is None,
        e.job_id is None,
        e.payload == snapshot_payload,
{
    RuntimeJobEvent {
        event_type: owned("lms_roster_cache_updated"),
        command_name: owned("lms.roster-cache"),
        worker_status,
        request_id: None,
        job_id: None,
        payload: snapshot_payload,
    }
}

} // verus!
