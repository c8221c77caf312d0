use vstd::prelude::*;

verus! {

pub const MAX_IDLE_MINUTES: u64 = 1440;

pub const MAX_BATCH_SIZE: u64 = 2000;

/// Shortest interval between two ticks of the scheduler.
pub const MIN_TICK_SECONDS: u64 = 10;

pub open spec fn clamp_spec(v: int, lo: int, hi: int) -> int {
    if v < lo {
        lo
    } else if v > hi {
        hi
    } else {
        v
    }
}

/// The idle threshold in minutes, clamped to `[1, 1440]`.
pub fn clamp_idle_minutes(v: u64) -> (r: u64)
    ensures
        r == clamp_spec(v as int, 1, MAX_IDLE_MINUTES as int),
{
    if v < 1 {
        1
    } else if v > MAX_IDLE_MINUTES {
        MAX_IDLE_MINUTES
    } else {
        v
    }
}

/// The batch size, clamped to `[1, 2000]`.
pub fn clamp_batch_size(v: u64) -> (r: u64)
    ensures
        r == clamp_spec(v as int, 1, MAX_BATCH_SIZE as int),
{
    if v < 1 {
        1
    } else if v > MAX_BATCH_SIZE {
        MAX_BATCH_SIZE
    } else {
        v
    }
}

/// The interval of the scheduler's ticks: the configured one, at least ten seconds.
pub fn tick_interval_seconds(configured: u64) -> (r: u64)
    ensures
        r == if configured < MIN_TICK_SECONDS {
            MIN_TICK_SECONDS
        } else {
            configured
        },
{
    if configured < MIN_TICK_SECONDS {
        MIN_TICK_SECONDS
    } else {
        configured
    }
}

/// What one prefetch batch did.
#[derive(Debug, Clone, Copy, PartialEq, Eq)]
pub struct PictogramPrefetchRunResultDto {
    pub processed_ids: u64,
    pub downloaded: u64,
    pub already_cached: u64,
    pub hydrated_seeded: u64,
    pub idle_seconds: u64,
}

/// The process-wide prefetch settings.
#[derive(Debug, Clone, PartialEq)]
pub struct PrefetchSettings {
    pub enabled: bool,
    pub idle_minutes: u64,
    pub batch_size: u64,
    pub last_run_at: Option<String>,
    pub last_result: Option<PictogramPrefetchRunResultDto>,
}

impl PrefetchSettings {
    /// Thresholds inside their ranges.
    pub open spec fn wf(&self) -> bool {
        1 <= self.idle_minutes <= MAX_IDLE_MINUTES && 1 <= self.batch_size <= MAX_BATCH_SIZE
    }
}

/// The settings created on first access, from the configured defaults.
pub fn initial_settings(enabled: bool, idle_minutes: u64, batch_size: u64) -> (r: PrefetchSettings)
    ensures
        r.wf(),
        r.enabled == enabled,
        r.idle_minutes == clamp_spec(idle_minutes as int, 1, MAX_IDLE_MINUTES as int),
        r.batch_size == clamp_spec(batch_size as int, 1, MAX_BATCH_SIZE as int),
        r.last_run_at is None,
        r.last_result is None,
{
    PrefetchSettings {
        enabled,
        idle_minutes: clamp_idle_minutes(idle_minutes),
        batch_size: clamp_batch_size(batch_size),
        last_run_at: None,
        last_result: None,
    }
}

/// Applies an administrative update: each given value replaces the current
/// one, thresholds clamped; absent values leave the setting as it is.
pub fn update_settings(
    settings: &mut PrefetchSettings,
    enabled: Option<bool>,
    idle_minutes: Option<u64>,
    batch_size: Option<u64>,
)
    requires
        old(settings).wf(),
    ensures
        final(settings).wf(),
        final(settings).enabled == match enabled {
            Some(e) => e,
            None => old(settings).enabled,
        },
        final(settings).idle_minutes == match idle_minutes {
            Some(v) => clamp_spec(v as int, 1, MAX_IDLE_MINUTES as int) as u64,
            None => old(settings).idle_minutes,
        },
        final(settings).batch_size == match batch_size {
            Some(v) => clamp_spec(v as int, 1, MAX_BATCH_SIZE as int) as u64,
            None => old(settings).batch_size,
        },
        final(settings).last_run_at == old(settings).last_run_at,
        final(settings).last_result == old(settings).last_result,
{
    if let Some(e) = enabled {
        settings.enabled = e;
    }
    if let Some(v) = idle_minutes {
        settings.idle_minutes = clamp_idle_minutes(v);
    }
    if let Some(v) = batch_size {
        settings.batch_size = clamp_batch_size(v);
    }
}

/// Stores the outcome of a finished batch.
pub fn record_run(settings: &mut PrefetchSettings, at: String, result: PictogramPrefetchRunResultDto)
    ensures
        final(settings).enabled == old(settings).enabled,
        final(settings).idle_minutes == old(settings).idle_minutes,
        final(settings).batch_size == old(settings).batch_size,
        final(settings).last_run_at == Some(at),
        final(settings).last_result == Some(result),
{
    settings.last_run_at = Some(at);
    settings.last_result = Some(result);
}

/// The settings as the administrative surface shows them.
#[derive(Debug, Clone, PartialEq)]
pub struct PictogramPrefetchSettingsDto {
    pub enabled: bool,
    pub idle_minutes: u64,
    pub batch_size: u64,
    pub last_run_at: Option<String>,
    pub last_result: Option<PictogramPrefetchRunResultDto>,
    pub idle_seconds: u64,
}

/// The settings with the current idle time, for display.
pub fn prefetch_row_to_dto(settings: PrefetchSettings, idle_seconds: u64) -> (r: PictogramPrefetchSettingsDto)
    ensures
        r.enabled == settings.enabled,
        r.idle_minutes == if settings.idle_minutes < 1 { 1 } else { settings.idle_minutes },
        r.batch_size == if settings.batch_size < 1 { 1 } else { settings.batch_size },
        r.last_run_at == settings.last_run_at,
        r.last_result == settings.last_result,
        r.idle_seconds == idle_seconds,
{
    PictogramPrefetchSettingsDto {
        enabled: settings.enabled,
        idle_minutes: if settings.idle_minutes < 1 { 1 } else { settings.idle_minutes },
        batch_size: if settings.batch_size < 1 { 1 } else { settings.batch_size },
        last_run_at: settings.last_run_at,
        last_result: settings.last_result,
        idle_seconds,
    }
}

// ---------------------------------------------------------------------------
// Ticks
// ---------------------------------------------------------------------------

/// What a tick of the scheduler decides.
#[derive(Debug, Clone, Copy, PartialEq, Eq)]
pub enum TickDecision {
    /// Prefetching is switched off.
    Disabled,
    /// Foreground activity was too recent.
    TooSoon,
    /// Run one batch of at most this many ids.
    Run { batch_size: u64 },
}

/// Seconds of inactivity a batch waits for: the threshold in minutes (at
/// least one) times sixty, saturating.
pub open spec fn required_idle_spec(idle_minutes: u64) -> int {
    let m = if idle_minutes < 1 { 1 } else { idle_minutes as int };
    if m * 60 > u64::MAX {
        u64::MAX as int
    } else {
        m * 60
    }
}

pub fn required_idle_seconds(idle_minutes: u64) -> (r: u64)
    ensures
        r == required_idle_spec(idle_minutes),
{
    let m = if idle_minutes < 1 {
        1
    } else {
        idle_minutes
    };
    if m > u64::MAX / 60 {
        u64::MAX
    } else {
        m * 60
    }
}

pub open spec fn tick_spec(enabled: bool, idle_minutes: u64, batch_size: u64, idle_seconds: u64) -> TickDecision {
    if !enabled {
        TickDecision::Disabled
    } else if (idle_seconds as int) < required_idle_spec(idle_minutes) {
        TickDecision::TooSoon
    } else {
        TickDecision::Run {
            batch_size: clamp_spec(batch_size as int, 1, MAX_BATCH_SIZE as int) as u64,
        }
    }
}

/// Evaluates one tick: nothing when disabled or when the time since the
/// last foreground activity is under the threshold; a batch otherwise.
pub fn evaluate_tick(settings: &PrefetchSettings, idle_seconds: u64) -> (r: TickDecision)
    ensures
        r == tick_spec(settings.enabled, settings.idle_minutes, settings.batch_size, idle_seconds),
{
    if !settings.enabled {
        return TickDecision::Disabled;
    }
    if idle_seconds < required_idle_seconds(settings.idle_minutes) {
        return TickDecision::TooSoon;
    }
    TickDecision::Run { batch_size: clamp_batch_size(settings.batch_size) }
}

// ---------------------------------------------------------------------------
// The scheduler
// ---------------------------------------------------------------------------

/// Where the idle prefetch scheduler stands.
#[derive(Debug, Clone, Copy, PartialEq, Eq)]
pub enum SchedulerState {
    /// Waiting for the next tick.
    Idle,
    /// Loading the settings and the idle time.
    Evaluating,
    /// Running one batch.
    Running { batch_size: u64 },
}

/// What the driver of the scheduler reports.
#[derive(Debug, Clone, PartialEq)]
pub enum SchedulerEvent {
    /// The fixed-interval timer fired.
    Tick,
    /// The settings were loaded; the idle time was read with them.
    SettingsLoaded { settings: PrefetchSettings, idle_seconds: u64 },
    /// The settings could not be loaded.
    SettingsUnavailable,
    /// The running batch ended, well or not.
    BatchFinished,
}

/// What the driver must do next.
#[derive(Debug, Clone, Copy, PartialEq, Eq)]
pub enum SchedulerAction {
    /// Nothing until the next event.
    Wait,
    /// Load the settings and read the idle time.
    LoadSettings,
    /// Run one batch of at most this many ids, then report `BatchFinished`.
    RunBatch { batch_size: u64 },
}

pub open spec fn scheduler_spec(state: SchedulerState, event: SchedulerEvent) -> (SchedulerState, SchedulerAction) {
    match (state, event) {
        (SchedulerState::Idle, SchedulerEvent::Tick) => (SchedulerState::Evaluating, SchedulerAction::LoadSettings),
        (SchedulerState::Evaluating, SchedulerEvent::SettingsLoaded { settings, idle_seconds }) => {
            match tick_spec(settings.enabled, settings.idle_minutes, settings.batch_size, idle_seconds) {
                TickDecision::Run { batch_size } => (
                    SchedulerState::Running { batch_size },
                    SchedulerAction::RunBatch { batch_size },
                ),
                _ => (SchedulerState::Idle, SchedulerAction::Wait),
            }
        },
        (SchedulerState::Evaluating, SchedulerEvent::SettingsUnavailable) => (SchedulerState::Idle, SchedulerAction::Wait),
        (SchedulerState::Running { .. }, SchedulerEvent::BatchFinished) => (SchedulerState::Idle, SchedulerAction::Wait),
        _ => (state, SchedulerAction::Wait),
    }
}

/// One transition of the scheduler: a tick moves an idle scheduler to
/// evaluation; the loaded settings and idle time start a batch or return it
/// to idle; a finished batch returns it to idle. Any other event, such as a
/// tick during a batch, changes nothing.
pub fn scheduler_step(state: SchedulerState, event: SchedulerEvent) -> (r: (SchedulerState, SchedulerAction))
    ensures
        r == scheduler_spec(state, event),
{
    match (state, event) {
        (SchedulerState::Idle, SchedulerEvent::Tick) => (SchedulerState::Evaluating, SchedulerAction::LoadSettings),
        (SchedulerState::Evaluating, SchedulerEvent::SettingsLoaded { settings, idle_seconds }) => {
            match evaluate_tick(&settings, idle_seconds) {
                TickDecision::Run { batch_size } => (
                    SchedulerState::Running { batch_size },
                    SchedulerAction::RunBatch { batch_size },
                ),
                _ => (SchedulerState::Idle, SchedulerAction::Wait),
            }
        },
        (SchedulerState::Evaluating, SchedulerEvent::SettingsUnavailable) => (SchedulerState::Idle, SchedulerAction::Wait),
        (SchedulerState::Running { .. }, SchedulerEvent::BatchFinished) => (SchedulerState::Idle, SchedulerAction::Wait),
        _ => (state, SchedulerAction::Wait),
    }
}

/// Batches never overlap: while one runs, no event starts another, and a
/// batch starts only from evaluation, with the gating of `tick_spec`.
pub proof fn lemma_no_overlapping_batches(state: SchedulerState, event: SchedulerEvent)
    ensures
        state is Running ==> !(scheduler_spec(state, event).1 is RunBatch),
        scheduler_spec(state, event).1 is RunBatch ==> state == SchedulerState::Evaluating,
{
}

// ---------------------------------------------------------------------------
// Candidates of a batch
// ---------------------------------------------------------------------------

pub open spec fn in_any(a: Seq<i32>, b: Seq<i32>, c: Seq<i32>, x: i32) -> bool {
    a.contains(x) || b.contains(x) || c.contains(x)
}

pub open spec fn above(x: i32, floor: Option<i32>) -> bool {
    match floor {
        Some(f) => x > f,
        None => true,
    }
}

/// The ids to prefetch: the smallest ids referenced anywhere, without
/// repeats, in ascending order, at most `cap` of them.
pub open spec fn is_candidate_list(r: Seq<i32>, a: Seq<i32>, b: Seq<i32>, c: Seq<i32>, cap: int) -> bool {
    &&& r.len() <= cap
    &&& forall|i: int, j: int| 0 <= i < j < r.len() ==> r[i] < r[j]
    &&& forall|i: int| 0 <= i < r.len() ==> in_any(a, b, c, #[trigger] r[i])
    &&& r.len() < cap ==> forall|x: i32| in_any(a, b, c, x) ==> r.contains(x)
    &&& r.len() > 0 ==> forall|x: i32| in_any(a, b, c, x) && x <= r.last() ==> r.contains(x)
}

fn min_above(v: &Vec<i32>, floor: Option<i32>) -> (r: Option<i32>)
    ensures
        match r {
            Some(m) => v@.contains(m) && above(m, floor) && forall|x: i32|
                v@.contains(x) && above(x, floor) ==> m <= x,
            None => forall|x: i32| v@.contains(x) ==> !above(x, floor),
        },
{
    let mut best: Option<i32> = None;
    let mut i: usize = 0;
    while i < v.len()
        invariant
            i <= v@.len(),
            match best {
                Some(m) => v@.contains(m) && above(m, floor) && forall|k: int|
                    0 <= k < i && above(v@[k], floor) ==> m <= v@[k],
                None => forall|k: int| 0 <= k < i ==> !above(#[trigger] v@[k], floor),
            },
        decreases v@.len() - i,
    {
        let x = v[i];
        let is_above = match floor {
            Some(f) => x > f,
            None => true,
        };
        if is_above {
            match best {
                Some(m) => {
                    if x < m {
                        best = Some(x);
                    }
                },
                None => {
                    best = Some(x);
                },
            }
        }
        i = i + 1;
    }
    best
}

fn smaller(a: Option<i32>, b: Option<i32>) -> (r: Option<i32>)
    ensures
        r == match (a, b) {
            (Some(x), Some(y)) => Some(if x <= y { x } else { y }),
            (Some(x), None) => Some(x),
            (None, Some(y)) => Some(y),
            (None, None) => None::<i32>,
        },
{
    match (a, b) {
        (Some(x), Some(y)) => Some(if x <= y { x } else { y }),
        (Some(x), None) => Some(x),
        (None, Some(y)) => Some(y),
        (None, None) => None,
    }
}

/// The ids of one batch, from the ids referenced by card libraries, by saved
/// bookmarks and by the Local Store: deduplicated, ascending, at most the
/// batch size clamped to `[1, 2000]`.
pub fn prefetch_candidates(library: &Vec<i32>, saved: &Vec<i32>, cached: &Vec<i32>, batch_size: u64) -> (r:
    Vec<i32>)
    ensures
        is_candidate_list(
            r@,
            library@,
            saved@,
            cached@,
            clamp_spec(batch_size as int, 1, MAX_BATCH_SIZE as int),
        ),
{
    let cap = clamp_batch_size(batch_size) as usize;
    let ghost (a, b, c) = (library@, saved@, cached@);
    let mut out: Vec<i32> = Vec::new();
    let mut floor: Option<i32> = None;
    let mut done = false;
    while !done && out.len() < cap
        invariant
            a == library@ && b == saved@ && c == cached@,
            cap == clamp_spec(batch_size as int, 1, MAX_BATCH_SIZE as int),
            out@.len() <= cap,
            forall|i: int, j: int| 0 <= i < j < out@.len() ==> out@[i] < out@[j],
            forall|i: int| 0 <= i < out@.len() ==> in_any(a, b, c, #[trigger] out@[i]),
            floor == (if out@.len() > 0 { Some(out@.last()) } else { None::<i32> }),
            forall|x: i32| in_any(a, b, c, x) && !above(x, floor) ==> out@.contains(x),
            done ==> forall|x: i32| in_any(a, b, c, x) ==> out@.contains(x),
        decreases cap - out@.len(), (if done { 0int } else { 1int }),
    {
        let m1 = min_above(library, floor);
        let m2 = min_above(saved, floor);
        let m3 = min_above(cached, floor);
        let next = smaller(smaller(m1, m2), m3);
        match next {
            None => {
                assert forall|x: i32| in_any(a, b, c, x) implies out@.contains(x) by {
                    assert(!above(x, floor));
                }
                done = true;
            },
            Some(m) => {
                let ghost before = out@;
                out.push(m);
                proof {
                    assert(in_any(a, b, c, m));
                    assert forall|x: i32| in_any(a, b, c, x) && !above(x, Some(m)) implies out@.contains(
                        x,
                    ) by {
                        if above(x, floor) {
                            assert(m <= x);
                            assert(out@[before.len() as int] == x);
                        } else {
                            assert(before.contains(x));
                            let k = choose|k: int| 0 <= k < before.len() && before[k] == x;
                            assert(out@[k] == x);
                        }
                    }
                    assert forall|i: int, j: int| 0 <= i < j < out@.len() implies out@[i] < out@[j] by {
                        if j == before.len() {
                            assert(!above(before[i], floor)) by {
                                if before.len() > 0 {
                                    if i < before.len() - 1 {
                                        assert(before[i] < before.last());
                                    }
                                }
                            }
                        }
                    }
                }
                floor = Some(m);
            },
        }
    }
    proof {
        let r = out@;
        if r.len() > 0 {
            assert forall|x: i32| in_any(a, b, c, x) && x <= r.last() implies r.contains(x) by {
                assert(!above(x, floor));
            }
        }
    }
    out
}

// ---------------------------------------------------------------------------
// Running a batch
// ---------------------------------------------------------------------------

/// How prefetching one id went.
#[derive(Debug, Clone, Copy, PartialEq, Eq)]
pub enum IdOutcome {
    /// The id was already served from a verified cached file: no origin call.
    AlreadyCached,
    /// The id was resolved and its asset is now on disk.
    Downloaded,
    /// The id was resolved without an asset on disk, or its resolution failed.
    NotDownloaded,
}

/// How prefetching one id went: `AlreadyCached` when a cached file already
/// served it; otherwise `Downloaded` when its resolution left a file on disk,
/// `NotDownloaded` when it left none or failed (`None`).
pub fn prefetch_outcome(already_cached: bool, resolved_file_exists: Option<bool>) -> (r: IdOutcome)
    ensures
        r == if already_cached {
            IdOutcome::AlreadyCached
        } else if resolved_file_exists == Some(true) {
            IdOutcome::Downloaded
        } else {
            IdOutcome::NotDownloaded
        },
{
    if already_cached {
        IdOutcome::AlreadyCached
    } else {
        match resolved_file_exists {
            Some(true) => IdOutcome::Downloaded,
            _ => IdOutcome::NotDownloaded,
        }
    }
}

/// One batch in progress: the ids it works through, the next position, and
/// the counts so far.
#[derive(Debug, Clone, PartialEq)]
pub struct PrefetchRun {
    pub ids: Vec<i32>,
    pub position: usize,
    pub result: PictogramPrefetchRunResultDto,
}

impl PrefetchRun {
    pub open spec fn wf(&self) -> bool {
        &&& self.position <= self.ids@.len()
        &&& self.result.processed_ids == self.position
        &&& self.result.downloaded + self.result.already_cached <= self.position
    }

    /// A batch over `ids` that has done nothing yet.
    pub fn new(ids: Vec<i32>, hydrated_seeded: u64, idle_seconds: u64) -> (r: PrefetchRun)
        ensures
            r.wf(),
            r.ids == ids,
            r.position == 0,
            r.result == (PictogramPrefetchRunResultDto {
                processed_ids: 0,
                downloaded: 0,
                already_cached: 0,
                hydrated_seeded,
                idle_seconds,
            }),
    {
        PrefetchRun {
            ids,
            position: 0,
            result: PictogramPrefetchRunResultDto {
                processed_ids: 0,
                downloaded: 0,
                already_cached: 0,
                hydrated_seeded,
                idle_seconds,
            },
        }
    }

    /// The id to handle next, if any is left.
    pub fn next_id(&self) -> (r: Option<i32>)
        requires
            self.wf(),
        ensures
            self.position < self.ids@.len() ==> r == Some(self.ids@[self.position as int]),
            self.position >= self.ids@.len() ==> r is None,
    {
        if self.position < self.ids.len() {
            Some(self.ids[self.position])
        } else {
            None
        }
    }

    /// Records how the current id went and moves to the next one.
    pub fn record(&mut self, outcome: IdOutcome)
        requires
            old(self).wf(),
            old(self).position < old(self).ids@.len(),
        ensures
            final(self).wf(),
            final(self).ids == old(self).ids,
            final(self).position == old(self).position + 1,
            final(self).result.processed_ids == old(self).result.processed_ids + 1,
            final(self).result.already_cached == old(self).result.already_cached + (
            if outcome == IdOutcome::AlreadyCached {
                1int
            } else {
                0int
            }),
            final(self).result.downloaded == old(self).result.downloaded + (
            if outcome == IdOutcome::Downloaded {
                1int
            } else {
                0int
            }),
            final(self).result.hydrated_seeded == old(self).result.hydrated_seeded,
            final(self).result.idle_seconds == old(self).result.idle_seconds,
    {
        let n = self.ids.len();
        assert(self.position < n);
        self.position = self.position + 1;
        self.result.processed_ids = self.result.processed_ids + 1;
        match outcome {
            IdOutcome::AlreadyCached => {
                self.result.already_cached = self.result.already_cached + 1;
            },
            IdOutcome::Downloaded => {
                self.result.downloaded = self.result.downloaded + 1;
            },
            IdOutcome::NotDownloaded => {},
        }
    }
}

/// A tick asks the origin nothing unless prefetching is enabled and the idle
/// time has reached the threshold; when it runs, its batch holds at most the
/// configured batch size of ids, so it resolves at most that many through
/// the origin.
pub proof fn lemma_idle_gating(settings: PrefetchSettings, idle_seconds: u64, ids: Seq<i32>, a: Seq<i32>, b: Seq<i32>, c: Seq<i32>)
    requires
        settings.wf(),
    ensures
        (idle_seconds as int) < settings.idle_minutes * 60 ==> !(tick_spec(
            settings.enabled,
            settings.idle_minutes,
            settings.batch_size,
            idle_seconds,
        ) is Run),
        settings.enabled && (idle_seconds as int) >= settings.idle_minutes * 60 ==> tick_spec(
            settings.enabled,
            settings.idle_minutes,
            settings.batch_size,
            idle_seconds,
        ) == (TickDecision::Run { batch_size: settings.batch_size }),
        is_candidate_list(ids, a, b, c, settings.batch_size as int) ==> ids.len() <= settings.batch_size,
{
}

} // verus!
