use pictocache::activity::{elapsed_seconds, idle_seconds, idle_seconds_now, mark_activity, ActivityClock};
use pictocache::prefetch::{
    clamp_batch_size, clamp_idle_minutes, evaluate_tick, initial_settings, prefetch_candidates,
    prefetch_row_to_dto, record_run, required_idle_seconds, tick_interval_seconds,
    update_settings, scheduler_step, prefetch_outcome, IdOutcome, SchedulerAction, SchedulerEvent, SchedulerState, PictogramPrefetchRunResultDto, PrefetchRun, TickDecision,
};

#[test]
fn idle_gating_waits_for_the_threshold() {
    let s = initial_settings(true, 20, 10);
    assert_eq!(evaluate_tick(&s, 5 * 60), TickDecision::TooSoon);
    assert_eq!(evaluate_tick(&s, 21 * 60), TickDecision::Run { batch_size: 10 });
    let ids: Vec<i32> = (1..=15).collect();
    let batch = prefetch_candidates(&ids, &vec![], &vec![], 10);
    assert_eq!(batch.len(), 10);
    assert!(batch.len() <= 10);
}

#[test]
fn disabled_prefetch_never_runs() {
    let s = initial_settings(false, 1, 10);
    assert_eq!(evaluate_tick(&s, u64::MAX), TickDecision::Disabled);
}

#[test]
fn threshold_is_minutes_times_sixty() {
    assert_eq!(required_idle_seconds(20), 1200);
    assert_eq!(required_idle_seconds(0), 60);
    assert_eq!(required_idle_seconds(u64::MAX), u64::MAX);
    let s = initial_settings(true, 20, 10);
    assert_eq!(evaluate_tick(&s, 1199), TickDecision::TooSoon);
    assert_eq!(evaluate_tick(&s, 1200), TickDecision::Run { batch_size: 10 });
}

#[test]
fn settings_are_clamped() {
    assert_eq!(clamp_idle_minutes(0), 1);
    assert_eq!(clamp_idle_minutes(5000), 1440);
    assert_eq!(clamp_batch_size(0), 1);
    assert_eq!(clamp_batch_size(2001), 2000);
    assert_eq!(clamp_batch_size(50), 50);
    assert_eq!(tick_interval_seconds(5), 10);
    assert_eq!(tick_interval_seconds(60), 60);
}

#[test]
fn update_changes_only_given_values() {
    let mut s = initial_settings(false, 20, 50);
    update_settings(&mut s, Some(true), None, Some(9999));
    assert!(s.enabled);
    assert_eq!(s.idle_minutes, 20);
    assert_eq!(s.batch_size, 2000);
    update_settings(&mut s, None, Some(0), None);
    assert_eq!(s.idle_minutes, 1);
    assert!(s.enabled);
}

#[test]
fn run_result_is_recorded() {
    let mut s = initial_settings(true, 20, 50);
    let r = PictogramPrefetchRunResultDto { processed_ids: 3, downloaded: 1, already_cached: 2, hydrated_seeded: 0, idle_seconds: 99 };
    record_run(&mut s, "2026-01-01T00:00:00Z".to_string(), r);
    let dto = prefetch_row_to_dto(s, 7);
    assert_eq!(dto.last_result, Some(r));
    assert_eq!(dto.last_run_at.as_deref(), Some("2026-01-01T00:00:00Z"));
    assert_eq!(dto.idle_seconds, 7);
    assert_eq!(dto.batch_size, 50);
}

#[test]
fn candidates_are_deduplicated_ascending_and_capped() {
    let library = vec![30, 5, 5, 12];
    let saved = vec![12, 7];
    let cached = vec![1, 30, 44];
    assert_eq!(prefetch_candidates(&library, &saved, &cached, 100), vec![1, 5, 7, 12, 30, 44]);
    assert_eq!(prefetch_candidates(&library, &saved, &cached, 3), vec![1, 5, 7]);
    assert_eq!(prefetch_candidates(&library, &saved, &cached, 0), vec![1]);
    assert!(prefetch_candidates(&vec![], &vec![], &vec![], 10).is_empty());
}

#[test]
fn batch_counts_outcomes() {
    let mut run = PrefetchRun::new(vec![4, 8, 9], 2, 1500);
    let mut seen = vec![];
    let outcomes = [IdOutcome::AlreadyCached, IdOutcome::Downloaded, IdOutcome::NotDownloaded];
    let mut k = 0;
    while let Some(id) = run.next_id() {
        seen.push(id);
        run.record(outcomes[k]);
        k += 1;
    }
    assert_eq!(seen, vec![4, 8, 9]);
    assert_eq!(run.result, PictogramPrefetchRunResultDto { processed_ids: 3, downloaded: 1, already_cached: 1, hydrated_seeded: 2, idle_seconds: 1500 });
}

#[test]
fn elapsed_time_never_negative() {
    assert_eq!(elapsed_seconds(100, 160), 60);
    assert_eq!(elapsed_seconds(160, 100), 0);
}

#[test]
fn activity_clock_measures_idle_time() {
    let clock = ActivityClock::starting_at(1_000);
    assert_eq!(clock.idle_at(1_300), 300);
    clock.mark_at(1_250);
    assert_eq!(clock.last_activity(), 1_250);
    assert_eq!(clock.idle_at(1_300), 50);
    let live = ActivityClock::new();
    mark_activity(&live);
    assert!(idle_seconds(&live) < 5);
    assert!(live.last_activity() > 1_600_000_000);
}

#[test]
fn scheduler_runs_a_batch_after_idle_time() {
    let settings = initial_settings(true, 20, 10);
    let (s, a) = scheduler_step(SchedulerState::Idle, SchedulerEvent::Tick);
    assert_eq!((s, a), (SchedulerState::Evaluating, SchedulerAction::LoadSettings));
    let (s, a) = scheduler_step(s, SchedulerEvent::SettingsLoaded { settings: settings.clone(), idle_seconds: 300 });
    assert_eq!((s, a), (SchedulerState::Idle, SchedulerAction::Wait));
    let (s, _) = scheduler_step(s, SchedulerEvent::Tick);
    let (s, a) = scheduler_step(s, SchedulerEvent::SettingsLoaded { settings, idle_seconds: 21 * 60 });
    assert_eq!(a, SchedulerAction::RunBatch { batch_size: 10 });
    assert_eq!(s, SchedulerState::Running { batch_size: 10 });
    let (s2, a2) = scheduler_step(s, SchedulerEvent::Tick);
    assert_eq!((s2, a2), (s, SchedulerAction::Wait));
    let (s3, a3) = scheduler_step(s, SchedulerEvent::BatchFinished);
    assert_eq!((s3, a3), (SchedulerState::Idle, SchedulerAction::Wait));
}

#[test]
fn scheduler_skips_tick_without_settings() {
    let (s, a) = scheduler_step(SchedulerState::Evaluating, SchedulerEvent::SettingsUnavailable);
    assert_eq!((s, a), (SchedulerState::Idle, SchedulerAction::Wait));
}

#[test]
fn idle_time_never_exceeds_now() {
    let clock = ActivityClock::starting_at(u64::MAX);
    let (idle, now) = idle_seconds_now(&clock);
    assert_eq!(idle, 0);
    assert!(idle <= now);
    assert_eq!(clock.idle_at(10), 0);
}

#[test]
fn prefetch_outcomes() {
    assert_eq!(prefetch_outcome(true, None), IdOutcome::AlreadyCached);
    assert_eq!(prefetch_outcome(false, Some(true)), IdOutcome::Downloaded);
    assert_eq!(prefetch_outcome(false, Some(false)), IdOutcome::NotDownloaded);
    assert_eq!(prefetch_outcome(false, None), IdOutcome::NotDownloaded);
}
