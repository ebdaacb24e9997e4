use file_lock_inspector::monitor::engine::{engine_step, EngineInput};
use file_lock_inspector::monitor::scheduler::SchedulerState;
use file_lock_inspector::monitor::{MonitorCmd, ScanEvent};
use file_lock_inspector::state::target::{TargetId, TargetKind};

fn make_id(n: u64) -> TargetId {
    TargetId(n)
}

fn make_path(s: &str) -> String {
    s.to_string()
}

#[test]
fn add_target_registers_path() {
    let mut sched = SchedulerState::new(2000, 0);
    let id = make_id(1);
    let tasks = sched.apply(MonitorCmd::AddTarget { id, path: make_path("/tmp/a.txt"), kind: TargetKind::File });
    assert!(tasks.is_empty());
    assert!(sched.targets.contains_key(&id.0));
}

#[test]
fn remove_target_clears_entry_and_inflight() {
    let mut sched = SchedulerState::new(2000, 0);
    let id = make_id(1);
    sched.apply(MonitorCmd::AddTarget { id, path: make_path("/tmp/a.txt"), kind: TargetKind::File });
    sched.in_flight.insert(id.0);
    sched.apply(MonitorCmd::RemoveTarget(id));
    assert!(!sched.targets.contains_key(&id.0));
    assert!(!sched.in_flight.contains(&id.0));
}

#[test]
fn set_interval_updates_duration() {
    let mut sched = SchedulerState::new(2000, 0);
    sched.apply(MonitorCmd::SetInterval(5000));
    assert_eq!(sched.interval, 5000);
}

#[test]
fn trigger_immediate_dispatches_task() {
    let mut sched = SchedulerState::new(60_000, 0);
    let id = make_id(42);
    sched.apply(MonitorCmd::AddTarget { id, path: make_path("/x/y.txt"), kind: TargetKind::File });
    let tasks = sched.apply(MonitorCmd::TriggerImmediate(id));
    assert_eq!(tasks.len(), 1);
    assert_eq!(tasks[0].id, id);
    assert!(sched.in_flight.contains(&id.0));
}

#[test]
fn trigger_immediate_skips_if_already_in_flight() {
    let mut sched = SchedulerState::new(60_000, 0);
    let id = make_id(1);
    sched.apply(MonitorCmd::AddTarget { id, path: make_path("/a"), kind: TargetKind::File });
    sched.in_flight.insert(id.0);
    let tasks = sched.apply(MonitorCmd::TriggerImmediate(id));
    assert!(tasks.is_empty());
}

#[test]
fn on_tick_does_nothing_before_interval() {
    let mut sched = SchedulerState::new(60_000, 0);
    let id = make_id(1);
    sched.apply(MonitorCmd::AddTarget { id, path: make_path("/a"), kind: TargetKind::File });
    let tasks = sched.on_tick(sched.last_tick);
    assert!(tasks.is_empty());
}

#[test]
fn on_tick_dispatches_after_interval() {
    let mut sched = SchedulerState::new(100, 0);
    let id = make_id(1);
    sched.apply(MonitorCmd::AddTarget { id, path: make_path("/a"), kind: TargetKind::File });
    let future = sched.last_tick + 200;
    let tasks = sched.on_tick(future);
    assert_eq!(tasks.len(), 1);
    assert!(sched.in_flight.contains(&id.0));
}

#[test]
fn on_tick_skips_empty_targets() {
    let mut sched = SchedulerState::new(1, 0);
    let future = sched.last_tick + 10_000;
    let tasks = sched.on_tick(future);
    assert!(tasks.is_empty());
}

#[test]
fn on_scan_done_removes_from_inflight() {
    let mut sched = SchedulerState::new(2000, 0);
    let id = make_id(7);
    sched.in_flight.insert(id.0);
    sched.on_scan_done(id);
    assert!(!sched.in_flight.contains(&id.0));
}

#[test]
fn polling_frequency_matches_the_interval() {
    for interval in [1000u64, 2000, 5000, 10000] {
        for n_targets in 1..=4u64 {
            for multiplier in [3u64, 5, 8] {
                let mut sched = SchedulerState::new(interval, 0);
                for i in 0..n_targets {
                    sched.apply(MonitorCmd::AddTarget {
                        id: TargetId(i + 1),
                        path: format!("C:/x{}", i),
                        kind: TargetKind::File,
                    });
                }
                let total = interval * multiplier;
                let mut counts = vec![0u64; n_targets as usize];
                let step = interval / 4;
                let mut now = 0u64;
                while now < total {
                    let tasks = sched.on_tick(now);
                    for t in tasks {
                        counts[(t.id.0 - 1) as usize] += 1;
                        sched.on_scan_done(t.id);
                    }
                    now += step;
                }
                for c in counts {
                    let diff = (c as i64 - multiplier as i64).abs();
                    assert!(diff <= 1, "expected ~{} ticks, got {}", multiplier, c);
                }
            }
        }
    }
}

#[test]
fn no_concurrent_scan_for_same_target() {
    let mut sched = SchedulerState::new(300, 0);
    let id = TargetId(1);
    sched.apply(MonitorCmd::AddTarget { id, path: "C:/x".into(), kind: TargetKind::File });
    let mut now = sched.last_tick;
    let mut dispatched = 0;
    for _ in 0..20 {
        now += 300;
        let tasks = sched.on_tick(now);
        dispatched += tasks.len();
        for t in &tasks {
            assert!(sched.in_flight.contains(&t.id.0));
        }
    }
    assert_eq!(dispatched, 1);
    assert!(sched.in_flight.len() <= 1);
}

#[test]
fn tasks_come_in_increasing_id_order_and_skip_busy_targets() {
    let mut sched = SchedulerState::new(10, 0);
    for n in [5u64, 2, 9, 7] {
        sched.apply(MonitorCmd::AddTarget { id: TargetId(n), path: format!("p{}", n), kind: TargetKind::Directory });
    }
    sched.in_flight.insert(7);
    let tasks = sched.on_tick(10);
    let ids: Vec<u64> = tasks.iter().map(|t| t.id.0).collect();
    assert_eq!(ids, vec![2, 5, 9]);
    assert_eq!(tasks[1].path, "p5");
    assert_eq!(sched.last_tick, 10);
    assert_eq!(sched.in_flight.len(), 4);
    assert!(sched.on_tick(19).is_empty());
    assert_eq!(sched.last_tick, 10);
}

#[test]
fn set_interval_does_not_disrupt_in_flight() {
    for old_ms in [1000u64, 2000, 5000] {
        for new_ms in [1000u32, 2000, 5000, 10000] {
            let mut sched = SchedulerState::new(old_ms, 0);
            let id = TargetId(1);
            sched.apply(MonitorCmd::AddTarget { id, path: "C:/x".into(), kind: TargetKind::File });
            let tasks = sched.on_tick(old_ms);
            assert_eq!(tasks.len(), 1);
            assert!(sched.in_flight.contains(&id.0));
            sched.apply(MonitorCmd::SetInterval(new_ms));
            assert!(sched.in_flight.contains(&id.0), "in_flight must survive SetInterval");
            assert_eq!(sched.interval, new_ms as u64);
        }
    }
}

#[test]
fn engine_step_announces_and_reports() {
    let mut sched = SchedulerState::new(100, 0);
    let id = TargetId(3);
    let out = engine_step(&mut sched, EngineInput::Command(MonitorCmd::AddTarget { id, path: "C:/f".into(), kind: TargetKind::File }));
    assert!(!out.stop && out.tasks.is_empty() && out.events.is_empty());
    let out = engine_step(&mut sched, EngineInput::Tick(100));
    assert_eq!(out.tasks.len(), 1);
    assert!(matches!(out.events[0], ScanEvent::Started(TargetId(3))));
    let out = engine_step(&mut sched, EngineInput::ScanFinished(id, Ok(Vec::new())));
    assert!(matches!(&out.events[0], ScanEvent::Completed(TargetId(3), recs) if recs.is_empty()));
    assert!(!sched.in_flight.contains(&3));
    let out = engine_step(&mut sched, EngineInput::Command(MonitorCmd::Shutdown));
    assert!(out.stop);
    let out = engine_step(&mut sched, EngineInput::Disconnected);
    assert!(out.stop);
}

#[test]
fn polling_hands_out_a_target_once_per_interval() {
    let mut sched = SchedulerState::new(1000, 0);
    sched.apply(MonitorCmd::AddTarget { id: TargetId(1), path: "C:/x".into(), kind: TargetKind::File });
    let mut handed_at = Vec::new();
    for k in 0..16u64 {
        let now = k * 250;
        for t in sched.on_tick(now) {
            handed_at.push(now);
            sched.on_scan_done(t.id);
        }
    }
    assert_eq!(handed_at, vec![1000, 2000, 3000]);
}
