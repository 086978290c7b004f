use pomodoro::config::Config;
use pomodoro::schedule::{phase_seconds, plan_run, PhaseKind, Step};

fn alerts_in(plan: &[Step]) -> usize {
    plan.iter().filter(|s| matches!(s, Step::Alert)).count()
}

fn starts_in(plan: &[Step]) -> Vec<(PhaseKind, u32)> {
    plan.iter()
        .filter_map(|s| match s {
            Step::PhaseStart { kind, index, .. } => Some((*kind, *index)),
            _ => None,
        })
        .collect()
}

#[test]
fn two_iteration_run_follows_the_full_plan() {
    let config = Config::build("25", "5", "2").unwrap();
    let plan = plan_run(&config);
    let expected = vec![
        Step::PhaseStart { kind: PhaseKind::Work, index: 1, total: 2, minutes: 25 },
        Step::PhaseComplete { kind: PhaseKind::Work },
        Step::Alert,
        Step::PhaseStart { kind: PhaseKind::Break, index: 1, total: 2, minutes: 5 },
        Step::PhaseComplete { kind: PhaseKind::Break },
        Step::Alert,
        Step::IterationComplete { index: 1, total: 2 },
        Step::PhaseStart { kind: PhaseKind::Work, index: 2, total: 2, minutes: 25 },
        Step::PhaseComplete { kind: PhaseKind::Work },
        Step::Alert,
        Step::PhaseStart { kind: PhaseKind::Break, index: 2, total: 2, minutes: 5 },
        Step::PhaseComplete { kind: PhaseKind::Break },
        Step::Alert,
        Step::IterationComplete { index: 2, total: 2 },
        Step::RunComplete,
    ];
    assert_eq!(plan, expected);
    assert_eq!(alerts_in(&plan), 4);
    let completes = plan
        .iter()
        .filter(|s| matches!(s, Step::IterationComplete { .. }))
        .count();
    assert_eq!(completes, 2);
}

#[test]
fn zero_iterations_only_announce_completion() {
    let config = Config::build("25", "5", "0").unwrap();
    let plan = plan_run(&config);
    assert_eq!(plan, vec![Step::RunComplete]);
    assert_eq!(alerts_in(&plan), 0);
    assert!(starts_in(&plan).is_empty());
}

#[test]
fn phases_alternate_work_first() {
    let config = Config::build("10", "2", "3").unwrap();
    let plan = plan_run(&config);
    assert_eq!(
        starts_in(&plan),
        vec![
            (PhaseKind::Work, 1),
            (PhaseKind::Break, 1),
            (PhaseKind::Work, 2),
            (PhaseKind::Break, 2),
            (PhaseKind::Work, 3),
            (PhaseKind::Break, 3),
        ]
    );
}

#[test]
fn alert_count_is_twice_the_iteration_count() {
    for n in 0..6u32 {
        let config = Config::build("1", "1", &n.to_string()).unwrap();
        let plan = plan_run(&config);
        assert_eq!(alerts_in(&plan), 2 * n as usize);
    }
}

#[test]
fn run_ends_with_the_final_announcement() {
    let config = Config::build("25", "5", "4").unwrap();
    let plan = plan_run(&config);
    assert_eq!(plan.last(), Some(&Step::RunComplete));
    assert_eq!(plan.len(), 4 * 7 + 1);
}

#[test]
fn phase_seconds_converts_minutes() {
    assert_eq!(phase_seconds(25), 1500);
    assert_eq!(phase_seconds(0), 0);
    assert_eq!(phase_seconds(u32::MAX), u32::MAX as u64 * 60);
}
