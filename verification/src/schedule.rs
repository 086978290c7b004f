//! The session scheduler: the plan of a full pomodoro run.
//!
//! A run of `n` iterations is a fixed sequence of steps: for each iteration a
//! work phase, an alert, a break phase, an alert, and an iteration-complete
//! announcement, closed by one run-complete announcement. `plan_run` produces
//! that sequence; the caller performs each step in order (announce, wait out
//! the phase while the progress bar redraws, sound the alert).

use vstd::prelude::*;

use crate::config::Config;

verus! {

#[derive(Clone, Copy, Debug, PartialEq, Eq, Structural)]
pub enum PhaseKind {
    Work,
    Break,
}

/// One step of a run, in the order the scheduler performs them.
///
/// `PhaseStart` asks the caller to announce the phase, start the progress
/// renderer and wait the phase's minutes out; `PhaseComplete` announces the
/// elapsed phase; `Alert` sounds the audible cue, strictly after the phase's
/// wait and before anything of the next phase.
#[derive(Clone, Copy, Debug, PartialEq, Eq, Structural)]
pub enum Step {
    PhaseStart { kind: PhaseKind, index: u32, total: u32, minutes: u32 },
    PhaseComplete { kind: PhaseKind },
    Alert,
    IterationComplete { index: u32, total: u32 },
    RunComplete,
}

/// The seven steps of iteration `i` of `n`: work phase, alert, break phase,
/// alert, iteration announcement.
pub open spec fn iteration_steps(w: u32, b: u32, i: u32, n: u32) -> Seq<Step> {
    seq![
        Step::PhaseStart { kind: PhaseKind::Work, index: i, total: n, minutes: w },
        Step::PhaseComplete { kind: PhaseKind::Work },
        Step::Alert,
        Step::PhaseStart { kind: PhaseKind::Break, index: i, total: n, minutes: b },
        Step::PhaseComplete { kind: PhaseKind::Break },
        Step::Alert,
        Step::IterationComplete { index: i, total: n },
    ]
}

/// The steps of the first `k` iterations of a run of `n`.
pub open spec fn plan_prefix(w: u32, b: u32, n: u32, k: nat) -> Seq<Step>
    recommends
        k <= n,
    decreases k,
{
    if k == 0 {
        Seq::empty()
    } else {
        plan_prefix(w, b, n, (k - 1) as nat) + iteration_steps(w, b, k as u32, n)
    }
}

/// The full plan of a run: all `n` iterations, then the final announcement.
pub open spec fn run_plan(w: u32, b: u32, n: u32) -> Seq<Step> {
    plan_prefix(w, b, n, n as nat) + seq![Step::RunComplete]
}

pub open spec fn is_phase_start(st: Step, kind: PhaseKind) -> bool {
    match st {
        Step::PhaseStart { kind: k, .. } => k == kind,
        _ => false,
    }
}

pub open spec fn is_alert(st: Step) -> bool {
    st is Alert
}

/// How many steps of a sequence satisfy a predicate.
pub open spec fn count_matching(s: Seq<Step>, pred: spec_fn(Step) -> bool) -> nat
    decreases s.len(),
{
    if s.len() == 0 {
        0
    } else {
        count_matching(s.drop_last(), pred) + (if pred(s.last()) {
            1nat
        } else {
            0nat
        })
    }
}

pub open spec fn count_work_starts(s: Seq<Step>) -> nat {
    count_matching(s, |st: Step| is_phase_start(st, PhaseKind::Work))
}

pub open spec fn count_break_starts(s: Seq<Step>) -> nat {
    count_matching(s, |st: Step| is_phase_start(st, PhaseKind::Break))
}

pub open spec fn count_alerts(s: Seq<Step>) -> nat {
    count_matching(s, |st: Step| is_alert(st))
}

/// The phase starts of a plan, in order, each with its iteration index.
pub open spec fn phase_start_list(s: Seq<Step>) -> Seq<(PhaseKind, u32)>
    decreases s.len(),
{
    if s.len() == 0 {
        Seq::empty()
    } else {
        phase_start_list(s.drop_last()) + (match s.last() {
            Step::PhaseStart { kind, index, .. } => seq![(kind, index)],
            _ => Seq::<(PhaseKind, u32)>::empty(),
        })
    }
}

/// The alternating order a run must follow: work then break, for each
/// iteration index in turn.
pub open spec fn alternating_starts(n: nat) -> Seq<(PhaseKind, u32)>
    recommends
        n <= u32::MAX,
    decreases n,
{
    if n == 0 {
        Seq::empty()
    } else {
        alternating_starts((n - 1) as nat) + seq![
            (PhaseKind::Work, n as u32),
            (PhaseKind::Break, n as u32),
        ]
    }
}

proof fn lemma_count_matching_add(s1: Seq<Step>, s2: Seq<Step>, pred: spec_fn(Step) -> bool)
    ensures
        count_matching(s1 + s2, pred) == count_matching(s1, pred) + count_matching(s2, pred),
    decreases s2.len(),
{
    if s2.len() == 0 {
        assert(s1 + s2 =~= s1);
    } else {
        assert((s1 + s2).drop_last() =~= s1 + s2.drop_last());
        assert((s1 + s2).last() == s2.last());
        lemma_count_matching_add(s1, s2.drop_last(), pred);
    }
}

proof fn lemma_phase_start_list_add(s1: Seq<Step>, s2: Seq<Step>)
    ensures
        phase_start_list(s1 + s2) =~= phase_start_list(s1) + phase_start_list(s2),
    decreases s2.len(),
{
    if s2.len() == 0 {
        assert(s1 + s2 =~= s1);
    } else {
        assert((s1 + s2).drop_last() =~= s1 + s2.drop_last());
        assert((s1 + s2).last() == s2.last());
        lemma_phase_start_list_add(s1, s2.drop_last());
    }
}

proof fn lemma_iteration_steps_counts(w: u32, b: u32, i: u32, n: u32)
    ensures
        count_work_starts(iteration_steps(w, b, i, n)) == 1,
        count_break_starts(iteration_steps(w, b, i, n)) == 1,
        count_alerts(iteration_steps(w, b, i, n)) == 2,
        phase_start_list(iteration_steps(w, b, i, n)) =~= seq![
            (PhaseKind::Work, i),
            (PhaseKind::Break, i),
        ],
{
    reveal_with_fuel(count_matching, 8);
    reveal_with_fuel(phase_start_list, 8);
    let s = iteration_steps(w, b, i, n);
    assert(s.drop_last() =~= s.take(6));
    assert(s.take(6).drop_last() =~= s.take(5));
    assert(s.take(5).drop_last() =~= s.take(4));
    assert(s.take(4).drop_last() =~= s.take(3));
    assert(s.take(3).drop_last() =~= s.take(2));
    assert(s.take(2).drop_last() =~= s.take(1));
    assert(s.take(1).drop_last() =~= s.take(0));
    assert(s.take(0).len() == 0);
}

proof fn lemma_plan_prefix_counts(w: u32, b: u32, n: u32, k: nat)
    requires
        k <= n,
    ensures
        count_work_starts(plan_prefix(w, b, n, k)) == k,
        count_break_starts(plan_prefix(w, b, n, k)) == k,
        count_alerts(plan_prefix(w, b, n, k)) == 2 * k,
        phase_start_list(plan_prefix(w, b, n, k)) =~= alternating_starts(k),
    decreases k,
{
    if k == 0 {
    } else {
        let prev = plan_prefix(w, b, n, (k - 1) as nat);
        let it = iteration_steps(w, b, k as u32, n);
        lemma_plan_prefix_counts(w, b, n, (k - 1) as nat);
        lemma_iteration_steps_counts(w, b, k as u32, n);
        lemma_count_matching_add(prev, it, |st: Step| is_phase_start(st, PhaseKind::Work));
        lemma_count_matching_add(prev, it, |st: Step| is_phase_start(st, PhaseKind::Break));
        lemma_count_matching_add(prev, it, |st: Step| is_alert(st));
        lemma_phase_start_list_add(prev, it);
    }
}

/// A full run of `n` iterations starts exactly `n` work phases and `n` break
/// phases, and sounds exactly `2 * n` alerts.
pub proof fn lemma_run_counts(w: u32, b: u32, n: u32)
    ensures
        count_work_starts(run_plan(w, b, n)) == n,
        count_break_starts(run_plan(w, b, n)) == n,
        count_alerts(run_plan(w, b, n)) == 2 * n,
{
    reveal_with_fuel(count_matching, 2);
    let prefix = plan_prefix(w, b, n, n as nat);
    let last = seq![Step::RunComplete];
    lemma_plan_prefix_counts(w, b, n, n as nat);
    assert(last.drop_last() =~= Seq::<Step>::empty());
    lemma_count_matching_add(prefix, last, |st: Step| is_phase_start(st, PhaseKind::Work));
    lemma_count_matching_add(prefix, last, |st: Step| is_phase_start(st, PhaseKind::Break));
    lemma_count_matching_add(prefix, last, |st: Step| is_alert(st));
}

/// The phases of a full run alternate, work first: the phase starts of the
/// plan are exactly work then break for iteration 1, then for iteration 2,
/// and so on up to `n`.
pub proof fn lemma_run_alternates(w: u32, b: u32, n: u32)
    ensures
        phase_start_list(run_plan(w, b, n)) =~= alternating_starts(n as nat),
{
    reveal_with_fuel(phase_start_list, 2);
    let prefix = plan_prefix(w, b, n, n as nat);
    let last = seq![Step::RunComplete];
    lemma_plan_prefix_counts(w, b, n, n as nat);
    assert(last.drop_last() =~= Seq::<Step>::empty());
    lemma_phase_start_list_add(prefix, last);
}

/// A run of zero iterations performs no phase and sounds no alert: its plan
/// is the final announcement alone.
pub proof fn lemma_zero_iterations(w: u32, b: u32)
    ensures
        run_plan(w, b, 0) =~= seq![Step::RunComplete],
        count_work_starts(run_plan(w, b, 0)) == 0,
        count_break_starts(run_plan(w, b, 0)) == 0,
        count_alerts(run_plan(w, b, 0)) == 0,
{
    lemma_run_counts(w, b, 0);
    assert(plan_prefix(w, b, 0, 0) =~= Seq::<Step>::empty());
    assert(Seq::<Step>::empty() + seq![Step::RunComplete] =~= seq![Step::RunComplete]);
}

/// Lay out the full plan of the configured run.
pub fn plan_run(config: &Config) -> (steps: Vec<Step>)
    ensures
        steps@ == run_plan(config.spec_work(), config.spec_break(), config.spec_iterations()),
{
    let w = config.get_work_session_duration();
    let b = config.get_break_session_duration();
    let n = config.get_number_of_pomodoro_iterations();
    let mut steps: Vec<Step> = Vec::new();
    let mut i: u32 = 0;
    while i < n
        invariant
            i <= n,
            steps@ =~= plan_prefix(w, b, n, i as nat),
        decreases n - i,
    {
        i = i + 1;
        steps.push(Step::PhaseStart { kind: PhaseKind::Work, index: i, total: n, minutes: w });
        steps.push(Step::PhaseComplete { kind: PhaseKind::Work });
        steps.push(Step::Alert);
        steps.push(Step::PhaseStart { kind: PhaseKind::Break, index: i, total: n, minutes: b });
        steps.push(Step::PhaseComplete { kind: PhaseKind::Break });
        steps.push(Step::Alert);
        steps.push(Step::IterationComplete { index: i, total: n });
        proof {
            assert(steps@ =~= plan_prefix(w, b, n, (i - 1) as nat) + iteration_steps(w, b, i, n));
        }
    }
    steps.push(Step::RunComplete);
    steps
}

/// Seconds of a phase of the given minutes.
pub fn phase_seconds(minutes: u32) -> (s: u64)
    ensures
        s == minutes * 60,
{
    minutes as u64 * 60
}

} // verus!
