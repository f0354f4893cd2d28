//! The orchestration loop: every prompt, in order, once per loop pass.
//!
//! The loop is written as a state machine. `next_run` says which run comes
//! next and with which header; the driver performs the run and hands the
//! outcome back through `record`. `orchestrate` is the driver for a runner
//! that is an ordinary function.

use crate::header::{copy_lines, task_header, task_header_lines};
use crate::scroll::line_views;
use crate::text::{decimal, push_decimal, truncates_cleanly, MAX_CURRENT_TASK_LEN};
use vstd::prelude::*;

verus! {

/// One finished run: loop index, task index, and whether it succeeded.
pub type RunResult = (usize, usize, bool);

/// What the orchestrator holds.
pub struct OrchestratorView {
    pub prompts: Seq<Seq<char>>,
    pub loops: usize,
    pub results: Seq<RunResult>,
}

/// Every prompt can be shortened for the header without cutting a character
/// in two.
pub open spec fn prompts_fit_header(prompts: Seq<Seq<char>>) -> bool {
    forall|i: int|
        0 <= i < prompts.len() ==> truncates_cleanly(#[trigger] prompts[i], MAX_CURRENT_TASK_LEN)
}

/// What can be run to the end: the number of runs fits the machine word,
/// and every prompt that gets a run fits the header. With zero loops no
/// prompt gets one.
pub open spec fn orchestrable(prompts: Seq<Seq<char>>, loops: usize) -> bool {
    prompts.len() * loops <= usize::MAX && (loops > 0 ==> prompts_fit_header(prompts))
}

/// The results stand in run order: entry `k` belongs to loop `k / n` and
/// task `k % n`, for `n` prompts.
pub open spec fn in_run_order(results: Seq<RunResult>, n: int) -> bool {
    forall|k: int|
        0 <= k < results.len() ==> (#[trigger] results[k]).0 == k / n && results[k].1 == k % n
}

/// A launcher's report counts as success only where it is `Ok(true)`: a
/// failed run and a launcher that could not start are both failures.
pub open spec fn succeeded<E>(outcome: Result<bool, E>) -> bool {
    outcome == Ok::<bool, E>(true)
}

/// `[Run i/total] Result: OK` or `... FAILED`, followed by a line feed.
pub open spec fn result_line(run_idx: usize, total_runs: usize, success: bool) -> Seq<char> {
    "[Run "@ + decimal(run_idx as nat) + "/"@ + decimal(total_runs as nat) + "] Result: "@ + (
    if success {
        "OK"@
    } else {
        "FAILED"@
    }) + "\n"@
}

/// `Error launching codex: ` and the error.
pub open spec fn launch_error_message(detail: Seq<char>) -> Seq<char> {
    "Error launching codex: "@ + detail
}

/// The line that reports a launcher that could not start the run.
pub fn launch_error_line(detail: &str) -> (line: String)
    ensures
        line@ == launch_error_message(detail@),
{
    let mut line = String::from_str("Error launching codex: ");
    line.append(detail);
    line
}

/// The line that closes the orchestration.
pub fn completion_line() -> (line: &'static str)
    ensures
        line@ == "=== All loops completed ==="@,
{
    "=== All loops completed ==="
}

/// The next run to perform.
pub struct RunPlan {
    /// The run's number, counted from one.
    pub run_idx: usize,
    pub total_runs: usize,
    pub loop_idx: usize,
    pub task_idx: usize,
    pub prompt: String,
    pub header: Vec<String>,
}

/// The state of one orchestration: the prompts, the loop count, and the
/// results of the runs performed so far.
pub struct Orchestrator {
    prompts: Vec<String>,
    loops: usize,
    results: Vec<RunResult>,
}

impl View for Orchestrator {
    type V = OrchestratorView;

    closed spec fn view(&self) -> OrchestratorView {
        OrchestratorView {
            prompts: line_views(self.prompts@),
            loops: self.loops,
            results: self.results@,
        }
    }
}

/// Whether a launcher's report counts as success.
pub fn run_succeeded<E>(outcome: &Result<bool, E>) -> (success: bool)
    ensures
        success == succeeded(*outcome),
{
    match outcome {
        Ok(success) => *success,
        Err(_) => false,
    }
}

/// Whether `prompts` can be run to the end `loops` times over.
pub fn can_orchestrate(prompts: &[String], loops: usize) -> (ok: bool)
    ensures
        ok == orchestrable(line_views(prompts@), loops),
{
    let n = prompts.len();
    if loops == 0 {
        proof {
            assert(n * loops == 0) by (nonlinear_arith)
                requires
                    loops == 0,
            ;
        }
        return true;
    }
    if n > usize::MAX / loops {
        proof {
            assert(n * loops > usize::MAX) by (nonlinear_arith)
                requires
                    loops > 0,
                    n > usize::MAX / loops,
            ;
        }
        return false;
    }
    proof {
        assert(n * loops <= usize::MAX) by (nonlinear_arith)
            requires
                loops > 0,
                n <= usize::MAX / loops,
        ;
    }
    let mut i: usize = 0;
    while i < n
        invariant
            i <= n,
            n == prompts@.len(),
            loops > 0,
            forall|j: int|
                0 <= j < i ==> truncates_cleanly(
                    #[trigger] line_views(prompts@)[j],
                    MAX_CURRENT_TASK_LEN,
                ),
        decreases n - i,
    {
        if !crate::text::can_truncate(prompts[i].as_str(), MAX_CURRENT_TASK_LEN) {
            proof {
                assert(!truncates_cleanly(line_views(prompts@)[i as int], MAX_CURRENT_TASK_LEN));
            }
            return false;
        }
        i += 1;
    }
    true
}

impl Orchestrator {
    /// How many runs the orchestration has in all.
    pub open spec fn total(&self) -> int {
        self@.prompts.len() * self@.loops
    }

    /// The invariant of the orchestrator: the number of runs fits the
    /// machine word, no more runs are recorded than there are, and the
    /// results stand in run order.
    pub open spec fn wf(&self) -> bool {
        &&& self.total() <= usize::MAX
        &&& self@.results.len() <= self.total()
        &&& in_run_order(self@.results, self@.prompts.len() as int)
    }

    /// The prompt of the run that comes next, if one does, can be shortened
    /// for the header. Nothing is asked of the prompts of later runs.
    pub open spec fn next_fits(&self) -> bool {
        self@.results.len() < self.total() ==> truncates_cleanly(
            self@.prompts[self@.results.len() as int % self@.prompts.len() as int],
            MAX_CURRENT_TASK_LEN,
        )
    }

    /// An orchestration of `prompts`, `loops` times over, with no run
    /// performed yet.
    pub fn new(prompts: Vec<String>, loops: usize) -> (orchestrator: Self)
        requires
            prompts@.len() * loops <= usize::MAX,
        ensures
            orchestrator.wf(),
            orchestrator@.prompts == line_views(prompts@),
            orchestrator@.loops == loops,
            orchestrator@.results == Seq::<RunResult>::empty(),
    {
        let orchestrator = Orchestrator { prompts, loops, results: Vec::new() };
        proof {
            assert(orchestrator.total() >= 0) by (nonlinear_arith)
                requires
                    orchestrator.total() == orchestrator@.prompts.len() * orchestrator@.loops,
            ;
        }
        orchestrator
    }

    /// How many runs there are in all: prompts times loops.
    pub fn total_runs(&self) -> (total: usize)
        requires
            self.wf(),
        ensures
            total == self.total(),
    {
        self.prompts.len() * self.loops
    }

    /// How many runs have been recorded.
    pub fn completed(&self) -> (done: usize)
        ensures
            done == self@.results.len(),
    {
        self.results.len()
    }

    /// Whether every run has been recorded.
    pub fn is_finished(&self) -> (finished: bool)
        requires
            self.wf(),
        ensures
            finished == (self@.results.len() == self.total()),
    {
        self.results.len() == self.total_runs()
    }

    /// Whether the header of the run that comes next can be built.
    pub fn can_plan_next(&self) -> (ok: bool)
        requires
            self.wf(),
        ensures
            ok == self.next_fits(),
    {
        let n = self.prompts.len();
        let k = self.results.len();
        if k == self.total_runs() {
            return true;
        }
        proof {
            lemma_position_in_bounds(k as int, n as int, self.loops as int);
            assert(line_views(self.prompts@)[k as int % n as int] == self.prompts@[k as int % n as int]@);
        }
        crate::text::can_truncate(self.prompts[k % n].as_str(), MAX_CURRENT_TASK_LEN)
    }

    /// The run that comes next, or nothing once all are recorded: run
    /// number `k` (from zero) is task `k % n` of loop `k / n`, whatever the
    /// earlier runs reported.
    pub fn next_run(&self) -> (plan: Option<RunPlan>)
        requires
            self.wf(),
            self.next_fits(),
        ensures
            plan is None <==> self@.results.len() == self.total(),
            plan matches Some(p) ==> {
                let k = self@.results.len() as int;
                let n = self@.prompts.len() as int;
                &&& n > 0
                &&& p.run_idx == k + 1
                &&& p.total_runs == self.total()
                &&& p.loop_idx == k / n
                &&& p.task_idx == k % n
                &&& p.loop_idx < self@.loops
                &&& p.prompt@ == self@.prompts[k % n]
                &&& line_views(p.header@) == task_header(
                    p.run_idx,
                    p.total_runs,
                    p.loop_idx,
                    self@.loops,
                    p.task_idx,
                    self@.prompts.len() as usize,
                    p.prompt@,
                )
            },
    {
        let n = self.prompts.len();
        let total = self.total_runs();
        let k = self.results.len();
        if k == total {
            return None;
        }
        proof {
            lemma_position_in_bounds(k as int, n as int, self.loops as int);
        }
        let loop_idx = k / n;
        let task_idx = k % n;
        let prompt = self.prompts[task_idx].clone();
        proof {
            assert(line_views(self.prompts@)[task_idx as int] == self.prompts@[task_idx as int]@);
        }
        let header = task_header_lines(
            k + 1,
            total,
            loop_idx,
            self.loops,
            task_idx,
            n,
            prompt.as_str(),
        );
        Some(RunPlan { run_idx: k + 1, total_runs: total, loop_idx, task_idx, prompt, header })
    }

    /// Records how the run that `next_run` named has ended, and returns the
    /// line that reports it. The orchestration moves on by one run whether
    /// the run succeeded or not.
    pub fn record(&mut self, success: bool) -> (line: String)
        requires
            old(self).wf(),
            old(self)@.results.len() < old(self).total(),
        ensures
            final(self).wf(),
            final(self)@.prompts == old(self)@.prompts,
            final(self)@.loops == old(self)@.loops,
            final(self)@.results == old(self)@.results.push(
                (
                    (old(self)@.results.len() as int / old(self)@.prompts.len() as int) as usize,
                    (old(self)@.results.len() as int % old(self)@.prompts.len() as int) as usize,
                    success,
                ),
            ),
            line@ == result_line(
                (old(self)@.results.len() + 1) as usize,
                old(self).total() as usize,
                success,
            ),
    {
        let n = self.prompts.len();
        let total = self.total_runs();
        let k = self.results.len();
        proof {
            lemma_position_in_bounds(k as int, n as int, self.loops as int);
        }
        let loop_idx = k / n;
        let task_idx = k % n;
        self.results.push((loop_idx, task_idx, success));
        let mut line = String::from_str("[Run ");
        push_decimal(&mut line, k + 1);
        line.append("/");
        push_decimal(&mut line, total);
        line.append("] Result: ");
        if success {
            line.append("OK");
        } else {
            line.append("FAILED");
        }
        line.append("\n");
        proof {
            assert(line@ =~= result_line((k + 1) as usize, total, success));
        }
        line
    }

    /// The results recorded so far, in run order.
    pub fn results(&self) -> (results: &Vec<RunResult>)
        ensures
            results@ == self@.results,
    {
        &self.results
    }

    /// Gives up the orchestrator for its results.
    pub fn into_results(self) -> (results: Vec<RunResult>)
        ensures
            results@ == self@.results,
    {
        self.results
    }
}

/// Run number `k` of `n * loops` falls on an existing loop and task.
pub proof fn lemma_position_in_bounds(k: int, n: int, loops: int)
    requires
        0 <= k < n * loops,
        0 <= n,
        0 <= loops,
    ensures
        n > 0,
        0 <= k / n < loops,
        0 <= k % n < n,
        k == (k / n) * n + k % n,
{
    assert(n > 0) by (nonlinear_arith)
        requires
            0 <= k < n * loops,
            0 <= n,
    ;
    vstd::arithmetic::div_mod::lemma_fundamental_div_mod(k, n);
    vstd::arithmetic::div_mod::lemma_mod_bound(k, n);
    vstd::arithmetic::div_mod::lemma_div_pos_is_pos(k, n);
    assert(k / n < loops) by (nonlinear_arith)
        requires
            k < n * loops,
            n > 0,
            k == n * (k / n) + k % n,
            0 <= k % n,
    ;
    assert(n * (k / n) == (k / n) * n) by (nonlinear_arith);
}

/// The runner can report `success` for `prompt`: some call of it with that
/// prompt returns an outcome that counts as `success`.
pub open spec fn run_reported<E, F: Fn(String) -> Result<bool, E>>(
    runner: F,
    prompt: Seq<char>,
    success: bool,
) -> bool {
    exists|p: String, outcome: Result<bool, E>|
        p@ == prompt && #[trigger] call_ensures(runner, (p,), outcome) && success == succeeded(
            outcome,
        )
}

/// Runs all prompts in order, repeating `loops` times, and returns one
/// result per run.
///
/// There are exactly `prompts.len() * loops` results, so none where either
/// is zero. Result `k` belongs to loop `k / n` and task `k % n`, and its
/// flag is what the runner reported for prompt `k % n`: a run that fails,
/// or a runner that returns an error, is recorded as a failure and the
/// loop goes on.
pub fn orchestrate<E, F: Fn(String) -> Result<bool, E>>(
    prompts: &[String],
    loops: usize,
    runner: F,
) -> (results: Vec<RunResult>)
    requires
        orchestrable(line_views(prompts@), loops),
        forall|p: String| call_requires(runner, (p,)),
    ensures
        results@.len() == prompts@.len() * loops,
        in_run_order(results@, prompts@.len() as int),
        forall|k: int|
            0 <= k < results@.len() ==> run_reported(
                runner,
                line_views(prompts@)[k % (prompts@.len() as int)],
                (#[trigger] results@[k]).2,
            ),
{
    let ghost n = prompts@.len() as int;
    let ghost views = line_views(prompts@);
    let mut orchestrator = Orchestrator::new(copy_lines(prompts), loops);
    loop
        invariant
            orchestrable(views, loops),
            orchestrator.wf(),
            orchestrator@.prompts == views,
            orchestrator@.loops == loops,
            n == views.len(),
            forall|p: String| call_requires(runner, (p,)),
            forall|k: int|
                0 <= k < orchestrator@.results.len() ==> run_reported(
                    runner,
                    views[k % n],
                    (#[trigger] orchestrator@.results[k]).2,
                ),
        ensures
            orchestrator@.results.len() == n * loops,
            in_run_order(orchestrator@.results, n),
            forall|k: int|
                0 <= k < orchestrator@.results.len() ==> run_reported(
                    runner,
                    views[k % n],
                    (#[trigger] orchestrator@.results[k]).2,
                ),
        decreases n * loops - orchestrator@.results.len(),
    {
        proof {
            let k = orchestrator@.results.len() as int;
            if k < n * loops {
                lemma_position_in_bounds(k, n, loops as int);
                assert(truncates_cleanly(views[k % n], MAX_CURRENT_TASK_LEN));
            }
        }
        let plan = orchestrator.next_run();
        if plan.is_none() {
            break;
        }
        let plan = plan.unwrap();
        let ghost k = orchestrator@.results.len() as int;
        let ghost sent = plan.prompt;
        let outcome = runner(plan.prompt);
        let success = run_succeeded(&outcome);
        let _ = orchestrator.record(success);
        proof {
            assert(call_ensures(runner, (sent,), outcome));
            assert(run_reported(runner, views[k % n], success));
            assert forall|j: int| 0 <= j < orchestrator@.results.len() implies run_reported(
                runner,
                views[j % n],
                (#[trigger] orchestrator@.results[j]).2,
            ) by {
                if j < k {
                } else {
                    assert(orchestrator@.results[j].2 == success);
                }
            }
        }
    }
    orchestrator.into_results()
}

/// `prompts.len() * loops` is zero where either factor is: zero loops or no
/// prompt means no run and no result.
pub proof fn lemma_nothing_to_run(n: int, loops: int)
    requires
        n == 0 || loops == 0,
    ensures
        n * loops == 0,
{
    assert(n * loops == 0) by (nonlinear_arith)
        requires
            n == 0 || loops == 0,
    ;
}

/// Within every loop pass each task runs exactly once and in order: the run
/// of task `task` in loop `pass` is run number `pass * n + task`, it lies
/// within the `n * loops` runs, and the results list it under exactly that
/// loop and task.
pub proof fn lemma_each_task_once_per_pass(n: int, loops: int, pass: int, task: int)
    requires
        0 <= pass < loops,
        0 <= task < n,
    ensures
        0 <= pass * n + task < n * loops,
        (pass * n + task) / n == pass,
        (pass * n + task) % n == task,
{
    let k = pass * n + task;
    assert(0 <= pass * n) by (nonlinear_arith)
        requires
            0 <= pass,
            0 <= n,
    ;
    assert(pass * n + n <= n * loops) by (nonlinear_arith)
        requires
            pass + 1 <= loops,
            0 <= n,
    ;
    vstd::arithmetic::div_mod::lemma_fundamental_div_mod_converse(k, n, pass, task);
}

} // verus!
