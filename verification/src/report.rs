//! What the program says around the runs: the plan before them, the
//! refusal where there is nothing to do, and the summary after them.

use crate::orchestrate::RunResult;
use crate::scroll::line_views;
use crate::text::{
    decimal, push_decimal, truncate_display, truncated, truncates_cleanly, MAX_DISPLAY_LEN,
};
use vstd::prelude::*;

verus! {

/// Every prompt can be shortened for the task list without cutting a
/// character in two.
pub open spec fn prompts_fit_list(prompts: Seq<Seq<char>>) -> bool {
    forall|i: int|
        0 <= i < prompts.len() ==> truncates_cleanly(#[trigger] prompts[i], MAX_DISPLAY_LEN)
}

/// `Loops: L | Tasks: n | Total runs: n * L`.
pub open spec fn counts_line(task_count: nat, loops: usize) -> Seq<char> {
    "Loops: "@ + decimal(loops as nat) + " | Tasks: "@ + decimal(task_count) + " | Total runs: "@
        + decimal(task_count * loops as nat)
}

/// One entry of the task list: two spaces, the task's number from one, a
/// period, and the prompt shortened for display.
pub open spec fn task_entry(index: int, prompt: Seq<char>) -> Seq<char> {
    "  "@ + decimal((index + 1) as nat) + ". "@ + truncated(prompt, MAX_DISPLAY_LEN)
}

/// The task list, one entry per prompt.
pub open spec fn task_list(prompts: Seq<Seq<char>>) -> Seq<Seq<char>> {
    Seq::new(prompts.len(), |i: int| task_entry(i, prompts[i]))
}

/// The first lines of the plan: its title and, where one is given, the
/// working directory.
pub open spec fn plan_head(work_dir: Option<Seq<char>>) -> Seq<Seq<char>> {
    let dir = match work_dir {
        Some(d) => seq!["Work dir: "@ + d],
        None => Seq::empty(),
    };
    seq!["=== Agent Loops Plan ==="@] + dir
}

/// The lines of the plan that follow the head and come before the task
/// list: the counts and the list's heading.
pub open spec fn plan_counts(task_count: nat, loops: usize) -> Seq<Seq<char>> {
    seq![counts_line(task_count, loops), "Task list:"@]
}

/// The last lines of the plan: an empty line and the rule, which carries a
/// line feed of its own.
pub open spec fn plan_tail() -> Seq<Seq<char>> {
    seq![Seq::empty(), "========================\n"@]
}

/// The lines of the plan, each to be written with a line feed after it.
pub open spec fn plan(prompts: Seq<Seq<char>>, loops: usize, work_dir: Option<Seq<char>>) -> Seq<
    Seq<char>,
> {
    plan_head(work_dir) + plan_counts(prompts.len(), loops) + task_list(prompts) + plan_tail()
}

/// Builds the first lines of the plan.
pub fn plan_head_lines(work_dir: Option<&str>) -> (lines: Vec<String>)
    ensures
        line_views(lines@) == plan_head(
            match work_dir {
                Some(d) => Some(d@),
                None => None,
            },
        ),
{
    let mut lines: Vec<String> = Vec::new();
    lines.push(String::from_str("=== Agent Loops Plan ==="));
    match work_dir {
        Some(dir) => {
            let mut line = String::from_str("Work dir: ");
            line.append(dir);
            lines.push(line);
        },
        None => {},
    }
    proof {
        assert(line_views(lines@) =~= plan_head(
            match work_dir {
                Some(d) => Some(d@),
                None => None,
            },
        ));
    }
    lines
}

/// Builds the counts and the heading of the task list.
pub fn plan_counts_lines(task_count: usize, loops: usize) -> (lines: Vec<String>)
    requires
        task_count * loops <= usize::MAX,
    ensures
        line_views(lines@) == plan_counts(task_count as nat, loops),
{
    let mut counts = String::from_str("Loops: ");
    push_decimal(&mut counts, loops);
    counts.append(" | Tasks: ");
    push_decimal(&mut counts, task_count);
    counts.append(" | Total runs: ");
    push_decimal(&mut counts, task_count * loops);
    let mut lines: Vec<String> = Vec::new();
    lines.push(counts);
    lines.push(String::from_str("Task list:"));
    proof {
        assert(line_views(lines@) =~= plan_counts(task_count as nat, loops));
    }
    lines
}

/// Builds one entry of the task list.
pub fn plan_entry_line(index: usize, prompt: &str) -> (entry: String)
    requires
        index < usize::MAX,
        truncates_cleanly(prompt@, MAX_DISPLAY_LEN),
    ensures
        entry@ == task_entry(index as int, prompt@),
{
    let mut entry = String::from_str("  ");
    push_decimal(&mut entry, index + 1);
    entry.append(". ");
    let shown = truncate_display(prompt, MAX_DISPLAY_LEN);
    entry.append(shown.as_str());
    entry
}

/// Builds the last lines of the plan.
pub fn plan_tail_lines() -> (lines: Vec<String>)
    ensures
        line_views(lines@) == plan_tail(),
{
    let mut lines: Vec<String> = Vec::new();
    lines.push(String::new());
    lines.push(String::from_str("========================\n"));
    proof {
        assert(line_views(lines@) =~= plan_tail());
    }
    lines
}

/// Builds the plan that is shown before the runs.
pub fn plan_lines(prompts: &[String], loops: usize, work_dir: Option<&str>) -> (lines: Vec<String>)
    requires
        prompts@.len() * loops <= usize::MAX,
        prompts_fit_list(line_views(prompts@)),
    ensures
        line_views(lines@) == plan(
            line_views(prompts@),
            loops,
            match work_dir {
                Some(d) => Some(d@),
                None => None,
            },
        ),
{
    let n = prompts.len();
    let ghost views = line_views(prompts@);
    let mut lines = plan_head_lines(work_dir);
    let mut counts = plan_counts_lines(n, loops);
    let ghost opened = lines@;
    let ghost counted = counts@;
    lines.append(&mut counts);
    let ghost head = line_views(lines@);
    proof {
        assert(head =~= line_views(opened) + line_views(counted));
        assert(head + task_list(views).take(0) =~= head);
    }
    let mut i: usize = 0;
    while i < n
        invariant
            i <= n,
            n == prompts@.len(),
            views == line_views(prompts@),
            prompts_fit_list(views),
            line_views(lines@) == head + task_list(views).take(i as int),
        decreases n - i,
    {
        proof {
            assert(views[i as int] == prompts@[i as int]@);
        }
        let entry = plan_entry_line(i, prompts[i].as_str());
        let ghost before = lines@;
        lines.push(entry);
        proof {
            assert(line_views(before.push(entry)) =~= line_views(before).push(entry@));
            assert(task_list(views).take(i + 1) =~= task_list(views).take(i as int).push(
                task_entry(i as int, views[i as int]),
            ));
            assert(line_views(lines@) =~= head + task_list(views).take(i + 1));
        }
        i += 1;
    }
    let ghost listed = lines@;
    let mut tail = plan_tail_lines();
    let ghost closing = tail@;
    lines.append(&mut tail);
    proof {
        assert(task_list(views).take(n as int) =~= task_list(views));
        assert(line_views(lines@) =~= line_views(listed) + line_views(closing));
    }
    lines
}

/// What the program says where the loop count is zero.
pub open spec fn no_loops_message() -> Seq<char> {
    "Loop count is 0 \u{2014} nothing to do."@
}

/// What the program says where there is no prompt.
pub open spec fn no_prompts_message() -> Seq<char> {
    "No prompts provided \u{2014} nothing to do."@
}

/// Why there is nothing to run, if so: zero loops, or else no prompt.
pub open spec fn refusal(loops: usize, prompt_count: usize) -> Option<Seq<char>> {
    if loops == 0 {
        Some(no_loops_message())
    } else if prompt_count == 0 {
        Some(no_prompts_message())
    } else {
        None
    }
}

/// Looks whether there is anything to run. With zero loops or no prompt
/// there is not, which is said and is no error; the loop count is looked at
/// first.
pub fn preflight(loops: usize, prompt_count: usize) -> (message: Option<String>)
    ensures
        match message {
            Some(m) => refusal(loops, prompt_count) == Some(m@),
            None => refusal(loops, prompt_count) is None,
        },
{
    if loops == 0 {
        Some(String::from_str("Loop count is 0 \u{2014} nothing to do."))
    } else if prompt_count == 0 {
        Some(String::from_str("No prompts provided \u{2014} nothing to do."))
    } else {
        None
    }
}

/// How many of the results are failures.
pub open spec fn failures(results: Seq<RunResult>) -> nat
    decreases results.len(),
{
    if results.len() == 0 {
        0
    } else {
        failures(results.drop_last()) + if results.last().2 {
            0nat
        } else {
            1nat
        }
    }
}

/// Counts the failed runs.
pub fn count_failures(results: &[RunResult]) -> (count: usize)
    ensures
        count == failures(results@),
{
    let mut count: usize = 0;
    let mut i: usize = 0;
    while i < results.len()
        invariant
            i <= results.len(),
            count == failures(results@.take(i as int)),
            count <= i,
        decreases results.len() - i,
    {
        proof {
            assert(results@.take(i + 1).drop_last() =~= results@.take(i as int));
        }
        if !results[i].2 {
            count += 1;
        }
        i += 1;
    }
    proof {
        assert(results@.take(i as int) =~= results@);
    }
    count
}

/// The closing line: all well, or how many runs failed.
pub open spec fn summary_line(failed: nat) -> Seq<char> {
    if failed == 0 {
        "All tasks completed successfully."@
    } else {
        decimal(failed) + " task(s) failed."@
    }
}

/// The verdict on the whole: success where no run failed, and the closing
/// line.
pub fn summarize(results: &[RunResult]) -> (summary: (bool, String))
    ensures
        summary.0 == (failures(results@) == 0),
        summary.1@ == summary_line(failures(results@)),
{
    let failed = count_failures(results);
    if failed == 0 {
        (true, String::from_str("All tasks completed successfully."))
    } else {
        let mut line = String::new();
        push_decimal(&mut line, failed);
        line.append(" task(s) failed.");
        (false, line)
    }
}

} // verus!
