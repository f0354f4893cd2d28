//! The header pinned above a task's output, and the slot through which the
//! orchestrator hands it to whoever launches the task.

use crate::scroll::line_views;
use crate::text::{
    decimal, push_decimal, truncate_display, truncated, truncates_cleanly, MAX_CURRENT_TASK_LEN,
};
use vstd::prelude::*;

verus! {

/// The first line of every header.
pub open spec fn banner() -> Seq<char> {
    "=== Agent Loops ==="@
}

/// The last line of every header.
pub open spec fn separator() -> Seq<char> {
    "----------------------------------------"@
}

/// `Run i/total | Loop j/L | Task k/n`, with loop and task counted from one.
pub open spec fn progress_line(
    run_idx: usize,
    total_runs: usize,
    loop_idx: usize,
    loops: usize,
    task_idx: usize,
    task_total: usize,
) -> Seq<char> {
    "Run "@ + decimal(run_idx as nat) + "/"@ + decimal(total_runs as nat) + " | Loop "@ + decimal(
        (loop_idx + 1) as nat,
    ) + "/"@ + decimal(loops as nat) + " | Task "@ + decimal((task_idx + 1) as nat) + "/"@
        + decimal(task_total as nat)
}

/// `Current task: ` and the prompt, shortened for display.
pub open spec fn current_task_line(prompt: Seq<char>) -> Seq<char> {
    "Current task: "@ + truncated(prompt, MAX_CURRENT_TASK_LEN)
}

/// The four header lines of one run.
pub open spec fn task_header(
    run_idx: usize,
    total_runs: usize,
    loop_idx: usize,
    loops: usize,
    task_idx: usize,
    task_total: usize,
    prompt: Seq<char>,
) -> Seq<Seq<char>> {
    seq![
        banner(),
        progress_line(run_idx, total_runs, loop_idx, loops, task_idx, task_total),
        current_task_line(prompt),
        separator(),
    ]
}

/// The three header lines used where no header was published.
pub open spec fn default_header(prompt: Seq<char>) -> Seq<Seq<char>> {
    seq![banner(), current_task_line(prompt), separator()]
}

/// Builds the four header lines of one run.
pub fn task_header_lines(
    run_idx: usize,
    total_runs: usize,
    loop_idx: usize,
    loops: usize,
    task_idx: usize,
    task_total: usize,
    prompt: &str,
) -> (lines: Vec<String>)
    requires
        loop_idx < usize::MAX,
        task_idx < usize::MAX,
        truncates_cleanly(prompt@, MAX_CURRENT_TASK_LEN),
    ensures
        line_views(lines@) == task_header(
            run_idx,
            total_runs,
            loop_idx,
            loops,
            task_idx,
            task_total,
            prompt@,
        ),
{
    let mut progress = String::from_str("Run ");
    push_decimal(&mut progress, run_idx);
    progress.append("/");
    push_decimal(&mut progress, total_runs);
    progress.append(" | Loop ");
    push_decimal(&mut progress, loop_idx + 1);
    progress.append("/");
    push_decimal(&mut progress, loops);
    progress.append(" | Task ");
    push_decimal(&mut progress, task_idx + 1);
    progress.append("/");
    push_decimal(&mut progress, task_total);

    let mut current = String::from_str("Current task: ");
    let shown = truncate_display(prompt, MAX_CURRENT_TASK_LEN);
    current.append(shown.as_str());

    let mut lines: Vec<String> = Vec::new();
    lines.push(String::from_str("=== Agent Loops ==="));
    lines.push(progress);
    lines.push(current);
    lines.push(String::from_str("----------------------------------------"));
    proof {
        assert(line_views(lines@) =~= task_header(
            run_idx,
            total_runs,
            loop_idx,
            loops,
            task_idx,
            task_total,
            prompt@,
        ));
    }
    lines
}

/// Builds the three header lines used where no header was published.
pub fn default_header_lines(prompt: &str) -> (lines: Vec<String>)
    requires
        truncates_cleanly(prompt@, MAX_CURRENT_TASK_LEN),
    ensures
        line_views(lines@) == default_header(prompt@),
{
    let mut current = String::from_str("Current task: ");
    let shown = truncate_display(prompt, MAX_CURRENT_TASK_LEN);
    current.append(shown.as_str());

    let mut lines: Vec<String> = Vec::new();
    lines.push(String::from_str("=== Agent Loops ==="));
    lines.push(current);
    lines.push(String::from_str("----------------------------------------"));
    proof {
        assert(line_views(lines@) =~= default_header(prompt@));
    }
    lines
}

/// A copy of `lines`.
pub fn copy_lines(lines: &[String]) -> (copy: Vec<String>)
    ensures
        copy@.len() == lines@.len(),
        line_views(copy@) == line_views(lines@),
{
    let mut copy: Vec<String> = Vec::new();
    let mut i: usize = 0;
    while i < lines.len()
        invariant
            i <= lines.len(),
            copy@.len() == i,
            line_views(copy@) == line_views(lines@.take(i as int)),
        decreases lines.len() - i,
    {
        let ghost before = copy@;
        let line = lines[i].clone();
        copy.push(line);
        proof {
            let target = line_views(lines@.take(i + 1));
            assert(line_views(before) == line_views(lines@.take(i as int)));
            assert forall|j: int| 0 <= j < target.len() implies line_views(copy@)[j]
                == target[j] by {
                if j < i {
                    assert(line_views(before)[j] == line_views(lines@.take(i as int))[j]);
                    assert(copy@[j] == before[j]);
                }
            }
            assert(line_views(copy@) =~= target);
        }
        i += 1;
    }
    proof {
        assert(lines@.take(i as int) =~= lines@);
    }
    copy
}

/// The header of the task that is running now, if any: a single slot, which
/// a writer fills or clears whole.
pub struct HeaderSlot {
    lines: Option<Vec<String>>,
}

impl View for HeaderSlot {
    type V = Option<Seq<Seq<char>>>;

    closed spec fn view(&self) -> Option<Seq<Seq<char>>> {
        match self.lines {
            Some(lines) => Some(line_views(lines@)),
            None => None,
        }
    }
}

impl HeaderSlot {
    /// An empty slot: no task is running.
    pub fn new() -> (slot: Self)
        ensures
            slot@ is None,
    {
        HeaderSlot { lines: None }
    }

    /// Replaces what the slot holds: a header for the run that starts, or
    /// nothing once it has ended.
    pub fn set_current_task_header(&mut self, lines: Option<Vec<String>>)
        ensures
            final(self)@ == match lines {
                Some(l) => Some(line_views(l@)),
                None => None,
            },
    {
        self.lines = lines;
    }

    /// Whether a header is published.
    pub fn holds_header(&self) -> (held: bool)
        ensures
            held == (self@ is Some),
    {
        self.lines.is_some()
    }

    /// A copy of the published header, if there is one.
    pub fn current_task_header(&self) -> (lines: Option<Vec<String>>)
        ensures
            match lines {
                Some(l) => self@ == Some(line_views(l@)),
                None => self@ is None,
            },
    {
        match &self.lines {
            Some(lines) => Some(copy_lines(lines.as_slice())),
            None => None,
        }
    }

    /// The published header, whatever the prompt, or the default header for
    /// `prompt` where none was published. Only the default header shortens
    /// the prompt, so only then must the prompt allow it.
    pub fn current_task_header_or_default(&self, prompt: &str) -> (lines: Vec<String>)
        requires
            self@ is None ==> truncates_cleanly(prompt@, MAX_CURRENT_TASK_LEN),
        ensures
            line_views(lines@) == match self@ {
                Some(published) => published,
                None => default_header(prompt@),
            },
    {
        match self.current_task_header() {
            Some(lines) => lines,
            None => default_header_lines(prompt),
        }
    }
}

} // verus!
