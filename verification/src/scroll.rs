//! Bounded scrollback: the completed lines of output, oldest first, and the
//! line still being written.

use std::collections::VecDeque;
use vstd::prelude::*;

verus! {

/// How many completed lines the buffer keeps at most.
pub const MAX_RENDERED_OUTPUT_LINES: usize = 4000;

pub const NEWLINE: char = '\n';

/// What a scroll buffer holds: completed lines, oldest first, and the
/// partial line.
pub struct ScrollView {
    pub lines: Seq<Seq<char>>,
    pub current: Seq<char>,
}

/// The last `cap` entries of `s`, or all of `s` where it has no more.
pub open spec fn keep_tail<T>(s: Seq<T>, cap: nat) -> Seq<T> {
    if s.len() <= cap {
        s
    } else {
        s.subrange(s.len() - cap, s.len() as int)
    }
}

/// Closes the partial line: it joins the completed lines, the oldest of
/// which leaves where the cap is exceeded, and a new empty line begins.
pub open spec fn close_line(v: ScrollView) -> ScrollView {
    ScrollView {
        lines: keep_tail(v.lines.push(v.current), MAX_RENDERED_OUTPUT_LINES as nat),
        current: Seq::empty(),
    }
}

/// Feeds one character: a newline closes the partial line, any other
/// character joins it.
pub open spec fn feed_char(v: ScrollView, c: char) -> ScrollView {
    if c == NEWLINE {
        close_line(v)
    } else {
        ScrollView { lines: v.lines, current: v.current.push(c) }
    }
}

/// Feeds `text` character by character.
pub open spec fn feed(v: ScrollView, text: Seq<char>) -> ScrollView
    decreases text.len(),
{
    if text.len() == 0 {
        v
    } else {
        feed_char(feed(v, text.drop_last()), text.last())
    }
}

/// Closes the partial line if it holds anything.
pub open spec fn flushed(v: ScrollView) -> ScrollView {
    if v.current.len() > 0 {
        close_line(v)
    } else {
        v
    }
}

/// Feeding with no cap at all: every completed line is kept.
pub open spec fn feed_unbounded(v: ScrollView, text: Seq<char>) -> ScrollView
    decreases text.len(),
{
    if text.len() == 0 {
        v
    } else {
        let before = feed_unbounded(v, text.drop_last());
        if text.last() == NEWLINE {
            ScrollView { lines: before.lines.push(before.current), current: Seq::empty() }
        } else {
            ScrollView { lines: before.lines, current: before.current.push(text.last()) }
        }
    }
}

/// What is shown below the header: the completed lines and, where it holds
/// anything, the partial line after them.
pub open spec fn body_lines(v: ScrollView) -> Seq<Seq<char>> {
    if v.current.len() > 0 {
        v.lines.push(v.current)
    } else {
        v.lines
    }
}

/// The views of a sequence of strings.
pub open spec fn line_views(lines: Seq<String>) -> Seq<Seq<char>> {
    lines.map_values(|s: String| s@)
}

/// The bounded buffer of task output.
pub struct ScrollBuffer {
    lines: VecDeque<String>,
    current: String,
}

impl View for ScrollBuffer {
    type V = ScrollView;

    closed spec fn view(&self) -> ScrollView {
        ScrollView { lines: line_views(self.lines@), current: self.current@ }
    }
}

impl ScrollBuffer {
    /// The invariant of the buffer: it never holds more completed lines than
    /// the cap. `new` establishes it and every method keeps it.
    pub open spec fn wf(&self) -> bool {
        self@.lines.len() <= MAX_RENDERED_OUTPUT_LINES
    }

    /// An empty buffer.
    pub fn new() -> (buffer: Self)
        ensures
            buffer.wf(),
            buffer@.lines == Seq::<Seq<char>>::empty(),
            buffer@.current == Seq::<char>::empty(),
    {
        let buffer = ScrollBuffer { lines: VecDeque::new(), current: String::new() };
        assert(buffer@.lines =~= Seq::<Seq<char>>::empty());
        buffer
    }

    /// How many completed lines the buffer holds.
    pub fn line_count(&self) -> (n: usize)
        ensures
            n == self@.lines.len(),
    {
        self.lines.len()
    }

    /// The completed line at `index`, counted from the oldest.
    pub fn line(&self, index: usize) -> (line: &str)
        requires
            index < self@.lines.len(),
        ensures
            line@ == self@.lines[index as int],
    {
        self.lines[index].as_str()
    }

    /// The partial line.
    pub fn current_line(&self) -> (line: &str)
        ensures
            line@ == self@.current,
    {
        self.current.as_str()
    }

    /// Closes the partial line and evicts the oldest lines over the cap.
    pub fn push_current_line(&mut self)
        ensures
            final(self).wf(),
            final(self)@ == close_line(old(self)@),
    {
        let ghost all = old(self)@.lines.push(old(self)@.current);
        let mut line = String::new();
        std::mem::swap(&mut self.current, &mut line);
        self.lines.push_back(line);
        assert(line_views(self.lines@) =~= all);
        while self.lines.len() > MAX_RENDERED_OUTPUT_LINES
            invariant
                self.current@ == Seq::<char>::empty(),
                self.lines@.len() <= all.len(),
                self.lines@.len() == all.len() || self.lines@.len() >= MAX_RENDERED_OUTPUT_LINES,
                line_views(self.lines@) == keep_tail(all, self.lines@.len()),
            decreases self.lines@.len(),
        {
            let ghost before = self.lines@;
            let _ = self.lines.pop_front();
            proof {
                let after = self.lines@;
                assert(after.len() == before.len() - 1);
                assert forall|i: int| 0 <= i < after.len() implies line_views(after)[i]
                    == keep_tail(all, after.len())[i] by {
                    assert(after[i] == before[i + 1]);
                    assert(line_views(before)[i + 1] == keep_tail(all, before.len())[i + 1]);
                }
                assert(line_views(after) =~= keep_tail(all, after.len()));
            }
        }
        assert(final(self)@.lines =~= close_line(old(self)@).lines);
    }

    /// Feeds sanitized text character by character.
    pub fn append(&mut self, text: &str)
        ensures
            final(self)@ == feed(old(self)@, text@),
            old(self).wf() ==> final(self).wf(),
    {
        for c in it: text.chars()
            invariant
                it.seq() == text@,
                old(self).wf() ==> self.wf(),
                self@ == feed(old(self)@, text@.take(it.index() as int)),
        {
            proof {
                assert(text@.take(it.index() + 1).drop_last() =~= text@.take(it.index() as int));
            }
            if c == NEWLINE {
                self.push_current_line();
            } else {
                self.current.push(c);
            }
        }
        proof {
            assert(text@.take(text@.len() as int) =~= text@);
        }
    }

    /// Force-closes a partial line that holds anything.
    pub fn flush(&mut self)
        ensures
            final(self)@ == flushed(old(self)@),
            old(self).wf() ==> final(self).wf(),
    {
        if !self.current.as_str().is_empty() {
            self.push_current_line();
        }
    }
}

/// Feeding text never takes the buffer over the cap.
pub proof fn lemma_feed_within_cap(v: ScrollView, text: Seq<char>)
    requires
        v.lines.len() <= MAX_RENDERED_OUTPUT_LINES,
    ensures
        feed(v, text).lines.len() <= MAX_RENDERED_OUTPUT_LINES,
    decreases text.len(),
{
    if text.len() > 0 {
        lemma_feed_within_cap(v, text.drop_last());
    }
}

/// Taking the tail commutes with appending one more entry: evicting early
/// or late leaves the same window.
pub proof fn lemma_keep_tail_push<T>(s: Seq<T>, x: T, cap: nat)
    requires
        cap > 0,
    ensures
        keep_tail(keep_tail(s, cap).push(x), cap) == keep_tail(s.push(x), cap),
{
    assert(keep_tail(keep_tail(s, cap).push(x), cap) =~= keep_tail(s.push(x), cap));
}

/// Eviction is first in, first out: the bounded buffer holds exactly the
/// most recent lines of the history that a buffer without a cap would hold,
/// in the same order, and the same partial line.
pub proof fn lemma_feed_keeps_latest(v: ScrollView, text: Seq<char>)
    requires
        v.lines.len() <= MAX_RENDERED_OUTPUT_LINES,
    ensures
        feed(v, text).lines == keep_tail(
            feed_unbounded(v, text).lines,
            MAX_RENDERED_OUTPUT_LINES as nat,
        ),
        feed(v, text).current == feed_unbounded(v, text).current,
    decreases text.len(),
{
    if text.len() > 0 {
        let front = text.drop_last();
        lemma_feed_keeps_latest(v, front);
        if text.last() == NEWLINE {
            let history = feed_unbounded(v, front);
            lemma_keep_tail_push(
                history.lines,
                history.current,
                MAX_RENDERED_OUTPUT_LINES as nat,
            );
        }
    }
}

/// Feeding `a` and then `b` is feeding their concatenation: how the text is
/// cut into chunks does not matter.
pub proof fn lemma_feed_concat(v: ScrollView, a: Seq<char>, b: Seq<char>)
    ensures
        feed(v, a + b) == feed(feed(v, a), b),
    decreases b.len(),
{
    if b.len() == 0 {
        assert(a + b =~= a);
    } else {
        lemma_feed_concat(v, a, b.drop_last());
        assert((a + b).drop_last() =~= a + b.drop_last());
        assert((a + b).last() == b.last());
    }
}

/// No line of the buffer, completed or partial, holds a line feed.
pub open spec fn single_lines(v: ScrollView) -> bool {
    &&& !v.current.contains(NEWLINE)
    &&& forall|i: int| 0 <= i < v.lines.len() ==> !(#[trigger] v.lines[i]).contains(NEWLINE)
}

/// Feeding text keeps every line a single line: a line feed always closes
/// the partial line and never joins it.
pub proof fn lemma_feed_keeps_single_lines(v: ScrollView, text: Seq<char>)
    requires
        single_lines(v),
    ensures
        single_lines(feed(v, text)),
    decreases text.len(),
{
    if text.len() > 0 {
        let before = feed(v, text.drop_last());
        lemma_feed_keeps_single_lines(v, text.drop_last());
        let after = feed(v, text);
        if text.last() == NEWLINE {
            let all = before.lines.push(before.current);
            assert forall|i: int| 0 <= i < after.lines.len() implies !(
            #[trigger] after.lines[i]).contains(NEWLINE) by {
                let shift = all.len() - after.lines.len();
                assert(after.lines[i] == all[i + shift]);
                if i + shift < before.lines.len() {
                    assert(all[i + shift] == before.lines[i + shift]);
                }
            }
        } else {
            assert forall|j: int| 0 <= j < after.current.len() implies after.current[j]
                != NEWLINE by {
                if j < before.current.len() {
                    assert(before.current.contains(before.current[j]));
                }
            }
        }
    }
}

} // verus!
