//! The pinned renderer: a fixed header above a tail window of the task's
//! output, repainted whole on every update.

use crate::ansi::{sanitize_from, state_after, AnsiParseState, AnsiSanitizer};
use crate::scroll::{
    body_lines, feed, flushed, keep_tail, line_views, ScrollBuffer, ScrollView, NEWLINE,
};
use crate::strings::{decode_lossy, lossy_decoded};
use crate::text::{fit_terminal_line, fitted};
use vstd::prelude::*;
use vstd::utf8::{decode_utf8, valid_utf8};

verus! {

/// Rows assumed where the terminal does not report its height.
pub const DEFAULT_ROWS: usize = 24;

/// Columns assumed where the terminal does not report its width.
pub const DEFAULT_COLS: usize = 120;

/// ESC `[H`: move the cursor to the top-left corner.
pub open spec fn cursor_home() -> Seq<char> {
    seq!['\x1b', '[', 'H']
}

/// ESC `[2K`: clear the line the cursor is on.
pub open spec fn clear_line() -> Seq<char> {
    seq!['\x1b', '[', '2', 'K']
}

/// ESC `[J`: clear from the cursor to the end of the screen.
pub open spec fn clear_below() -> Seq<char> {
    seq!['\x1b', '[', 'J']
}

/// ESC `[?25l`, ESC `[2J`, ESC `[H`: hide the cursor, clear the screen, and
/// go to the top-left corner.
pub open spec fn enter_screen() -> Seq<char> {
    seq!['\x1b', '[', '?', '2', '5', 'l', '\x1b', '[', '2', 'J', '\x1b', '[', 'H']
}

/// ESC `[?25h`: show the cursor again.
pub open spec fn show_cursor() -> Seq<char> {
    seq!['\x1b', '[', '?', '2', '5', 'h']
}

/// One painted row: the line is cleared, then written clamped to the width.
pub open spec fn frame_row(line: Seq<char>, cols: usize) -> Seq<char> {
    clear_line() + fitted(line, cols) + seq![NEWLINE]
}

/// The painted rows for `lines`, in order.
pub open spec fn frame_rows(lines: Seq<Seq<char>>, cols: usize) -> Seq<char>
    decreases lines.len(),
{
    if lines.len() == 0 {
        Seq::empty()
    } else {
        frame_rows(lines.drop_last(), cols) + frame_row(lines.last(), cols)
    }
}

/// `n` cleared, empty rows.
pub open spec fn blank_rows(n: nat) -> Seq<char>
    decreases n,
{
    if n == 0 {
        Seq::empty()
    } else {
        blank_rows((n - 1) as nat) + clear_line() + seq![NEWLINE]
    }
}

/// The rows left for the body under a header of `header_count` lines.
pub open spec fn body_row_count(rows: usize, header_count: nat) -> nat {
    if rows >= header_count {
        (rows - header_count) as nat
    } else {
        0
    }
}

/// What a renderer holds.
pub struct RendererView {
    pub header: Seq<Seq<char>>,
    pub state: AnsiParseState,
    pub scroll: ScrollView,
}

/// The body lines in view: the last `body_row_count` of the completed lines
/// and the partial line.
pub open spec fn visible_lines(v: RendererView, rows: usize) -> Seq<Seq<char>> {
    keep_tail(body_lines(v.scroll), body_row_count(rows, v.header.len()))
}

/// The full repaint: home the cursor, paint the header, paint the tail of
/// the body, blank the body rows left over, and clear whatever is below.
pub open spec fn frame(v: RendererView, rows: usize, cols: usize) -> Seq<char> {
    let visible = visible_lines(v, rows);
    cursor_home() + frame_rows(v.header, cols) + frame_rows(visible, cols) + blank_rows(
        (body_row_count(rows, v.header.len()) - visible.len()) as nat,
    ) + clear_below()
}

/// The sanitized, decoded text of a chunk that arrives in state `state`.
pub open spec fn chunk_text(state: AnsiParseState, chunk: Seq<u8>) -> Seq<char> {
    lossy_decoded(sanitize_from(state, chunk))
}

/// The renderer after a chunk: the parse state moves on and, where
/// sanitizing leaves anything, the decoded text joins the scroll buffer.
pub open spec fn after_chunk(v: RendererView, chunk: Seq<u8>) -> RendererView {
    RendererView {
        header: v.header,
        state: state_after(v.state, chunk),
        scroll: if sanitize_from(v.state, chunk).len() == 0 {
            v.scroll
        } else {
            feed(v.scroll, chunk_text(v.state, chunk))
        },
    }
}

/// The renderer after the stream has ended: a partial line is closed.
pub open spec fn after_finish(v: RendererView) -> RendererView {
    RendererView { header: v.header, state: v.state, scroll: flushed(v.scroll) }
}

/// The sequence that shows the cursor again, for whoever has to restore the
/// terminal when a run ends before its time.
pub fn cursor_restore() -> (sequence: &'static str)
    ensures
        sequence@ == show_cursor(),
{
    proof {
        reveal_strlit("\x1b[?25h");
        assert("\x1b[?25h"@ =~= show_cursor());
    }
    "\x1b[?25h"
}

/// Appends one painted row for `line` to `out`.
fn push_row(out: &mut String, line: &str, cols: usize)
    ensures
        final(out)@ == old(out)@ + frame_row(line@, cols),
{
    let fitted_line = fit_terminal_line(line, cols);
    out.append("\x1b[2K");
    out.append(fitted_line.as_str());
    out.append("\n");
    proof {
        reveal_strlit("\x1b[2K");
        reveal_strlit("\n");
        assert("\x1b[2K"@ =~= clear_line());
        assert("\n"@ =~= seq![NEWLINE]);
        assert(final(out)@ =~= old(out)@ + frame_row(line@, cols));
    }
}

/// The renderer of one task run: its header, the sanitizer's state and the
/// scroll buffer.
pub struct PinnedOutputRenderer {
    header_lines: Vec<String>,
    sanitizer: AnsiSanitizer,
    buffer: ScrollBuffer,
}

impl View for PinnedOutputRenderer {
    type V = RendererView;

    closed spec fn view(&self) -> RendererView {
        RendererView {
            header: line_views(self.header_lines@),
            state: self.sanitizer.state,
            scroll: self.buffer@,
        }
    }
}

impl PinnedOutputRenderer {
    /// The invariant of the renderer: its scroll buffer is within the cap.
    pub open spec fn wf(&self) -> bool {
        self@.scroll.lines.len() <= crate::scroll::MAX_RENDERED_OUTPUT_LINES
    }

    /// A renderer with the given header, no output yet, and the sanitizer
    /// outside any escape sequence. With it comes what to write first: the
    /// sequence that hides the cursor and clears the screen, then the first
    /// repaint.
    pub fn new(header_lines: Vec<String>, rows: usize, cols: usize) -> (started: (Self, String))
        ensures
            started.0.wf(),
            started.0@.header == line_views(header_lines@),
            started.0@.state == AnsiParseState::Normal,
            started.0@.scroll.lines == Seq::<Seq<char>>::empty(),
            started.0@.scroll.current == Seq::<char>::empty(),
            started.1@ == enter_screen() + frame(started.0@, rows, cols),
    {
        let renderer = PinnedOutputRenderer {
            header_lines,
            sanitizer: AnsiSanitizer::new(),
            buffer: ScrollBuffer::new(),
        };
        let mut out = String::from_str("\x1b[?25l\x1b[2J\x1b[H");
        let painted = renderer.render(rows, cols);
        out.append(painted.as_str());
        proof {
            reveal_strlit("\x1b[?25l\x1b[2J\x1b[H");
            assert("\x1b[?25l\x1b[2J\x1b[H"@ =~= enter_screen());
        }
        (renderer, out)
    }

    /// Takes one chunk of raw output: sanitizes it, decodes it, and feeds it
    /// to the scroll buffer. Returns the repaint to write, or nothing where
    /// the chunk left no text after sanitizing.
    pub fn push_chunk(&mut self, chunk: &[u8], rows: usize, cols: usize) -> (painted: Option<
        String,
    >)
        requires
            old(self).wf(),
        ensures
            final(self).wf(),
            final(self)@ == after_chunk(old(self)@, chunk@),
            valid_utf8(sanitize_from(old(self)@.state, chunk@)) ==> final(self)@.scroll == feed(
                old(self)@.scroll,
                decode_utf8(sanitize_from(old(self)@.state, chunk@)),
            ),
            sanitize_from(old(self)@.state, chunk@).len() == 0 ==> painted is None,
            sanitize_from(old(self)@.state, chunk@).len() > 0 ==> painted is Some
                && painted->0@ == frame(final(self)@, rows, cols),
    {
        let sanitized = self.sanitizer.sanitize(chunk);
        if sanitized.len() == 0 {
            proof {
                assert(decode_utf8(sanitized@) =~= Seq::<char>::empty());
            }
            return None;
        }
        let text = decode_lossy(sanitized.as_slice());
        self.buffer.append(text.as_str());
        Some(self.render(rows, cols))
    }

    /// Ends the run: closes a partial line and returns what to write last,
    /// the final repaint followed by the sequence that shows the cursor.
    pub fn finish(&mut self, rows: usize, cols: usize) -> (painted: String)
        requires
            old(self).wf(),
        ensures
            final(self).wf(),
            final(self)@ == after_finish(old(self)@),
            painted@ == frame(final(self)@, rows, cols) + show_cursor(),
    {
        self.buffer.flush();
        let mut out = self.render(rows, cols);
        out.append("\x1b[?25h");
        proof {
            reveal_strlit("\x1b[?25h");
            assert("\x1b[?25h"@ =~= show_cursor());
        }
        out
    }

    /// The full repaint for a terminal of `rows` by `cols`.
    pub fn render(&self, rows: usize, cols: usize) -> (out: String)
        requires
            self.wf(),
        ensures
            out@ == frame(self@, rows, cols),
    {
        let header_count = self.header_lines.len();
        let body_rows: usize = if rows >= header_count {
            rows - header_count
        } else {
            0
        };
        let completed = self.buffer.line_count();
        let partial: usize = if self.buffer.current_line().is_empty() {
            0
        } else {
            1
        };
        let total = completed + partial;
        let start: usize = if total > body_rows {
            total - body_rows
        } else {
            0
        };
        let ghost header = self@.header;
        let ghost body = body_lines(self@.scroll);
        let ghost visible = visible_lines(self@, rows);
        proof {
            assert(body.len() == total);
            assert(visible =~= body.subrange(start as int, total as int));
        }
        let mut out = String::from_str("\x1b[H");
        proof {
            reveal_strlit("\x1b[H");
            assert("\x1b[H"@ =~= cursor_home());
            assert(out@ =~= cursor_home() + frame_rows(header.take(0), cols));
        }
        let mut i: usize = 0;
        while i < header_count
            invariant
                i <= header_count,
                header_count == self.header_lines@.len(),
                header == line_views(self.header_lines@),
                out@ == cursor_home() + frame_rows(header.take(i as int), cols),
            decreases header_count - i,
        {
            proof {
                assert(header.take(i + 1).drop_last() =~= header.take(i as int));
                assert(header.take(i + 1).last() == self.header_lines@[i as int]@);
            }
            push_row(&mut out, self.header_lines[i].as_str(), cols);
            proof {
                assert(out@ =~= cursor_home() + frame_rows(header.take(i + 1), cols));
            }
            i += 1;
        }
        proof {
            assert(header.take(header_count as int) =~= header);
            assert(out@ =~= cursor_home() + frame_rows(header, cols) + frame_rows(
                visible.take(0),
                cols,
            ));
        }
        let mut k: usize = start;
        while k < total
            invariant
                start <= k <= total,
                self.wf(),
                completed == self@.scroll.lines.len(),
                total == completed + partial,
                partial == 0 || partial == 1,
                partial == 1 <==> self@.scroll.current.len() > 0,
                body == body_lines(self@.scroll),
                visible == body.subrange(start as int, total as int),
                out@ == cursor_home() + frame_rows(header, cols) + frame_rows(
                    visible.take(k - start),
                    cols,
                ),
            decreases total - k,
        {
            proof {
                assert(visible.take(k - start + 1).drop_last() =~= visible.take(k - start));
                assert(visible.take(k - start + 1).last() == body[k as int]);
            }
            if k < completed {
                push_row(&mut out, self.buffer.line(k), cols);
            } else {
                push_row(&mut out, self.buffer.current_line(), cols);
            }
            proof {
                assert(out@ =~= cursor_home() + frame_rows(header, cols) + frame_rows(
                    visible.take(k - start + 1),
                    cols,
                ));
            }
            k += 1;
        }
        proof {
            assert(visible.take(total - start) =~= visible);
        }
        let shown = total - start;
        let mut blank: usize = shown;
        proof {
            assert(out@ =~= cursor_home() + frame_rows(header, cols) + frame_rows(visible, cols)
                + blank_rows(0));
        }
        while blank < body_rows
            invariant
                shown <= blank,
                shown <= body_rows,
                blank <= body_rows,
                out@ == cursor_home() + frame_rows(header, cols) + frame_rows(visible, cols)
                    + blank_rows((blank - shown) as nat),
            decreases body_rows - blank,
        {
            out.append("\x1b[2K");
            out.append("\n");
            proof {
                reveal_strlit("\x1b[2K");
                reveal_strlit("\n");
                assert("\x1b[2K"@ =~= clear_line());
                assert("\n"@ =~= seq![NEWLINE]);
                assert(out@ =~= cursor_home() + frame_rows(header, cols) + frame_rows(
                    visible,
                    cols,
                ) + blank_rows((blank + 1 - shown) as nat));
            }
            blank += 1;
        }
        out.append("\x1b[J");
        proof {
            reveal_strlit("\x1b[J");
            assert("\x1b[J"@ =~= clear_below());
        }
        out
    }
}

} // verus!
