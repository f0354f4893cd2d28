//! Forwarding a child's output: which of its two streams a chunk came from,
//! and what to write for it, on a terminal or into a pipe.
//!
//! The forwarder is a state machine. The driver reads the two streams, hands
//! each chunk over in the order of arrival, and writes what comes back.

use crate::ansi::{sanitize_from, AnsiParseState};
use crate::render::{
    after_chunk, after_finish, enter_screen, frame, show_cursor, PinnedOutputRenderer,
    RendererView,
};
use crate::scroll::line_views;
use vstd::prelude::*;

verus! {

/// How many bytes a reader asks of its stream at a time.
pub const READ_CHUNK_LEN: usize = 8192;

/// The two output streams of a child process.
#[derive(Clone, Copy, Debug, PartialEq, Eq, Structural)]
pub enum OutputStream {
    Stdout,
    Stderr,
}

/// What the driver is to write.
pub enum Emission {
    /// Text for the terminal: a repaint of the whole screen.
    Screen(String),
    /// The child's own bytes, for the stream they came from.
    Raw { stream: OutputStream, bytes: Vec<u8> },
}

/// What an emission holds.
pub enum EmissionView {
    Screen(Seq<char>),
    Raw { stream: OutputStream, bytes: Seq<u8> },
}

impl View for Emission {
    type V = EmissionView;

    open spec fn view(&self) -> EmissionView {
        match self {
            Emission::Screen(text) => EmissionView::Screen(text@),
            Emission::Raw { stream, bytes } => EmissionView::Raw { stream: *stream, bytes: bytes@ },
        }
    }
}

/// How output is forwarded: through the pinned renderer, or untouched.
pub enum Forwarder {
    Pinned(PinnedOutputRenderer),
    Passthrough,
}

/// What a forwarder holds.
pub enum ForwarderView {
    Pinned(RendererView),
    Passthrough,
}

impl View for Forwarder {
    type V = ForwarderView;

    open spec fn view(&self) -> ForwarderView {
        match self {
            Forwarder::Pinned(renderer) => ForwarderView::Pinned(renderer@),
            Forwarder::Passthrough => ForwarderView::Passthrough,
        }
    }
}

/// The views of an optional header.
pub open spec fn header_view(header: Option<Vec<String>>) -> Option<Seq<Seq<char>>> {
    match header {
        Some(lines) => Some(line_views(lines@)),
        None => None,
    }
}

/// The renderer is used only where there is a header to pin and the output
/// is an interactive terminal.
pub open spec fn uses_renderer(header: Option<Seq<Seq<char>>>, interactive: bool) -> bool {
    header is Some && interactive
}

impl Forwarder {
    /// The invariant of the forwarder: that of its renderer, if it has one.
    pub open spec fn wf(&self) -> bool {
        match self {
            Forwarder::Pinned(renderer) => renderer.wf(),
            Forwarder::Passthrough => true,
        }
    }

    /// Chooses how to forward, and says what to write first: with a header
    /// and an interactive terminal, the renderer's opening; else nothing.
    pub fn start(header: Option<Vec<String>>, interactive: bool, rows: usize, cols: usize) -> (started:
        (Self, Option<Emission>))
        ensures
            started.0.wf(),
            uses_renderer(header_view(header), interactive) ==> {
                &&& started.0@ matches ForwarderView::Pinned(v)
                &&& v.header == header_view(header)->0
                &&& v.state == AnsiParseState::Normal
                &&& v.scroll.lines == Seq::<Seq<char>>::empty()
                &&& v.scroll.current == Seq::<char>::empty()
                &&& started.1 matches Some(e)
                &&& e@ == EmissionView::Screen(enter_screen() + frame(v, rows, cols))
            },
            !uses_renderer(header_view(header), interactive) ==> {
                &&& started.0@ == ForwarderView::Passthrough
                &&& started.1 is None
            },
    {
        match header {
            Some(lines) => {
                if interactive {
                    let (renderer, opening) = PinnedOutputRenderer::new(lines, rows, cols);
                    (Forwarder::Pinned(renderer), Some(Emission::Screen(opening)))
                } else {
                    (Forwarder::Passthrough, None)
                }
            },
            None => (Forwarder::Passthrough, None),
        }
    }

    /// Takes one chunk, in the order of arrival. Without the renderer the
    /// chunk goes out as it came, to the stream it came from. With it, the
    /// chunk from either stream joins the one view, and what goes out is the
    /// repaint, or nothing where the chunk left no text.
    pub fn on_chunk(&mut self, stream: OutputStream, chunk: Vec<u8>, rows: usize, cols: usize) -> (out:
        Option<Emission>)
        requires
            old(self).wf(),
        ensures
            final(self).wf(),
            old(self)@ == ForwarderView::Passthrough ==> {
                &&& final(self)@ == ForwarderView::Passthrough
                &&& out matches Some(e)
                &&& e@ == EmissionView::Raw { stream, bytes: chunk@ }
            },
            old(self)@ matches ForwarderView::Pinned(before) ==> {
                &&& final(self)@ matches ForwarderView::Pinned(after)
                &&& after == after_chunk(before, chunk@)
                &&& sanitize_from(before.state, chunk@).len() == 0 ==> out is None
                &&& sanitize_from(before.state, chunk@).len() > 0 ==> {
                    &&& out matches Some(e)
                    &&& e@ == EmissionView::Screen(frame(after, rows, cols))
                }
            },
    {
        match self {
            Forwarder::Pinned(renderer) => {
                match renderer.push_chunk(chunk.as_slice(), rows, cols) {
                    Some(painted) => Some(Emission::Screen(painted)),
                    None => None,
                }
            },
            Forwarder::Passthrough => Some(Emission::Raw { stream, bytes: chunk }),
        }
    }

    /// Ends the run once both streams are closed. With the renderer, what
    /// goes out is the last repaint and the sequence that shows the cursor
    /// again; without it, nothing.
    pub fn on_end(&mut self, rows: usize, cols: usize) -> (out: Option<Emission>)
        requires
            old(self).wf(),
        ensures
            final(self).wf(),
            old(self)@ == ForwarderView::Passthrough ==> {
                &&& final(self)@ == ForwarderView::Passthrough
                &&& out is None
            },
            old(self)@ matches ForwarderView::Pinned(before) ==> {
                &&& final(self)@ matches ForwarderView::Pinned(after)
                &&& after == after_finish(before)
                &&& out matches Some(e)
                &&& e@ == EmissionView::Screen(frame(after, rows, cols) + show_cursor())
            },
    {
        match self {
            Forwarder::Pinned(renderer) => Some(Emission::Screen(renderer.finish(rows, cols))),
            Forwarder::Passthrough => None,
        }
    }
}

/// The name of a stream in messages.
pub open spec fn stream_label(stream: OutputStream) -> Seq<char> {
    match stream {
        OutputStream::Stdout => "stdout"@,
        OutputStream::Stderr => "stderr"@,
    }
}

/// `failed to capture child ` and the stream's name.
pub open spec fn capture_failure_message(stream: OutputStream) -> Seq<char> {
    "failed to capture child "@ + stream_label(stream)
}

/// `failed reading child `, the stream's name, a colon, and the error.
pub open spec fn reader_failure_message(stream: OutputStream, detail: Seq<char>) -> Seq<char> {
    "failed reading child "@ + stream_label(stream) + ": "@ + detail
}

/// `output forwarder task failed: ` and the error.
pub open spec fn forwarder_failure_message(detail: Seq<char>) -> Seq<char> {
    "output forwarder task failed: "@ + detail
}

impl OutputStream {
    /// The name of the stream in messages.
    pub fn label(self) -> (name: &'static str)
        ensures
            name@ == stream_label(self),
    {
        match self {
            OutputStream::Stdout => "stdout",
            OutputStream::Stderr => "stderr",
        }
    }
}

/// The message for a stream of the child that could not be had.
pub fn capture_failure(stream: OutputStream) -> (message: String)
    ensures
        message@ == capture_failure_message(stream),
{
    let mut message = String::from_str("failed to capture child ");
    message.append(stream.label());
    message
}

/// The message for a read that failed, which names the stream.
pub fn reader_failure(stream: OutputStream, detail: &str) -> (message: String)
    ensures
        message@ == reader_failure_message(stream, detail@),
{
    let mut message = String::from_str("failed reading child ");
    message.append(stream.label());
    message.append(": ");
    message.append(detail);
    message
}

/// The message for a reader that did not run to its end.
pub fn forwarder_failure(detail: &str) -> (message: String)
    ensures
        message@ == forwarder_failure_message(detail@),
{
    let mut message = String::from_str("output forwarder task failed: ");
    message.append(detail);
    message
}

/// How a run has ended, once both readers and the child have been waited
/// for: the first reader's error, else the second reader's, else what the
/// wait for the child gave.
pub open spec fn settled<T, E>(
    stdout_reader: Result<(), E>,
    stderr_reader: Result<(), E>,
    exit: Result<T, E>,
) -> Result<T, E> {
    match stdout_reader {
        Err(e) => Err(e),
        Ok(_) => match stderr_reader {
            Err(e) => Err(e),
            Ok(_) => exit,
        },
    }
}

/// Settles how a run has ended. A reader's error is the run's error, the
/// primary stream's before the secondary's; with both readers well, the
/// child's exit decides.
pub fn settle<T, E>(
    stdout_reader: Result<(), E>,
    stderr_reader: Result<(), E>,
    exit: Result<T, E>,
) -> (verdict: Result<T, E>)
    ensures
        verdict == settled(stdout_reader, stderr_reader, exit),
{
    match stdout_reader {
        Err(e) => Err(e),
        Ok(_) => match stderr_reader {
            Err(e) => Err(e),
            Ok(_) => exit,
        },
    }
}

} // verus!
