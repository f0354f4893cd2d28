//! Byte-level sanitizer that strips terminal control sequences from a stream.
//!
//! The sanitizer is a five-state machine. Outside an escape sequence it lets
//! printable bytes, newlines and tabs through and rewrites a carriage return
//! to a newline; everything that belongs to a CSI or OSC sequence is consumed
//! without output.

use vstd::prelude::*;

verus! {

pub const ESC: u8 = 0x1b;

pub const BEL: u8 = 0x07;

pub const TAB: u8 = 0x09;

pub const LINE_FEED: u8 = 0x0a;

pub const CARRIAGE_RETURN: u8 = 0x0d;

/// `[`, which after ESC opens a CSI sequence.
pub const CSI_INTRODUCER: u8 = 0x5b;

/// `]`, which after ESC opens an OSC sequence.
pub const OSC_INTRODUCER: u8 = 0x5d;

/// `\`, which after ESC inside an OSC sequence closes it.
pub const STRING_TERMINATOR: u8 = 0x5c;

/// Where the sanitizer stands inside (or outside) an escape sequence.
#[derive(Clone, Copy, Debug, PartialEq, Eq, Structural)]
pub enum AnsiParseState {
    Normal,
    Esc,
    Csi,
    Osc,
    OscEsc,
}

/// Printable ASCII and every high byte.
pub open spec fn is_printable(b: u8) -> bool {
    (0x20 <= b && b <= 0x7e) || b >= 0x80
}

/// The bytes that may appear in sanitized output.
pub open spec fn is_safe(b: u8) -> bool {
    is_printable(b) || b == LINE_FEED || b == TAB
}

/// The bytes that end a CSI sequence.
pub open spec fn is_csi_final(b: u8) -> bool {
    0x40 <= b && b <= 0x7e
}

/// The state after consuming `b` in `state`.
pub open spec fn next_state(state: AnsiParseState, b: u8) -> AnsiParseState {
    match state {
        AnsiParseState::Normal => if b == ESC {
            AnsiParseState::Esc
        } else {
            AnsiParseState::Normal
        },
        AnsiParseState::Esc => if b == CSI_INTRODUCER {
            AnsiParseState::Csi
        } else if b == OSC_INTRODUCER {
            AnsiParseState::Osc
        } else {
            AnsiParseState::Normal
        },
        AnsiParseState::Csi => if is_csi_final(b) {
            AnsiParseState::Normal
        } else {
            AnsiParseState::Csi
        },
        AnsiParseState::Osc => if b == BEL {
            AnsiParseState::Normal
        } else if b == ESC {
            AnsiParseState::OscEsc
        } else {
            AnsiParseState::Osc
        },
        AnsiParseState::OscEsc => if b == STRING_TERMINATOR {
            AnsiParseState::Normal
        } else {
            AnsiParseState::Osc
        },
    }
}

/// What consuming `b` in `state` appends to the output: nothing or one byte.
pub open spec fn emitted(state: AnsiParseState, b: u8) -> Seq<u8> {
    if state == AnsiParseState::Normal {
        if b == CARRIAGE_RETURN {
            seq![LINE_FEED]
        } else if is_safe(b) {
            seq![b]
        } else {
            Seq::empty()
        }
    } else {
        Seq::empty()
    }
}

/// The state after consuming all of `bytes`, starting in `state`.
pub open spec fn state_after(state: AnsiParseState, bytes: Seq<u8>) -> AnsiParseState
    decreases bytes.len(),
{
    if bytes.len() == 0 {
        state
    } else {
        next_state(state_after(state, bytes.drop_last()), bytes.last())
    }
}

/// The output of consuming all of `bytes`, starting in `state`.
pub open spec fn sanitize_from(state: AnsiParseState, bytes: Seq<u8>) -> Seq<u8>
    decreases bytes.len(),
{
    if bytes.len() == 0 {
        Seq::empty()
    } else {
        sanitize_from(state, bytes.drop_last()) + emitted(
            state_after(state, bytes.drop_last()),
            bytes.last(),
        )
    }
}

/// A carriage return becomes a line feed; every other byte stays.
pub open spec fn fold_carriage_return(b: u8) -> u8 {
    if b == CARRIAGE_RETURN {
        LINE_FEED
    } else {
        b
    }
}

/// The sanitizer: one parse state, carried from chunk to chunk.
pub struct AnsiSanitizer {
    pub state: AnsiParseState,
}

impl AnsiSanitizer {
    /// A sanitizer outside any escape sequence.
    pub fn new() -> (s: Self)
        ensures
            s.state == AnsiParseState::Normal,
    {
        AnsiSanitizer { state: AnsiParseState::Normal }
    }

    /// Consumes one byte: moves the state on and appends to `out` what the
    /// byte emits.
    pub fn consume_byte(&mut self, b: u8, out: &mut Vec<u8>)
        ensures
            final(self).state == next_state(old(self).state, b),
            final(out)@ == old(out)@ + emitted(old(self).state, b),
    {
        match self.state {
            AnsiParseState::Normal => {
                if b == ESC {
                    self.state = AnsiParseState::Esc;
                } else if b == CARRIAGE_RETURN {
                    out.push(LINE_FEED);
                } else if b == LINE_FEED || b == TAB {
                    out.push(b);
                } else if (0x20 <= b && b <= 0x7e) || b >= 0x80 {
                    out.push(b);
                }
            },
            AnsiParseState::Esc => {
                if b == CSI_INTRODUCER {
                    self.state = AnsiParseState::Csi;
                } else if b == OSC_INTRODUCER {
                    self.state = AnsiParseState::Osc;
                } else {
                    self.state = AnsiParseState::Normal;
                }
            },
            AnsiParseState::Csi => {
                if 0x40 <= b && b <= 0x7e {
                    self.state = AnsiParseState::Normal;
                }
            },
            AnsiParseState::Osc => {
                if b == BEL {
                    self.state = AnsiParseState::Normal;
                } else if b == ESC {
                    self.state = AnsiParseState::OscEsc;
                }
            },
            AnsiParseState::OscEsc => {
                if b == STRING_TERMINATOR {
                    self.state = AnsiParseState::Normal;
                } else {
                    self.state = AnsiParseState::Osc;
                }
            },
        }
        assert(final(out)@ =~= old(out)@ + emitted(old(self).state, b));
    }

    /// Consumes a whole chunk and returns what it emits.
    pub fn sanitize(&mut self, chunk: &[u8]) -> (out: Vec<u8>)
        ensures
            out@ == sanitize_from(old(self).state, chunk@),
            final(self).state == state_after(old(self).state, chunk@),
            forall|i: int| 0 <= i < out@.len() ==> is_safe(#[trigger] out@[i]),
    {
        let mut out: Vec<u8> = Vec::new();
        let mut i: usize = 0;
        while i < chunk.len()
            invariant
                i <= chunk.len(),
                out@ == sanitize_from(old(self).state, chunk@.take(i as int)),
                self.state == state_after(old(self).state, chunk@.take(i as int)),
            decreases chunk.len() - i,
        {
            proof {
                assert(chunk@.take(i + 1).drop_last() =~= chunk@.take(i as int));
            }
            self.consume_byte(chunk[i], &mut out);
            i += 1;
        }
        proof {
            assert(chunk@.take(i as int) =~= chunk@);
            lemma_output_is_safe(old(self).state, chunk@);
        }
        out
    }
}

/// Feeding `a` and then `b` gives the same state and the same output as
/// feeding their concatenation at once: chunk boundaries do not matter.
pub proof fn lemma_sanitize_concat(state: AnsiParseState, a: Seq<u8>, b: Seq<u8>)
    ensures
        state_after(state, a + b) == state_after(state_after(state, a), b),
        sanitize_from(state, a + b) == sanitize_from(state, a) + sanitize_from(
            state_after(state, a),
            b,
        ),
    decreases b.len(),
{
    if b.len() == 0 {
        assert(a + b =~= a);
    } else {
        lemma_sanitize_concat(state, a, b.drop_last());
        assert((a + b).drop_last() =~= a + b.drop_last());
        assert((a + b).last() == b.last());
    }
}

/// Sanitized output holds only printable bytes, line feeds and tabs: no
/// escape byte and no carriage return ever passes.
pub proof fn lemma_output_is_safe(state: AnsiParseState, bytes: Seq<u8>)
    ensures
        forall|i: int|
            0 <= i < sanitize_from(state, bytes).len() ==> is_safe(
                #[trigger] sanitize_from(state, bytes)[i],
            ),
    decreases bytes.len(),
{
    if bytes.len() > 0 {
        lemma_output_is_safe(state, bytes.drop_last());
        let front = sanitize_from(state, bytes.drop_last());
        let tail = emitted(state_after(state, bytes.drop_last()), bytes.last());
        assert forall|i: int| 0 <= i < sanitize_from(state, bytes).len() implies is_safe(
            #[trigger] sanitize_from(state, bytes)[i],
        ) by {
            if i < front.len() {
                assert(sanitize_from(state, bytes)[i] == front[i]);
            } else {
                assert(sanitize_from(state, bytes)[i] == tail[i - front.len()]);
            }
        }
    }
}

/// Feeding a single byte is one step of the machine.
pub proof fn lemma_single_byte(state: AnsiParseState, b: u8)
    ensures
        state_after(state, seq![b]) == next_state(state, b),
        sanitize_from(state, seq![b]) == emitted(state, b),
{
    assert(seq![b].drop_last() =~= Seq::<u8>::empty());
    assert(state_after(state, Seq::<u8>::empty()) == state);
    assert(sanitize_from(state, Seq::<u8>::empty()) =~= Seq::<u8>::empty());
    assert(sanitize_from(state, seq![b]) =~= emitted(state, b));
}

/// A run of text with no control byte other than line feed, tab and carriage
/// return passes through with each carriage return rewritten to a line feed,
/// and leaves the sanitizer outside any escape sequence.
pub proof fn lemma_text_passes(bytes: Seq<u8>)
    requires
        forall|i: int|
            0 <= i < bytes.len() ==> is_safe(#[trigger] bytes[i]) || bytes[i] == CARRIAGE_RETURN,
    ensures
        state_after(AnsiParseState::Normal, bytes) == AnsiParseState::Normal,
        sanitize_from(AnsiParseState::Normal, bytes) == bytes.map_values(
            |b: u8| fold_carriage_return(b),
        ),
    decreases bytes.len(),
{
    let folded = bytes.map_values(|b: u8| fold_carriage_return(b));
    if bytes.len() == 0 {
        assert(sanitize_from(AnsiParseState::Normal, bytes) =~= folded);
    } else {
        let front = bytes.drop_last();
        assert forall|i: int| 0 <= i < front.len() implies is_safe(#[trigger] front[i]) || front[i]
            == CARRIAGE_RETURN by {
            assert(front[i] == bytes[i]);
        }
        lemma_text_passes(front);
        assert(is_safe(bytes[bytes.len() - 1]) || bytes[bytes.len() - 1] == CARRIAGE_RETURN);
        assert(sanitize_from(AnsiParseState::Normal, bytes) =~= folded);
    }
}

/// Parameter and intermediate bytes keep the sanitizer inside a CSI sequence
/// and emit nothing.
pub proof fn lemma_csi_parameters_consumed(params: Seq<u8>)
    requires
        forall|i: int| 0 <= i < params.len() ==> !is_csi_final(#[trigger] params[i]),
    ensures
        state_after(AnsiParseState::Csi, params) == AnsiParseState::Csi,
        sanitize_from(AnsiParseState::Csi, params) == Seq::<u8>::empty(),
    decreases params.len(),
{
    if params.len() > 0 {
        let front = params.drop_last();
        assert forall|i: int| 0 <= i < front.len() implies !is_csi_final(#[trigger] front[i]) by {
            assert(front[i] == params[i]);
        }
        lemma_csi_parameters_consumed(front);
        assert(!is_csi_final(params[params.len() - 1]));
    }
}

/// The bytes of a CSI sequence: ESC, `[`, the parameters, and the final byte.
pub open spec fn csi_sequence(params: Seq<u8>, last: u8) -> Seq<u8> {
    seq![ESC, CSI_INTRODUCER] + params + seq![last]
}

/// A complete CSI sequence met outside any escape sequence is removed whole:
/// it emits nothing and leaves the sanitizer outside any escape sequence.
pub proof fn lemma_csi_sequence_removed(params: Seq<u8>, last: u8)
    requires
        forall|i: int| 0 <= i < params.len() ==> !is_csi_final(#[trigger] params[i]),
        is_csi_final(last),
    ensures
        state_after(AnsiParseState::Normal, csi_sequence(params, last)) == AnsiParseState::Normal,
        sanitize_from(AnsiParseState::Normal, csi_sequence(params, last)) == Seq::<u8>::empty(),
{
    let intro = seq![ESC, CSI_INTRODUCER];
    lemma_single_byte(AnsiParseState::Normal, ESC);
    assert(intro.drop_last() =~= seq![ESC]);
    assert(state_after(AnsiParseState::Normal, intro) == AnsiParseState::Csi);
    assert(sanitize_from(AnsiParseState::Normal, intro) =~= Seq::<u8>::empty());
    lemma_csi_parameters_consumed(params);
    lemma_sanitize_concat(AnsiParseState::Normal, intro, params);
    let body = intro + params;
    assert(csi_sequence(params, last).drop_last() =~= body);
    assert(csi_sequence(params, last).last() == last);
    assert(sanitize_from(AnsiParseState::Normal, csi_sequence(params, last)) =~= Seq::<
        u8,
    >::empty());
}

/// Text around a CSI sequence stays intact: where `before` leaves the
/// sanitizer outside any escape sequence, the output for `before`, the
/// sequence and `after` in a row is the output for `before` followed by the
/// output for `after`.
pub proof fn lemma_csi_sequence_between_text(
    before: Seq<u8>,
    params: Seq<u8>,
    last: u8,
    after: Seq<u8>,
)
    requires
        state_after(AnsiParseState::Normal, before) == AnsiParseState::Normal,
        forall|i: int| 0 <= i < params.len() ==> !is_csi_final(#[trigger] params[i]),
        is_csi_final(last),
    ensures
        sanitize_from(AnsiParseState::Normal, before + csi_sequence(params, last) + after)
            == sanitize_from(AnsiParseState::Normal, before) + sanitize_from(
            AnsiParseState::Normal,
            after,
        ),
        state_after(AnsiParseState::Normal, before + csi_sequence(params, last) + after)
            == state_after(AnsiParseState::Normal, after),
{
    let sequence = csi_sequence(params, last);
    lemma_csi_sequence_removed(params, last);
    lemma_sanitize_concat(AnsiParseState::Normal, before, sequence);
    lemma_sanitize_concat(AnsiParseState::Normal, before + sequence, after);
    assert(sanitize_from(AnsiParseState::Normal, before) + Seq::<u8>::empty() =~= sanitize_from(
        AnsiParseState::Normal,
        before,
    ));
}

/// Payload bytes other than BEL and ESC keep the sanitizer inside an OSC
/// sequence and emit nothing.
pub proof fn lemma_osc_payload_consumed(payload: Seq<u8>)
    requires
        forall|i: int|
            0 <= i < payload.len() ==> #[trigger] payload[i] != BEL && payload[i] != ESC,
    ensures
        state_after(AnsiParseState::Osc, payload) == AnsiParseState::Osc,
        sanitize_from(AnsiParseState::Osc, payload) == Seq::<u8>::empty(),
    decreases payload.len(),
{
    if payload.len() > 0 {
        let front = payload.drop_last();
        assert forall|i: int| 0 <= i < front.len() implies #[trigger] front[i] != BEL && front[i]
            != ESC by {
            assert(front[i] == payload[i]);
        }
        lemma_osc_payload_consumed(front);
        assert(payload[payload.len() - 1] != BEL && payload[payload.len() - 1] != ESC);
    }
}

/// The two terminators of an OSC sequence: BEL, or ESC followed by `\`.
pub open spec fn is_osc_terminator(end: Seq<u8>) -> bool {
    end == seq![BEL] || end == seq![ESC, STRING_TERMINATOR]
}

/// The bytes of an OSC sequence: ESC, `]`, the payload, and the terminator.
pub open spec fn osc_sequence(payload: Seq<u8>, end: Seq<u8>) -> Seq<u8> {
    seq![ESC, OSC_INTRODUCER] + payload + end
}

/// A complete OSC sequence met outside any escape sequence, ended by BEL or
/// by ESC `\`, is removed whole.
pub proof fn lemma_osc_sequence_removed(payload: Seq<u8>, end: Seq<u8>)
    requires
        forall|i: int|
            0 <= i < payload.len() ==> #[trigger] payload[i] != BEL && payload[i] != ESC,
        is_osc_terminator(end),
    ensures
        state_after(AnsiParseState::Normal, osc_sequence(payload, end)) == AnsiParseState::Normal,
        sanitize_from(AnsiParseState::Normal, osc_sequence(payload, end)) == Seq::<u8>::empty(),
{
    let intro = seq![ESC, OSC_INTRODUCER];
    lemma_single_byte(AnsiParseState::Normal, ESC);
    assert(intro.drop_last() =~= seq![ESC]);
    assert(state_after(AnsiParseState::Normal, intro) == AnsiParseState::Osc);
    assert(sanitize_from(AnsiParseState::Normal, intro) =~= Seq::<u8>::empty());
    lemma_osc_payload_consumed(payload);
    lemma_sanitize_concat(AnsiParseState::Normal, intro, payload);
    let body = intro + payload;
    assert(state_after(AnsiParseState::Normal, body) == AnsiParseState::Osc);
    assert(sanitize_from(AnsiParseState::Normal, body) =~= Seq::<u8>::empty());
    if end == seq![BEL] {
        lemma_single_byte(AnsiParseState::Osc, BEL);
    } else {
        lemma_single_byte(AnsiParseState::Osc, ESC);
        assert(end.drop_last() =~= seq![ESC]);
        assert(state_after(AnsiParseState::Osc, end) == AnsiParseState::Normal);
        assert(sanitize_from(AnsiParseState::Osc, end) =~= Seq::<u8>::empty());
    }
    lemma_sanitize_concat(AnsiParseState::Normal, body, end);
    assert(sanitize_from(AnsiParseState::Normal, osc_sequence(payload, end)) =~= Seq::<
        u8,
    >::empty());
}

/// Text around an OSC sequence stays intact, as around a CSI sequence.
pub proof fn lemma_osc_sequence_between_text(
    before: Seq<u8>,
    payload: Seq<u8>,
    end: Seq<u8>,
    after: Seq<u8>,
)
    requires
        state_after(AnsiParseState::Normal, before) == AnsiParseState::Normal,
        forall|i: int|
            0 <= i < payload.len() ==> #[trigger] payload[i] != BEL && payload[i] != ESC,
        is_osc_terminator(end),
    ensures
        sanitize_from(AnsiParseState::Normal, before + osc_sequence(payload, end) + after)
            == sanitize_from(AnsiParseState::Normal, before) + sanitize_from(
            AnsiParseState::Normal,
            after,
        ),
        state_after(AnsiParseState::Normal, before + osc_sequence(payload, end) + after)
            == state_after(AnsiParseState::Normal, after),
{
    let sequence = osc_sequence(payload, end);
    lemma_osc_sequence_removed(payload, end);
    lemma_sanitize_concat(AnsiParseState::Normal, before, sequence);
    lemma_sanitize_concat(AnsiParseState::Normal, before + sequence, after);
    assert(sanitize_from(AnsiParseState::Normal, before) + Seq::<u8>::empty() =~= sanitize_from(
        AnsiParseState::Normal,
        before,
    ));
}

/// Sanitized output is clean: a second sanitizer, outside any escape
/// sequence, lets all of it through unchanged.
pub proof fn lemma_sanitized_output_is_stable(state: AnsiParseState, bytes: Seq<u8>)
    ensures
        sanitize_from(AnsiParseState::Normal, sanitize_from(state, bytes)) == sanitize_from(
            state,
            bytes,
        ),
        state_after(AnsiParseState::Normal, sanitize_from(state, bytes)) == AnsiParseState::Normal,
{
    let out = sanitize_from(state, bytes);
    lemma_output_is_safe(state, bytes);
    lemma_text_passes(out);
    assert(out.map_values(|b: u8| fold_carriage_return(b)) =~= out);
}

} // verus!
