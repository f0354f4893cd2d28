//! Text helpers: shortening a string for display, clamping a line to the
//! terminal width, and writing a number in decimal.

use vstd::prelude::*;
use vstd::utf8::*;

verus! {

/// Maximum display length for a single task description in the summary.
pub const MAX_DISPLAY_LEN: usize = 60;

/// Maximum display length for the current-task header.
pub const MAX_CURRENT_TASK_LEN: usize = 120;

/// The three-character marker that stands for what was cut off.
pub open spec fn ellipsis() -> Seq<char> {
    seq!['.', '.', '.']
}

/// The length of `s` in bytes of UTF-8, which is what `str::len` counts.
pub open spec fn byte_len(s: Seq<char>) -> nat {
    encode_utf8(s).len()
}

/// `s` can be shortened to `max_len` bytes: the limit has no room for more
/// than the marker, or `s` fits already, or the cut, three bytes before the
/// limit, falls between two characters.
pub open spec fn truncates_cleanly(s: Seq<char>, max_len: usize) -> bool {
    max_len < 3 || byte_len(s) <= max_len || is_char_boundary(encode_utf8(s), max_len - 3)
}

/// `s` shortened for display. A limit below 3 has room for nothing but the
/// marker, which then stands for any string. Else `s` is unchanged where it
/// fits in `max_len` bytes, and otherwise is its first `max_len - 3` bytes
/// followed by the ellipsis.
pub open spec fn truncated(s: Seq<char>, max_len: usize) -> Seq<char> {
    if max_len < 3 {
        ellipsis()
    } else if byte_len(s) <= max_len {
        s
    } else {
        decode_utf8(encode_utf8(s).subrange(0, max_len - 3)) + ellipsis()
    }
}

/// `line` clamped to `max_cols` characters: unchanged where it fits, a run of
/// dots where the width has no room for more than the marker, else its first
/// `max_cols - 3` characters followed by the ellipsis.
pub open spec fn fitted(line: Seq<char>, max_cols: usize) -> Seq<char> {
    if line.len() <= max_cols {
        line
    } else if max_cols <= 3 {
        Seq::new(max_cols as nat, |i: int| '.')
    } else {
        line.subrange(0, max_cols - 3) + ellipsis()
    }
}

/// The character for a decimal digit.
pub open spec fn digit_char(d: nat) -> char {
    if d == 0 {
        '0'
    } else if d == 1 {
        '1'
    } else if d == 2 {
        '2'
    } else if d == 3 {
        '3'
    } else if d == 4 {
        '4'
    } else if d == 5 {
        '5'
    } else if d == 6 {
        '6'
    } else if d == 7 {
        '7'
    } else if d == 8 {
        '8'
    } else {
        '9'
    }
}

/// `n` written in decimal, without sign and without leading zeros.
pub open spec fn decimal(n: nat) -> Seq<char>
    decreases n,
{
    if n < 10 {
        seq![digit_char(n)]
    } else {
        decimal(n / 10).push(digit_char(n % 10))
    }
}

/// Encoding distributes over concatenation.
pub proof fn lemma_encode_concat(a: Seq<char>, b: Seq<char>)
    ensures
        encode_utf8(a + b) == encode_utf8(a) + encode_utf8(b),
    decreases a.len(),
{
    if a.len() == 0 {
        assert(a + b =~= b);
        assert(encode_utf8(a) + encode_utf8(b) =~= encode_utf8(b));
    } else {
        lemma_encode_concat(a.drop_first(), b);
        assert((a + b).drop_first() =~= a.drop_first() + b);
        assert((a + b)[0] == a[0]);
        assert(encode_utf8(a + b) =~= encode_utf8(a) + encode_utf8(b));
    }
}

/// The ellipsis is three bytes long.
pub proof fn lemma_ellipsis_bytes()
    ensures
        byte_len(ellipsis()) == 3,
{
    assert(is_ascii_chars(ellipsis()));
    is_ascii_chars_encode_utf8(ellipsis());
}

/// For `max_len >= 3`, a string that fits in `max_len` bytes is returned
/// unchanged; any other comes back exactly `max_len` bytes long and ends in
/// the ellipsis.
pub proof fn lemma_truncated_length(s: Seq<char>, max_len: usize)
    requires
        max_len >= 3,
        truncates_cleanly(s, max_len),
    ensures
        byte_len(s) <= max_len ==> truncated(s, max_len) == s,
        byte_len(s) > max_len ==> {
            let t = truncated(s, max_len);
            &&& byte_len(t) == max_len
            &&& t.len() >= 3
            &&& t.subrange(t.len() - 3, t.len() as int) == ellipsis()
        },
{
    if byte_len(s) > max_len {
        let bytes = encode_utf8(s);
        let head_bytes = bytes.subrange(0, max_len - 3);
        let head = decode_utf8(head_bytes);
        let t = truncated(s, max_len);
        encode_utf8_valid_utf8(s);
        valid_utf8_split(bytes, max_len - 3);
        decode_utf8_encode_utf8(head_bytes);
        lemma_encode_concat(head, ellipsis());
        lemma_ellipsis_bytes();
        assert(t.subrange(t.len() - 3, t.len() as int) =~= ellipsis());
    }
}

/// With a limit below 3 every string can be shortened, and every string,
/// whether it fits or not, comes back as exactly the ellipsis.
pub proof fn lemma_truncated_without_room(s: Seq<char>, max_len: usize)
    requires
        max_len < 3,
    ensures
        truncates_cleanly(s, max_len),
        truncated(s, max_len) == ellipsis(),
{
}

/// A clamped line is never wider than the terminal.
pub proof fn lemma_fitted_within_width(line: Seq<char>, max_cols: usize)
    ensures
        fitted(line, max_cols).len() <= max_cols,
        line.len() <= max_cols ==> fitted(line, max_cols) == line,
        line.len() > max_cols ==> fitted(line, max_cols).len() == max_cols,
{
}

/// Whether `s` can be shortened to `max_len` bytes without cutting a
/// character in two.
pub fn can_truncate(s: &str, max_len: usize) -> (ok: bool)
    ensures
        ok == truncates_cleanly(s@, max_len),
{
    if max_len < 3 || s.as_bytes().len() <= max_len {
        true
    } else {
        s.is_char_boundary(max_len - 3)
    }
}

/// Truncate a string for display, appending "..." if it exceeds `max_len`
/// bytes. Below a limit of 3 the result is the marker alone.
pub fn truncate_display(s: &str, max_len: usize) -> (out: String)
    requires
        truncates_cleanly(s@, max_len),
    ensures
        out@ == truncated(s@, max_len),
        max_len < 3 ==> out@ == ellipsis(),
        max_len >= 3 && byte_len(s@) <= max_len ==> out@ == s@,
        max_len >= 3 && byte_len(s@) > max_len ==> byte_len(out@) == max_len,
{
    proof {
        reveal_strlit("...");
        assert("..."@ =~= ellipsis());
    }
    if max_len < 3 {
        String::from_str("...")
    } else if s.as_bytes().len() <= max_len {
        s.to_owned()
    } else {
        let (head, _rest) = s.split_at(max_len - 3);
        let mut out = String::from_str(head);
        out.append("...");
        proof {
            encode_utf8_decode_utf8(head@);
            lemma_truncated_length(s@, max_len);
        }
        out
    }
}

/// Clamps a line to the terminal width, counted in characters.
pub fn fit_terminal_line(line: &str, max_cols: usize) -> (out: String)
    ensures
        out@ == fitted(line@, max_cols),
        out@.len() <= max_cols,
{
    if max_cols == 0 {
        let out = String::new();
        assert(out@ =~= fitted(line@, max_cols));
        return out;
    }
    let total_chars = line.unicode_len();
    if total_chars <= max_cols {
        return line.to_owned();
    }
    if max_cols <= 3 {
        let mut out = String::new();
        let mut i: usize = 0;
        while i < max_cols
            invariant
                i <= max_cols,
                out@ == Seq::new(i as nat, |k: int| '.'),
            decreases max_cols - i,
        {
            out.append(".");
            proof {
                reveal_strlit(".");
                assert(out@ =~= Seq::new((i + 1) as nat, |k: int| '.'));
            }
            i += 1;
        }
        return out;
    }
    let head = line.substring_char(0, max_cols - 3);
    let mut out = String::from_str(head);
    out.append("...");
    proof {
        reveal_strlit("...");
        assert("..."@ =~= ellipsis());
    }
    out
}

/// The one-character string for a decimal digit.
fn digit_str(d: usize) -> (s: &'static str)
    requires
        d < 10,
    ensures
        s@ == seq![digit_char(d as nat)],
{
    proof {
        reveal_strlit("0");
        reveal_strlit("1");
        reveal_strlit("2");
        reveal_strlit("3");
        reveal_strlit("4");
        reveal_strlit("5");
        reveal_strlit("6");
        reveal_strlit("7");
        reveal_strlit("8");
        reveal_strlit("9");
    }
    let s = if d == 0 {
        "0"
    } else if d == 1 {
        "1"
    } else if d == 2 {
        "2"
    } else if d == 3 {
        "3"
    } else if d == 4 {
        "4"
    } else if d == 5 {
        "5"
    } else if d == 6 {
        "6"
    } else if d == 7 {
        "7"
    } else if d == 8 {
        "8"
    } else {
        "9"
    };
    assert(s@ =~= seq![digit_char(d as nat)]);
    s
}

/// Appends `n`, written in decimal, to `out`.
pub fn push_decimal(out: &mut String, n: usize)
    ensures
        final(out)@ == old(out)@ + decimal(n as nat),
    decreases n,
{
    if n < 10 {
        out.append(digit_str(n));
    } else {
        push_decimal(out, n / 10);
        out.append(digit_str(n % 10));
        assert(final(out)@ =~= old(out)@ + decimal(n as nat));
    }
}

} // verus!
