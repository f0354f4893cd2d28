//! Prompts from a text file: one prompt per line that holds anything but
//! white space.

use crate::scroll::{line_views, NEWLINE};
use vstd::prelude::*;

verus! {

/// The characters with the Unicode property White_Space.
pub open spec fn is_whitespace(c: char) -> bool {
    let u = c as u32;
    ||| 0x09 <= u <= 0x0d
    ||| u == 0x20
    ||| u == 0x85
    ||| u == 0xa0
    ||| u == 0x1680
    ||| 0x2000 <= u <= 0x200a
    ||| u == 0x2028
    ||| u == 0x2029
    ||| u == 0x202f
    ||| u == 0x205f
    ||| u == 0x3000
}

/// `s` without the white space that leads it.
pub open spec fn trim_start(s: Seq<char>) -> Seq<char>
    decreases s.len(),
{
    if s.len() > 0 && is_whitespace(s[0]) {
        trim_start(s.drop_first())
    } else {
        s
    }
}

/// `s` without the white space that ends it.
pub open spec fn trim_end(s: Seq<char>) -> Seq<char>
    decreases s.len(),
{
    if s.len() > 0 && is_whitespace(s.last()) {
        trim_end(s.drop_last())
    } else {
        s
    }
}

/// `s` without white space at either end.
pub open spec fn trimmed(s: Seq<char>) -> Seq<char> {
    trim_end(trim_start(s))
}

/// The pieces of `text` between its line feeds: one more than it has line
/// feeds.
pub open spec fn segments(text: Seq<char>) -> Seq<Seq<char>>
    decreases text.len(),
{
    if text.len() == 0 {
        seq![Seq::empty()]
    } else {
        let front = segments(text.drop_last());
        if text.last() == NEWLINE {
            front.push(Seq::empty())
        } else {
            front.drop_last().push(front.last().push(text.last()))
        }
    }
}

/// The pieces trimmed, without those that trimming leaves empty.
pub open spec fn kept(pieces: Seq<Seq<char>>) -> Seq<Seq<char>>
    decreases pieces.len(),
{
    if pieces.len() == 0 {
        Seq::empty()
    } else {
        let front = kept(pieces.drop_last());
        let piece = trimmed(pieces.last());
        if piece.len() > 0 {
            front.push(piece)
        } else {
            front
        }
    }
}

/// The prompts that `text` holds: its lines, trimmed, the empty ones left
/// out.
pub open spec fn prompts_of(text: Seq<char>) -> Seq<Seq<char>> {
    kept(segments(text))
}

/// There is always at least one piece.
pub proof fn lemma_segments_nonempty(text: Seq<char>)
    ensures
        segments(text).len() > 0,
    decreases text.len(),
{
    if text.len() > 0 {
        lemma_segments_nonempty(text.drop_last());
    }
}

/// Where the first `start` characters are white space and the next is not,
/// trimming the start cuts exactly those.
pub proof fn lemma_trim_start_at(s: Seq<char>, start: int)
    requires
        0 <= start <= s.len(),
        forall|j: int| 0 <= j < start ==> is_whitespace(#[trigger] s[j]),
        start == s.len() || !is_whitespace(s[start]),
    ensures
        trim_start(s) == s.subrange(start, s.len() as int),
    decreases start,
{
    if start == 0 {
        assert(s.subrange(0, s.len() as int) =~= s);
    } else {
        let rest = s.drop_first();
        assert(is_whitespace(s[0]));
        assert forall|j: int| 0 <= j < start - 1 implies is_whitespace(#[trigger] rest[j]) by {
            assert(rest[j] == s[j + 1]);
        }
        lemma_trim_start_at(rest, start - 1);
        assert(rest.subrange(start - 1, rest.len() as int) =~= s.subrange(start, s.len() as int));
    }
}

/// Where everything from `end` on is white space and the character before
/// is not, trimming the end cuts exactly that.
pub proof fn lemma_trim_end_at(s: Seq<char>, end: int)
    requires
        0 <= end <= s.len(),
        forall|j: int| end <= j < s.len() ==> is_whitespace(#[trigger] s[j]),
        end == 0 || !is_whitespace(s[end - 1]),
    ensures
        trim_end(s) == s.subrange(0, end),
    decreases s.len() - end,
{
    if end == s.len() {
        assert(s.subrange(0, end) =~= s);
    } else {
        let front = s.drop_last();
        assert(is_whitespace(s[s.len() - 1]));
        assert forall|j: int| end <= j < front.len() implies is_whitespace(#[trigger] front[j]) by {
            assert(front[j] == s[j]);
        }
        lemma_trim_end_at(front, end);
        assert(front.subrange(0, end) =~= s.subrange(0, end));
    }
}

/// Whether `c` has the Unicode property White_Space.
pub fn is_whitespace_char(c: char) -> (ws: bool)
    ensures
        ws == is_whitespace(c),
{
    let u = c as u32;
    (0x09 <= u && u <= 0x0d) || u == 0x20 || u == 0x85 || u == 0xa0 || u == 0x1680 || (0x2000 <= u
        && u <= 0x200a) || u == 0x2028 || u == 0x2029 || u == 0x202f || u == 0x205f || u
        == 0x3000
}

/// `s` without white space at either end.
pub fn trim_text(s: &str) -> (out: String)
    ensures
        out@ == trimmed(s@),
{
    let len = s.unicode_len();
    let mut found = false;
    let mut start: usize = 0;
    let mut end: usize = 0;
    let mut i: usize = 0;
    for c in it: s.chars()
        invariant
            it.seq() == s@,
            len == s@.len(),
            i == it.index(),
            i <= len,
            !found ==> forall|j: int| 0 <= j < i ==> is_whitespace(#[trigger] s@[j]),
            found ==> {
                &&& start < end <= i
                &&& !is_whitespace(s@[start as int])
                &&& !is_whitespace(s@[end - 1])
                &&& forall|j: int| 0 <= j < start ==> is_whitespace(#[trigger] s@[j])
                &&& forall|j: int| end <= j < i ==> is_whitespace(#[trigger] s@[j])
            },
    {
        if !is_whitespace_char(c) {
            if !found {
                found = true;
                start = i;
            }
            end = i + 1;
        }
        i += 1;
    }
    if !found {
        proof {
            lemma_trim_start_at(s@, len as int);
            assert(s@.subrange(len as int, len as int) =~= Seq::<char>::empty());
            assert(trim_end(Seq::<char>::empty()) =~= Seq::<char>::empty());
        }
        let out = String::new();
        return out;
    }
    proof {
        lemma_trim_start_at(s@, start as int);
        let tail = s@.subrange(start as int, len as int);
        assert forall|j: int| end - start <= j < tail.len() implies is_whitespace(
            #[trigger] tail[j],
        ) by {
            assert(tail[j] == s@[j + start]);
        }
        assert(tail[end - start - 1] == s@[end - 1]);
        lemma_trim_end_at(tail, end - start);
        assert(tail.subrange(0, end - start) =~= s@.subrange(start as int, end as int));
    }
    s.substring_char(start, end).to_owned()
}

/// Reads the prompts that a text holds: one for each line that is not
/// empty once the white space at its ends is cut.
pub fn prompts_from_text(content: &str) -> (prompts: Vec<String>)
    ensures
        line_views(prompts@) == prompts_of(content@),
{
    let mut prompts: Vec<String> = Vec::new();
    let mut piece = String::new();
    proof {
        assert(segments(content@.take(0)) =~= seq![Seq::<char>::empty()]);
        assert(segments(content@.take(0)).drop_last() =~= Seq::<Seq<char>>::empty());
        assert(line_views(prompts@) =~= kept(Seq::<Seq<char>>::empty()));
    }
    for c in it: content.chars()
        invariant
            it.seq() == content@,
            segments(content@.take(it.index() as int)).len() > 0,
            piece@ == segments(content@.take(it.index() as int)).last(),
            line_views(prompts@) == kept(segments(content@.take(it.index() as int)).drop_last()),
    {
        let ghost read = content@.take(it.index() as int);
        let ghost pieces = segments(read);
        let ghost longer = content@.take(it.index() + 1);
        proof {
            assert(longer.drop_last() =~= read);
            assert(longer.last() == c);
            lemma_segments_nonempty(longer);
        }
        if c == NEWLINE {
            let prompt = trim_text(piece.as_str());
            if prompt.as_str().unicode_len() > 0 {
                let ghost before = prompts@;
                prompts.push(prompt);
                proof {
                    assert(line_views(before.push(prompt)) =~= line_views(before).push(prompt@));
                }
            }
            piece = String::new();
            proof {
                assert(segments(longer) == pieces.push(Seq::<char>::empty()));
                assert(segments(longer).drop_last() =~= pieces);
                assert(pieces.drop_last().push(pieces.last()) =~= pieces);
            }
        } else {
            piece.push(c);
            proof {
                assert(segments(longer) == pieces.drop_last().push(pieces.last().push(c)));
                assert(segments(longer).drop_last() =~= pieces.drop_last());
            }
        }
    }
    let ghost pieces = segments(content@);
    proof {
        assert(content@.take(content@.len() as int) =~= content@);
        assert(pieces.drop_last().push(pieces.last()) =~= pieces);
    }
    let prompt = trim_text(piece.as_str());
    if prompt.as_str().unicode_len() > 0 {
        let ghost before = prompts@;
        prompts.push(prompt);
        proof {
            assert(line_views(before.push(prompt)) =~= line_views(before).push(prompt@));
        }
    }
    prompts
}

} // verus!
