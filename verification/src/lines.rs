//! Division of a byte stream into lines.
//!
//! A line is the longest run of bytes up to, but not including, the next
//! line feed or the end of the stream. A stream that does not end in a line
//! feed therefore ends in a line without terminator, and the empty stream
//! has no line at all.

use vstd::prelude::*;

use crate::ascii::NEWLINE;

verus! {

/// The number of bytes of `s` before its first line feed, or the length of
/// `s` where it holds none.
pub open spec fn line_len(s: Seq<u8>) -> nat
    decreases s.len(),
{
    if s.len() == 0 || s[0] == NEWLINE {
        0
    } else {
        1 + line_len(s.skip(1))
    }
}

/// What is left of `s` behind its first line and that line's terminator.
pub open spec fn after_first_line(s: Seq<u8>) -> Seq<u8> {
    if line_len(s) < s.len() {
        s.skip(line_len(s) as int + 1)
    } else {
        Seq::empty()
    }
}

/// The lines of the stream `s`, in order and without their terminators.
pub open spec fn split_lines(s: Seq<u8>) -> Seq<Seq<u8>>
    decreases s.len(),
{
    if s.len() == 0 {
        Seq::empty()
    } else {
        seq![s.take(line_len(s) as int)] + split_lines(after_first_line(s))
    }
}

/// Whether `s` holds no line feed.
pub open spec fn newline_free(s: Seq<u8>) -> bool {
    forall|i: int| 0 <= i < s.len() ==> #[trigger] s[i] != NEWLINE
}

/// Whether none of `lines` holds a line feed.
pub open spec fn all_newline_free(lines: Seq<Seq<u8>>) -> bool {
    forall|i: int| 0 <= i < lines.len() ==> newline_free(#[trigger] lines[i])
}

/// The stream that holds each of `lines` followed by a line feed.
pub open spec fn join_lines(lines: Seq<Seq<u8>>) -> Seq<u8>
    decreases lines.len(),
{
    if lines.len() == 0 {
        Seq::empty()
    } else {
        join_lines(lines.drop_last()) + lines.last().push(NEWLINE)
    }
}

/// The stream `s`, with a line feed added where its last line has none.
pub open spec fn terminated(s: Seq<u8>) -> Seq<u8> {
    if s.len() == 0 || s.last() == NEWLINE {
        s
    } else {
        s.push(NEWLINE)
    }
}

/// The streams `sources` one after the other, each with a line feed added
/// where its last line has none.
pub open spec fn terminated_all(sources: Seq<Seq<u8>>) -> Seq<u8>
    decreases sources.len(),
{
    if sources.len() == 0 {
        Seq::empty()
    } else {
        terminated_all(sources.drop_last()) + terminated(sources.last())
    }
}

/// `line_len(s)` is the index of the first line feed of `s`, or the length
/// of `s`.
pub proof fn lemma_line_len(s: Seq<u8>)
    ensures
        line_len(s) <= s.len(),
        newline_free(s.take(line_len(s) as int)),
        line_len(s) < s.len() ==> s[line_len(s) as int] == NEWLINE,
    decreases s.len(),
{
    if s.len() > 0 && s[0] != NEWLINE {
        let rest = s.skip(1);
        lemma_line_len(rest);
        let n = line_len(s) as int;
        assert forall|i: int| 0 <= i < n implies #[trigger] s.take(n)[i] != NEWLINE by {
            if i > 0 {
                assert(s.take(n)[i] == rest.take(n - 1)[i - 1]);
            }
        }
    }
}

/// An index that no line feed precedes, and that is the end of `s` or holds
/// a line feed, is `line_len(s)`.
pub proof fn lemma_line_len_is(s: Seq<u8>, k: int)
    requires
        0 <= k <= s.len(),
        forall|i: int| 0 <= i < k ==> s[i] != NEWLINE,
        k < s.len() ==> s[k] == NEWLINE,
    ensures
        line_len(s) == k,
    decreases s.len(),
{
    if s.len() > 0 && s[0] != NEWLINE {
        let rest = s.skip(1);
        assert forall|i: int| 0 <= i < k - 1 implies rest[i] != NEWLINE by {
            assert(rest[i] == s[i + 1]);
        }
        lemma_line_len_is(rest, k - 1);
    }
}

/// No line of a stream holds a line feed.
pub proof fn lemma_split_lines_newline_free(s: Seq<u8>)
    ensures
        all_newline_free(split_lines(s)),
    decreases s.len(),
{
    if s.len() > 0 {
        lemma_line_len(s);
        lemma_split_lines_newline_free(after_first_line(s));
        let first = s.take(line_len(s) as int);
        let rest = split_lines(after_first_line(s));
        assert forall|i: int| 0 <= i < split_lines(s).len() implies newline_free(
            #[trigger] split_lines(s)[i],
        ) by {
            if i > 0 {
                assert(split_lines(s)[i] == rest[i - 1]);
            } else {
                assert(split_lines(s)[0] == first);
            }
        }
    }
}

/// Joining distributes over concatenation.
pub proof fn lemma_join_lines_concat(a: Seq<Seq<u8>>, b: Seq<Seq<u8>>)
    ensures
        join_lines(a + b) == join_lines(a) + join_lines(b),
    decreases b.len(),
{
    if b.len() == 0 {
        assert(a + b =~= a);
    } else {
        lemma_join_lines_concat(a, b.drop_last());
        assert((a + b).drop_last() =~= a + b.drop_last());
    }
}

/// Splitting a stream into lines and terminating each of them gives the
/// stream back, but for the terminator that its last line may have lacked.
pub proof fn lemma_join_split(s: Seq<u8>)
    ensures
        join_lines(split_lines(s)) == terminated(s),
    decreases s.len(),
{
    if s.len() > 0 {
        lemma_line_len(s);
        let n = line_len(s) as int;
        let first = s.take(n);
        let rest = after_first_line(s);
        lemma_join_split(rest);
        lemma_join_lines_concat(seq![first], split_lines(rest));
        assert(join_lines(seq![first].drop_last()) =~= Seq::<u8>::empty());
        assert(join_lines(seq![first]) =~= first.push(NEWLINE));
        if n < s.len() {
            assert(s =~= first.push(NEWLINE) + rest);
        } else {
            assert(s =~= first);
        }
    }
}

/// A stream that ends in a line feed, or is empty, can be cut off from what
/// follows it: the lines of both together are the lines of the one followed
/// by the lines of the other.
pub proof fn lemma_split_lines_concat(head: Seq<u8>, tail: Seq<u8>)
    requires
        head.len() == 0 || head.last() == NEWLINE,
    ensures
        split_lines(head + tail) == split_lines(head) + split_lines(tail),
    decreases head.len(),
{
    let whole = head + tail;
    if head.len() == 0 {
        assert(whole =~= tail);
    } else {
        lemma_line_len(head);
        let n = line_len(head) as int;
        assert(n < head.len()) by {
            if n == head.len() {
                assert(head.take(n)[n - 1] == head.last());
            }
        }
        assert forall|i: int| 0 <= i < n implies whole[i] != NEWLINE by {
            assert(head.take(n)[i] == whole[i]);
        }
        lemma_line_len_is(whole, n);
        let rest = after_first_line(head);
        assert(whole.take(n) =~= head.take(n));
        assert(after_first_line(whole) =~= rest + tail);
        lemma_split_lines_concat(rest, tail);
    }
}

/// The end of the line of `src` that starts at `start`: the index of the
/// next line feed, or the length of `src`.
pub(crate) fn line_end(src: &[u8], start: usize) -> (end: usize)
    requires
        start <= src@.len(),
    ensures
        end == start + line_len(src@.skip(start as int)),
        end <= src@.len(),
{
    let mut end: usize = start;
    while end < src.len() && src[end] != NEWLINE
        invariant
            start <= end <= src@.len(),
            forall|i: int| start <= i < end ==> src@[i] != NEWLINE,
        decreases src@.len() - end,
    {
        end = end + 1;
    }
    proof {
        lemma_line_len_is(src@.skip(start as int), end - start);
    }
    end
}

} // verus!
