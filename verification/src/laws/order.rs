//! Laws on which lines are emitted and in which order.

use vstd::prelude::*;

use crate::ascii::NEWLINE;
use crate::config::Config;
use crate::lines::{lemma_split_lines_concat, split_lines};
use crate::model::{
    advance_all, emit, emitted, lemma_emitted_last, lemma_output_concat, output, OutputLine, State,
};

verus! {

/// The content of every emitted line is one of the input lines.
pub proof fn lemma_emitted_contents(config: Config, state: State, lines: Seq<Seq<u8>>)
    ensures
        forall|i: int|
            0 <= i < emitted(config, state, lines).len() ==> lines.contains(
                (#[trigger] emitted(config, state, lines)[i]).content,
            ),
        emitted(config, state, lines).len() <= lines.len(),
    decreases lines.len(),
{
    if lines.len() > 0 {
        let front = lines.drop_last();
        lemma_emitted_contents(config, state, front);
        lemma_emitted_last(config, state, lines);
        assert forall|i: int| 0 <= i < emitted(config, state, lines).len() implies lines.contains(
            (#[trigger] emitted(config, state, lines)[i]).content,
        ) by {
            if i < emitted(config, state, front).len() {
                let content = emitted(config, state, front)[i].content;
                assert(front.contains(content));
                let j = choose|j: int| 0 <= j < front.len() && front[j] == content;
                assert(lines[j] == content);
            } else {
                assert(lines[lines.len() - 1] == lines.last());
            }
        }
    }
}

/// The contents of the emitted lines `lines`.
pub open spec fn contents_of(lines: Seq<OutputLine>) -> Seq<Seq<u8>> {
    lines.map_values(|line: OutputLine| line.content)
}

/// The test for a line that is not empty.
pub open spec fn is_nonempty() -> spec_fn(Seq<u8>) -> bool {
    |line: Seq<u8>| line.len() > 0
}

/// Without squeezing, every input line is emitted, in the order of the
/// input.
pub proof fn lemma_unsqueezed_emits_every_line(config: Config, state: State, lines: Seq<Seq<u8>>)
    requires
        !config.squeeze_blank,
    ensures
        contents_of(emitted(config, state, lines)) == lines,
    decreases lines.len(),
{
    if lines.len() > 0 {
        let front = lines.drop_last();
        lemma_unsqueezed_emits_every_line(config, state, front);
        lemma_emitted_last(config, state, lines);
        assert(contents_of(emitted(config, state, front)).push(lines.last()) =~= lines);
    }
    assert(contents_of(emitted(config, state, lines)) =~= lines);
}

/// Whatever the configuration, the lines that are not empty are all
/// emitted, in the order of the input.
pub proof fn lemma_nonempty_lines_are_kept(config: Config, state: State, lines: Seq<Seq<u8>>)
    ensures
        contents_of(emitted(config, state, lines)).filter(is_nonempty()) == lines.filter(
            is_nonempty(),
        ),
    decreases lines.len(),
{
    if lines.len() > 0 {
        let front = lines.drop_last();
        let line = lines.last();
        let before = contents_of(emitted(config, state, front));
        lemma_nonempty_lines_are_kept(config, state, front);
        lemma_emitted_last(config, state, lines);
        assert(front.push(line) =~= lines);
        front.lemma_filter_push(line, is_nonempty());
        before.lemma_filter_push(line, is_nonempty());
        match emit(config, advance_all(config, state, front), line) {
            Some(emitted_line) => {
                assert(contents_of(emitted(config, state, lines)) =~= before.push(line));
            },
            None => {},
        }
    } else {
        assert(contents_of(emitted(config, state, lines)) =~= lines);
    }
}

/// A source may be passed through the transformer in pieces: where `head`
/// is empty or ends in a line feed, `head` and then `tail` give the state
/// and the output that both give together.
pub proof fn lemma_output_in_pieces(config: Config, state: State, head: Seq<u8>, tail: Seq<u8>)
    requires
        head.len() == 0 || head.last() == NEWLINE,
    ensures
        advance_all(config, state, split_lines(head + tail)) == advance_all(
            config,
            advance_all(config, state, split_lines(head)),
            split_lines(tail),
        ),
        output(config, state, split_lines(head + tail)) == output(
            config,
            state,
            split_lines(head),
        ) + output(config, advance_all(config, state, split_lines(head)), split_lines(tail)),
{
    lemma_split_lines_concat(head, tail);
    lemma_output_concat(config, state, split_lines(head), split_lines(tail));
}

} // verus!
