//! Laws of the transformer with every option off: it copies its input.

use vstd::prelude::*;

use crate::ascii::NEWLINE;
use crate::config::Config;
use crate::lines::{
    join_lines, lemma_join_lines_concat, lemma_join_split, split_lines, terminated, terminated_all,
};
use crate::model::{
    concatenation, initial_state, lemma_output_push, output, render, stream_lines, OutputLine,
    State,
};

verus! {

/// With every option off, each line is written as it was read and followed
/// by a line feed, whatever the state.
pub proof fn lemma_plain_output(state: State, lines: Seq<Seq<u8>>)
    ensures
        output(Config::plain(), state, lines) == join_lines(lines),
    decreases lines.len(),
{
    if lines.len() > 0 {
        let front = lines.drop_last();
        let line = lines.last();
        lemma_plain_output(state, front);
        lemma_output_push(Config::plain(), state, front, line);
        assert(front.push(line) =~= lines);
        let written = OutputLine { number: None, content: line };
        assert(render(Config::plain(), written) =~= line.push(NEWLINE));
    }
}

/// With every option off, the output for a source is the source itself,
/// with a line feed added where its last line has none.
pub proof fn lemma_plain_source(state: State, source: Seq<u8>)
    ensures
        output(Config::plain(), state, split_lines(source)) == terminated(source),
{
    lemma_plain_output(state, split_lines(source));
    lemma_join_split(source);
}

/// The lines of several sources, each terminated, are the sources one after
/// the other, each with its last line terminated.
pub proof fn lemma_join_stream_lines(sources: Seq<Seq<u8>>)
    ensures
        join_lines(stream_lines(sources)) == terminated_all(sources),
    decreases sources.len(),
{
    if sources.len() > 0 {
        lemma_join_stream_lines(sources.drop_last());
        lemma_join_lines_concat(stream_lines(sources.drop_last()), split_lines(sources.last()));
        lemma_join_split(sources.last());
    }
}

/// With every option off, the output is the concatenation of the sources,
/// but that a source whose last line has no terminator gets one.
pub proof fn lemma_plain_concatenation(sources: Seq<Seq<u8>>)
    ensures
        concatenation(Config::plain(), sources) == terminated_all(sources),
{
    lemma_plain_output(initial_state(), stream_lines(sources));
    lemma_join_stream_lines(sources);
}

/// Terminated sources one after the other are empty or end in a line feed.
pub proof fn lemma_terminated_all_ends(sources: Seq<Seq<u8>>)
    ensures
        terminated(terminated_all(sources)) == terminated_all(sources),
    decreases sources.len(),
{
    if sources.len() > 0 {
        lemma_terminated_all_ends(sources.drop_last());
        let front = terminated_all(sources.drop_last());
        let last = terminated(sources.last());
        if last.len() == 0 {
            assert(front + last =~= front);
        } else {
            assert((front + last).last() == NEWLINE);
        }
    }
}

/// Running the transformer with every option off on its own such output
/// gives the same bytes again.
pub proof fn lemma_plain_is_idempotent(sources: Seq<Seq<u8>>)
    ensures
        concatenation(Config::plain(), seq![concatenation(Config::plain(), sources)])
            == concatenation(Config::plain(), sources),
{
    let once = concatenation(Config::plain(), sources);
    lemma_plain_concatenation(sources);
    lemma_plain_concatenation(seq![once]);
    lemma_terminated_all_ends(sources);
    assert(seq![once].drop_last() =~= Seq::<Seq<u8>>::empty());
    assert(terminated_all(seq![once].drop_last()) =~= Seq::<u8>::empty());
    assert(terminated_all(seq![once]) =~= terminated(once));
}

} // verus!
