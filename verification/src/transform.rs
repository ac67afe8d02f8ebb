//! The line transformer: executable code that writes what the model says.

use vstd::prelude::*;

use crate::ascii::{CARET, DOLLAR, NEWLINE, SPACE, TAB, UPPER_I};
use crate::config::Config;
use crate::counter::{decimal, LineCounter};
use crate::lines::{after_first_line, line_end, split_lines};
use crate::model::{
    advance, advance_all, concatenation, expand_tabs, initial_state, lemma_output_concat,
    lemma_output_push, line_output, number_prefix, output, stream_lines, State, NUMBER_WIDTH,
};

verus! {

/// The state of a transformer: the line counter and whether the line
/// emitted last was empty. One state serves all sources of an invocation.
#[derive(Debug, PartialEq, Eq)]
pub struct TransformerState {
    counter: LineCounter,
    after_blank: bool,
}

impl View for TransformerState {
    type V = State;

    closed spec fn view(&self) -> State {
        State { next_number: self.counter.value(), after_blank: self.after_blank }
    }
}

impl TransformerState {
    /// Creates the state before the first line.
    pub fn new() -> (state: TransformerState)
        ensures
            state@ == initial_state(),
    {
        TransformerState { counter: LineCounter::new(), after_blank: false }
    }

    /// Whether the line emitted last was empty. While this holds and empty
    /// lines are squeezed, further empty lines are dropped.
    pub fn after_blank(&self) -> (after_blank: bool)
        ensures
            after_blank == self@.after_blank,
    {
        self.after_blank
    }

    /// The decimal notation of the number that the next numbered line gets.
    pub fn next_number(&self) -> (digits: &[u8])
        ensures
            digits@ == decimal(self@.next_number),
    {
        self.counter.digits()
    }
}

/// The contents of `sources` as sequences of bytes.
pub open spec fn contents(sources: Seq<Vec<u8>>) -> Seq<Seq<u8>> {
    sources.map_values(|source: Vec<u8>| source@)
}

/// Appends `bytes` to `out`.
fn write_bytes(bytes: &[u8], out: &mut Vec<u8>)
    ensures
        final(out)@ == old(out)@ + bytes@,
{
    out.extend_from_slice(bytes);
}

/// Appends `content` to `out` with every horizontal tab shown as `^I`.
pub fn write_visible_tabs(content: &[u8], out: &mut Vec<u8>)
    ensures
        final(out)@ == old(out)@ + expand_tabs(content@),
{
    let mut i: usize = 0;
    while i < content.len()
        invariant
            i <= content@.len(),
            out@ == old(out)@ + expand_tabs(content@.take(i as int)),
        decreases content@.len() - i,
    {
        let byte: u8 = content[i];
        if byte == TAB {
            out.push(CARET);
            out.push(UPPER_I);
        } else {
            out.push(byte);
        }
        i = i + 1;
        proof {
            let head = content@.take(i as int);
            assert(head.drop_last() =~= content@.take(i - 1));
        }
    }
    assert(content@.take(i as int) =~= content@);
}

/// Appends to `out` the prefix of a line with the number that `counter`
/// stands at.
fn write_number(counter: &LineCounter, out: &mut Vec<u8>)
    ensures
        final(out)@ == old(out)@ + number_prefix(Some(counter.value())),
{
    let digits = counter.digits();
    let mut width: usize = digits.len();
    let ghost pad = 0nat;
    while width < NUMBER_WIDTH
        invariant
            digits@.len() <= width,
            width == digits@.len() + pad,
            width <= NUMBER_WIDTH || pad == 0,
            out@ == old(out)@ + Seq::new(pad, |i: int| SPACE),
        decreases NUMBER_WIDTH - width,
    {
        out.push(SPACE);
        width = width + 1;
        proof {
            pad = pad + 1;
        }
    }
    write_bytes(digits, out);
    out.push(TAB);
}

/// Passes one line through the transformer: appends to `out` what is
/// written for the line `line`, given without its terminator, and moves
/// `state` on.
pub fn print_line(line: &[u8], config: &Config, state: &mut TransformerState, out: &mut Vec<u8>)
    ensures
        final(state)@ == advance(*config, old(state)@, line@),
        final(out)@ == old(out)@ + line_output(*config, old(state)@, line@),
{
    let blank = line.len() == 0;
    if config.squeeze_blank && blank && state.after_blank {
        return ;
    }
    let numbered = if config.number_nonblank {
        !blank
    } else {
        config.number_all
    };
    if numbered {
        write_number(&state.counter, out);
        state.counter.increment();
    }
    if config.show_tabs {
        write_visible_tabs(line, out);
    } else {
        write_bytes(line, out);
    }
    if config.show_ends {
        out.push(DOLLAR);
    }
    out.push(NEWLINE);
    state.after_blank = blank;
}

/// Passes one source through the transformer: appends to `out` what is
/// written for the lines of `source`, and moves `state` on.
pub fn print_lines(
    source: &[u8],
    config: &Config,
    state: &mut TransformerState,
    out: &mut Vec<u8>,
)
    ensures
        final(state)@ == advance_all(*config, old(state)@, split_lines(source@)),
        final(out)@ == old(out)@ + output(*config, old(state)@, split_lines(source@)),
{
    let ghost mut done: Seq<Seq<u8>> = Seq::empty();
    let mut start: usize = 0;
    assert(source@.skip(0) =~= source@);
    while start < source.len()
        invariant
            start <= source@.len(),
            split_lines(source@) == done + split_lines(source@.skip(start as int)),
            state@ == advance_all(*config, old(state)@, done),
            out@ == old(out)@ + output(*config, old(state)@, done),
        decreases source@.len() - start,
    {
        let end = line_end(source, start);
        let line = vstd::slice::slice_subrange(source, start, end);
        let ghost rest = source@.skip(start as int);
        print_line(line, config, state, out);
        proof {
            assert(rest.take(end - start) =~= line@);
            if end < source@.len() {
                assert(rest.skip(end - start + 1) =~= source@.skip(end + 1));
            }
            lemma_output_push(*config, old(state)@, done, line@);
            assert(done + (seq![line@] + split_lines(after_first_line(rest))) =~= done.push(line@)
                + split_lines(after_first_line(rest)));
            done = done.push(line@);
        }
        start = if end < source.len() {
            end + 1
        } else {
            end
        };
    }
}

/// Passes all of `sources` through one transformer, in order and from the
/// initial state, and returns what is written.
pub fn concatenate(sources: &Vec<Vec<u8>>, config: &Config) -> (out: Vec<u8>)
    ensures
        out@ == concatenation(*config, contents(sources@)),
{
    let mut state = TransformerState::new();
    let mut out: Vec<u8> = Vec::new();
    let ghost all = contents(sources@);
    let mut i: usize = 0;
    while i < sources.len()
        invariant
            i <= sources@.len(),
            all == contents(sources@),
            state@ == advance_all(*config, initial_state(), stream_lines(all.take(i as int))),
            out@ == output(*config, initial_state(), stream_lines(all.take(i as int))),
        decreases sources@.len() - i,
    {
        let ghost read = stream_lines(all.take(i as int));
        print_lines(sources[i].as_slice(), config, &mut state, &mut out);
        proof {
            let longer = all.take(i + 1);
            assert(longer.drop_last() =~= all.take(i as int));
            lemma_output_concat(*config, initial_state(), read, split_lines(sources@[i as int]@));
        }
        i = i + 1;
    }
    assert(all.take(i as int) =~= all);
    out
}

} // verus!
