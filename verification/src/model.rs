//! The mathematical model of the line transformer.
//!
//! The transformer walks over the lines of its sources in order. For each
//! line it decides from the configuration and its state whether the line is
//! emitted and whether it gets a number; the emitted lines, rendered one
//! after the other, are the output.

use vstd::prelude::*;

use crate::ascii::{CARET, DOLLAR, NEWLINE, SPACE, TAB, UPPER_I};
use crate::config::Config;
use crate::counter::decimal;
use crate::lines::{all_newline_free, lemma_split_lines_newline_free, split_lines};

verus! {

/// The width of the field that a line number is right-aligned in.
pub const NUMBER_WIDTH: usize = 6;

/// What the transformer remembers from one line to the next, across the
/// boundaries of its sources.
pub struct State {
    /// The number that the next numbered line gets.
    pub next_number: nat,
    /// Whether the line emitted last was empty.
    pub after_blank: bool,
}

/// A line that the transformer emits.
pub struct OutputLine {
    /// The line's number, where it has one.
    pub number: Option<nat>,
    /// The line's content as it was read, without terminator.
    pub content: Seq<u8>,
}

/// The state before the first line: numbering starts at one, and no empty
/// line has been emitted.
pub open spec fn initial_state() -> State {
    State { next_number: 1, after_blank: false }
}

/// Whether `line` is dropped: it is empty, it follows an emitted empty line,
/// and empty lines are squeezed.
pub open spec fn is_squeezed(config: Config, state: State, line: Seq<u8>) -> bool {
    config.squeeze_blank && line.len() == 0 && state.after_blank
}

/// Whether `line` gets a number when it is emitted. Numbering of non-empty
/// lines overrides numbering of all lines.
pub open spec fn is_numbered(config: Config, line: Seq<u8>) -> bool {
    if config.number_nonblank {
        line.len() > 0
    } else {
        config.number_all
    }
}

/// The line emitted for the input line `line`, if any.
pub open spec fn emit(config: Config, state: State, line: Seq<u8>) -> Option<OutputLine> {
    if is_squeezed(config, state, line) {
        None
    } else {
        Some(
            OutputLine {
                number: if is_numbered(config, line) {
                    Some(state.next_number)
                } else {
                    None
                },
                content: line,
            },
        )
    }
}

/// The state after the input line `line`. A dropped line leaves the state as
/// it was.
pub open spec fn advance(config: Config, state: State, line: Seq<u8>) -> State {
    if is_squeezed(config, state, line) {
        state
    } else {
        State {
            next_number: if is_numbered(config, line) {
                state.next_number + 1
            } else {
                state.next_number
            },
            after_blank: line.len() == 0,
        }
    }
}

/// The state after the input lines `lines`.
pub open spec fn advance_all(config: Config, state: State, lines: Seq<Seq<u8>>) -> State
    decreases lines.len(),
{
    if lines.len() == 0 {
        state
    } else {
        advance(config, advance_all(config, state, lines.drop_last()), lines.last())
    }
}

/// The lines emitted for the input lines `lines`, in order.
pub open spec fn emitted(config: Config, state: State, lines: Seq<Seq<u8>>) -> Seq<OutputLine>
    decreases lines.len(),
{
    if lines.len() == 0 {
        Seq::empty()
    } else {
        let before = emitted(config, state, lines.drop_last());
        match emit(config, advance_all(config, state, lines.drop_last()), lines.last()) {
            Some(line) => before.push(line),
            None => before,
        }
    }
}

/// `content` with every horizontal tab replaced by `^I`.
pub open spec fn expand_tabs(content: Seq<u8>) -> Seq<u8>
    decreases content.len(),
{
    if content.len() == 0 {
        Seq::empty()
    } else if content.last() == TAB {
        expand_tabs(content.drop_last()).push(CARET).push(UPPER_I)
    } else {
        expand_tabs(content.drop_last()).push(content.last())
    }
}

/// The content of a line as it is written.
pub open spec fn shown_content(config: Config, content: Seq<u8>) -> Seq<u8> {
    if config.show_tabs {
        expand_tabs(content)
    } else {
        content
    }
}

/// The spaces that pad a numeral of `len` digits to the width of the number
/// field. A numeral that fills the field gets none.
pub open spec fn padding(len: nat) -> Seq<u8> {
    Seq::new(
        if len < NUMBER_WIDTH {
            (NUMBER_WIDTH - len) as nat
        } else {
            0
        },
        |i: int| SPACE,
    )
}

/// The prefix of a line: its number right-aligned in the number field and
/// followed by a tab, or nothing where the line has no number.
pub open spec fn number_prefix(number: Option<nat>) -> Seq<u8> {
    match number {
        Some(n) => padding(decimal(n).len()) + decimal(n).push(TAB),
        None => Seq::empty(),
    }
}

/// What stands between the content of a line and its terminator.
pub open spec fn end_marker(config: Config) -> Seq<u8> {
    if config.show_ends {
        seq![DOLLAR]
    } else {
        Seq::empty()
    }
}

/// An emitted line as it is written, without its terminator: prefix,
/// content and end marker.
pub open spec fn line_body(config: Config, line: OutputLine) -> Seq<u8> {
    number_prefix(line.number) + shown_content(config, line.content) + end_marker(config)
}

/// The bytes written for an emitted line: its body and a line feed.
pub open spec fn render(config: Config, line: OutputLine) -> Seq<u8> {
    line_body(config, line).push(NEWLINE)
}

/// The bytes written for the emitted lines `lines`.
pub open spec fn render_all(config: Config, lines: Seq<OutputLine>) -> Seq<u8>
    decreases lines.len(),
{
    if lines.len() == 0 {
        Seq::empty()
    } else {
        render_all(config, lines.drop_last()) + render(config, lines.last())
    }
}

/// The bytes written for the input line `line`: nothing where it is dropped.
pub open spec fn line_output(config: Config, state: State, line: Seq<u8>) -> Seq<u8> {
    match emit(config, state, line) {
        Some(emitted_line) => render(config, emitted_line),
        None => Seq::empty(),
    }
}

/// The bytes written for the input lines `lines`.
pub open spec fn output(config: Config, state: State, lines: Seq<Seq<u8>>) -> Seq<u8> {
    render_all(config, emitted(config, state, lines))
}

/// The lines of all of `sources`, in order. Each source ends its last line.
pub open spec fn stream_lines(sources: Seq<Seq<u8>>) -> Seq<Seq<u8>>
    decreases sources.len(),
{
    if sources.len() == 0 {
        Seq::empty()
    } else {
        stream_lines(sources.drop_last()) + split_lines(sources.last())
    }
}

/// The output for `sources`, read in order from the initial state.
pub open spec fn concatenation(config: Config, sources: Seq<Seq<u8>>) -> Seq<u8> {
    output(config, initial_state(), stream_lines(sources))
}

/// The state after one more line is the state after the lines before it,
/// advanced by that line; the output grows by that line's output.
pub proof fn lemma_output_push(config: Config, state: State, lines: Seq<Seq<u8>>, line: Seq<u8>)
    ensures
        advance_all(config, state, lines.push(line)) == advance(
            config,
            advance_all(config, state, lines),
            line,
        ),
        output(config, state, lines.push(line)) == output(config, state, lines) + line_output(
            config,
            advance_all(config, state, lines),
            line,
        ),
{
    let longer = lines.push(line);
    assert(longer.drop_last() =~= lines);
    let before = emitted(config, state, lines);
    match emit(config, advance_all(config, state, lines), line) {
        Some(emitted_line) => {
            assert(before.push(emitted_line).drop_last() =~= before);
        },
        None => {},
    }
}

/// The lines `a` followed by the lines `b` give the state and the output
/// that `b` gives from the state after `a`, the output behind that of `a`.
pub proof fn lemma_output_concat(config: Config, state: State, a: Seq<Seq<u8>>, b: Seq<Seq<u8>>)
    ensures
        advance_all(config, state, a + b) == advance_all(
            config,
            advance_all(config, state, a),
            b,
        ),
        output(config, state, a + b) == output(config, state, a) + output(
            config,
            advance_all(config, state, a),
            b,
        ),
    decreases b.len(),
{
    let middle = advance_all(config, state, a);
    if b.len() == 0 {
        assert(a + b =~= a);
    } else {
        let front = b.drop_last();
        lemma_output_concat(config, state, a, front);
        lemma_output_push(config, state, a + front, b.last());
        lemma_output_push(config, middle, front, b.last());
        assert((a + front).push(b.last()) =~= a + b);
        assert(front.push(b.last()) =~= b);
    }
}

/// Unfolds `emitted` and `advance_all` at the last of the input lines.
pub proof fn lemma_emitted_last(config: Config, state: State, lines: Seq<Seq<u8>>)
    requires
        lines.len() > 0,
    ensures
        advance_all(config, state, lines) == advance(
            config,
            advance_all(config, state, lines.drop_last()),
            lines.last(),
        ),
        emit(config, advance_all(config, state, lines.drop_last()), lines.last()) is Some
            ==> emitted(config, state, lines) == emitted(config, state, lines.drop_last()).push(
            emit(config, advance_all(config, state, lines.drop_last()), lines.last())->0,
        ),
        emit(config, advance_all(config, state, lines.drop_last()), lines.last()) is None
            ==> emitted(config, state, lines) == emitted(config, state, lines.drop_last()),
{
}

/// No line of any source holds a line feed.
pub proof fn lemma_stream_lines_newline_free(sources: Seq<Seq<u8>>)
    ensures
        all_newline_free(stream_lines(sources)),
    decreases sources.len(),
{
    if sources.len() > 0 {
        lemma_stream_lines_newline_free(sources.drop_last());
        lemma_split_lines_newline_free(sources.last());
    }
}

} // verus!
