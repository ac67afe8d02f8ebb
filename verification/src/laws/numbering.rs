//! Laws of line numbering.

use vstd::prelude::*;

use crate::config::Config;
use crate::model::{
    advance_all, emit, emitted, initial_state, is_numbered, lemma_emitted_last, output,
    render_all, stream_lines, OutputLine, State,
};

verus! {

/// Whether each of `lines` has a number exactly where `config` numbers its
/// content.
pub open spec fn numbered_by(config: Config, lines: Seq<OutputLine>) -> bool {
    forall|i: int|
        0 <= i < lines.len() ==> ((#[trigger] lines[i]).number is Some <==> is_numbered(
            config,
            lines[i].content,
        ))
}

/// Whether each of `lines` has a number exactly where it is not empty.
pub open spec fn numbered_where_nonempty(lines: Seq<OutputLine>) -> bool {
    forall|i: int|
        0 <= i < lines.len() ==> ((#[trigger] lines[i]).number is Some <==> lines[i].content.len()
            > 0)
}

/// Whether every number among `lines` is at least `low` and less than
/// `high`.
pub open spec fn numbers_within(lines: Seq<OutputLine>, low: nat, high: nat) -> bool {
    forall|i: int|
        0 <= i < lines.len() && (#[trigger] lines[i]).number is Some ==> low
            <= lines[i].number->0 < high
}

/// Whether every number among `lines` is greater than all numbers before
/// it.
pub open spec fn numbers_increase(lines: Seq<OutputLine>) -> bool {
    forall|i: int, j: int|
        0 <= i < j < lines.len() && (#[trigger] lines[i]).number is Some && (
        #[trigger] lines[j]).number is Some ==> lines[i].number->0 < lines[j].number->0
}

/// Whether `lines` carry the numbers `first`, `first + 1`, `first + 2` and
/// so on, every line one of them.
pub open spec fn numbers_count_from(lines: Seq<OutputLine>, first: nat) -> bool {
    forall|i: int| 0 <= i < lines.len() ==> (#[trigger] lines[i]).number == Some((first + i) as nat)
}

/// The test for an emitted line that has a number.
pub open spec fn has_number() -> spec_fn(OutputLine) -> bool {
    |line: OutputLine| line.number is Some
}

/// The numbers that `lines` carry, in order.
pub open spec fn numbers_of(lines: Seq<OutputLine>) -> Seq<nat> {
    lines.filter(has_number()).map_values(|line: OutputLine| line.number->0)
}

/// The `len` numbers `first`, `first + 1`, `first + 2` and so on.
pub open spec fn count_from(first: nat, len: nat) -> Seq<nat> {
    Seq::new(len, |k: int| (first + k) as nat)
}

/// An emitted line has a number exactly where the configuration numbers
/// its content. The numbers lie between the state's next number and that
/// of the state after the lines, and each is greater than those before it.
pub proof fn lemma_numbers_increase(config: Config, state: State, lines: Seq<Seq<u8>>)
    ensures
        state.next_number <= advance_all(config, state, lines).next_number,
        numbered_by(config, emitted(config, state, lines)),
        numbers_within(
            emitted(config, state, lines),
            state.next_number,
            advance_all(config, state, lines).next_number,
        ),
        numbers_increase(emitted(config, state, lines)),
    decreases lines.len(),
{
    if lines.len() > 0 {
        lemma_numbers_increase(config, state, lines.drop_last());
        lemma_emitted_last(config, state, lines);
    }
}

/// Whatever the configuration, the numbers that the emitted lines carry
/// are the state's next number and those that follow it, in order and
/// without a gap: from the initial state 1, 2, 3 and so on. The state's
/// next number goes up by their count.
pub proof fn lemma_numbers_have_no_gap(config: Config, state: State, lines: Seq<Seq<u8>>)
    ensures
        numbers_of(emitted(config, state, lines)) == count_from(
            state.next_number,
            numbers_of(emitted(config, state, lines)).len(),
        ),
        advance_all(config, state, lines).next_number == state.next_number + numbers_of(
            emitted(config, state, lines),
        ).len(),
    decreases lines.len(),
{
    let all = emitted(config, state, lines);
    if lines.len() > 0 {
        let front = lines.drop_last();
        let before = emitted(config, state, front);
        lemma_numbers_have_no_gap(config, state, front);
        lemma_emitted_last(config, state, lines);
        match emit(config, advance_all(config, state, front), lines.last()) {
            Some(line) => {
                before.lemma_filter_push(line, has_number());
                if line.number is Some {
                    assert(numbers_of(all) =~= numbers_of(before).push(line.number->0));
                }
            },
            None => {},
        }
    } else {
        all.lemma_filter_len(has_number());
    }
    assert(numbers_of(all) =~= count_from(state.next_number, numbers_of(all).len()));
}

/// Where every line is numbered, the emitted lines carry consecutive
/// numbers from the state's next number on, each line one of them.
pub proof fn lemma_number_all_counts_every_line(config: Config, state: State, lines: Seq<Seq<u8>>)
    requires
        config.number_all,
        !config.number_nonblank,
    ensures
        numbers_count_from(emitted(config, state, lines), state.next_number),
        advance_all(config, state, lines).next_number == state.next_number + emitted(
            config,
            state,
            lines,
        ).len(),
    decreases lines.len(),
{
    if lines.len() > 0 {
        lemma_number_all_counts_every_line(config, state, lines.drop_last());
        lemma_emitted_last(config, state, lines);
    }
}

/// Where every line is numbered, the lines written for any sources carry
/// the numbers 1, 2, 3 and so on without a gap.
pub proof fn lemma_number_all_counts_from_one(config: Config, sources: Seq<Seq<u8>>)
    requires
        config.number_all,
        !config.number_nonblank,
    ensures
        numbers_count_from(emitted(config, initial_state(), stream_lines(sources)), 1),
{
    lemma_number_all_counts_every_line(config, initial_state(), stream_lines(sources));
}

/// Where only non-empty lines are numbered, an emitted line has a number
/// exactly where it is not empty, and each number is greater than the
/// numbers emitted before it.
pub proof fn lemma_number_nonblank_skips_blank(config: Config, state: State, lines: Seq<Seq<u8>>)
    requires
        config.number_nonblank,
    ensures
        numbered_where_nonempty(emitted(config, state, lines)),
        numbers_increase(emitted(config, state, lines)),
{
    lemma_numbers_increase(config, state, lines);
}

/// The configuration `config` with numbering of all lines switched off.
pub open spec fn without_number_all(config: Config) -> Config {
    Config { number_all: false, ..config }
}

/// Rendering does not look at the numbering options.
proof fn lemma_render_all_without_number_all(config: Config, lines: Seq<OutputLine>)
    ensures
        render_all(config, lines) == render_all(without_number_all(config), lines),
    decreases lines.len(),
{
    if lines.len() > 0 {
        lemma_render_all_without_number_all(config, lines.drop_last());
    }
}

/// Where both kinds of numbering are asked for, the transformer behaves as
/// if only non-empty lines were to be numbered.
pub proof fn lemma_number_nonblank_overrides(config: Config, state: State, lines: Seq<Seq<u8>>)
    requires
        config.number_all,
        config.number_nonblank,
    ensures
        emitted(config, state, lines) == emitted(without_number_all(config), state, lines),
        advance_all(config, state, lines) == advance_all(without_number_all(config), state, lines),
        output(config, state, lines) == output(without_number_all(config), state, lines),
    decreases lines.len(),
{
    let other = without_number_all(config);
    if lines.len() > 0 {
        lemma_number_nonblank_overrides(config, state, lines.drop_last());
        lemma_emitted_last(config, state, lines);
        lemma_emitted_last(other, state, lines);
    }
    lemma_render_all_without_number_all(config, emitted(config, state, lines));
}

} // verus!
