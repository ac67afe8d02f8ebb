//! Laws of squeezing runs of empty lines.

use vstd::prelude::*;

use crate::ascii::NEWLINE;
use crate::config::Config;
use crate::laws::marks::lemma_line_body_newline_free;
use crate::lines::all_newline_free;
use crate::model::{
    advance_all, concatenation, emit, emitted, initial_state, lemma_emitted_last,
    lemma_output_push, lemma_stream_lines_newline_free, line_body, output, stream_lines,
    OutputLine, State,
};

verus! {

/// Whether no two of `lines` in a row are empty.
pub open spec fn blank_lines_apart(lines: Seq<OutputLine>) -> bool {
    forall|i: int|
        0 <= i && i + 1 < lines.len() ==> !((#[trigger] lines[i]).content.len() == 0 && lines[i
            + 1].content.len() == 0)
}

/// Whether `out` holds no three line feeds in a row, that is, no two empty
/// lines in a row.
pub open spec fn blank_run_free(out: Seq<u8>) -> bool {
    forall|i: int|
        0 <= i && i + 2 < out.len() ==> !(#[trigger] out[i] == NEWLINE && out[i + 1] == NEWLINE
            && out[i + 2] == NEWLINE)
}

/// Whether `out` ends in two line feeds.
pub open spec fn ends_in_blank_line(out: Seq<u8>) -> bool {
    out.len() >= 2 && out[out.len() - 1] == NEWLINE && out[out.len() - 2] == NEWLINE
}

/// The state after some lines says whether the line emitted last was
/// empty; where none was emitted, it says what it said before.
pub proof fn lemma_state_tracks_last_line(config: Config, state: State, lines: Seq<Seq<u8>>)
    ensures
        emitted(config, state, lines).len() > 0 ==> advance_all(config, state, lines).after_blank
            == (emitted(config, state, lines).last().content.len() == 0),
        emitted(config, state, lines).len() == 0 ==> advance_all(config, state, lines).after_blank
            == state.after_blank,
    decreases lines.len(),
{
    if lines.len() > 0 {
        lemma_state_tracks_last_line(config, state, lines.drop_last());
        lemma_emitted_last(config, state, lines);
    }
}

/// With squeezing, no two emitted lines in a row are empty, and the first
/// emitted line is not empty where the state says that an empty line came
/// before it.
pub proof fn lemma_squeeze_separates_blank_lines(
    config: Config,
    state: State,
    lines: Seq<Seq<u8>>,
)
    requires
        config.squeeze_blank,
    ensures
        blank_lines_apart(emitted(config, state, lines)),
        state.after_blank && emitted(config, state, lines).len() > 0 ==> emitted(
            config,
            state,
            lines,
        )[0].content.len() > 0,
    decreases lines.len(),
{
    if lines.len() > 0 {
        lemma_squeeze_separates_blank_lines(config, state, lines.drop_last());
        lemma_state_tracks_last_line(config, state, lines.drop_last());
        lemma_emitted_last(config, state, lines);
    }
}

/// With squeezing, the output for lines without line feeds holds no three
/// line feeds in a row, and where it ends in two of them the state says
/// that an empty line was emitted last.
pub proof fn lemma_squeezed_output(config: Config, state: State, lines: Seq<Seq<u8>>)
    requires
        config.squeeze_blank,
        all_newline_free(lines),
    ensures
        blank_run_free(output(config, state, lines)),
        ends_in_blank_line(output(config, state, lines)) ==> advance_all(
            config,
            state,
            lines,
        ).after_blank,
    decreases lines.len(),
{
    if lines.len() > 0 {
        let front = lines.drop_last();
        let line = lines.last();
        let before = advance_all(config, state, front);
        let written = output(config, state, front);
        let out = output(config, state, lines);
        lemma_squeezed_output(config, state, front);
        lemma_output_push(config, state, front, line);
        assert(front.push(line) =~= lines);
        match emit(config, before, line) {
            Some(emitted_line) => {
                let body = line_body(config, emitted_line);
                lemma_line_body_newline_free(config, emitted_line);
                assert(out =~= written + body.push(NEWLINE));
                assert forall|i: int| 0 <= i && i + 2 < out.len() implies !(#[trigger] out[i]
                    == NEWLINE && out[i + 1] == NEWLINE && out[i + 2] == NEWLINE) by {
                    if i + 2 < written.len() {
                        assert(out[i] == written[i]);
                    } else if body.len() > 0 {
                        if i + 2 < out.len() - 1 {
                            assert(out[i + 2] == body[i + 2 - written.len()]);
                        } else {
                            assert(out[i + 1] == body[i + 1 - written.len()]);
                        }
                    } else {
                        assert(line.len() == 0);
                        assert(!before.after_blank);
                        assert(out[i] == written[written.len() - 2]);
                        assert(out[i + 1] == written[written.len() - 1]);
                    }
                }
                if body.len() > 0 {
                    assert(out[out.len() - 2] == body[body.len() - 1]);
                }
            },
            None => {
                assert(out =~= written);
            },
        }
    }
}

/// With squeezing, the output for any sources holds no three line feeds in
/// a row.
pub proof fn lemma_squeezed_concatenation(config: Config, sources: Seq<Seq<u8>>)
    requires
        config.squeeze_blank,
    ensures
        blank_run_free(concatenation(config, sources)),
{
    lemma_stream_lines_newline_free(sources);
    lemma_squeezed_output(config, initial_state(), stream_lines(sources));
}

} // verus!
