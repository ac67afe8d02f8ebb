//! Laws of visible tabs and end-of-line markers.

use vstd::prelude::*;

use crate::ascii::{DOLLAR, NEWLINE, SPACE, TAB};
use crate::config::Config;
use crate::counter::{is_digit, lemma_decimal_digits};
use crate::lines::{all_newline_free, newline_free};
use crate::model::{
    advance_all, concatenation, emit, expand_tabs, initial_state, lemma_output_push,
    lemma_stream_lines_newline_free, line_body, number_prefix, output, render, shown_content,
    stream_lines, OutputLine, State, NUMBER_WIDTH,
};

verus! {

/// Whether `s` holds no horizontal tab.
pub open spec fn tab_free(s: Seq<u8>) -> bool {
    forall|i: int| 0 <= i < s.len() ==> #[trigger] s[i] != TAB
}

/// Whether `$` stands before every line feed of `out`.
pub open spec fn ends_marked(out: Seq<u8>) -> bool {
    forall|i: int|
        0 <= i < out.len() && #[trigger] out[i] == NEWLINE ==> i >= 1 && out[i - 1] == DOLLAR
}

/// Making tabs visible leaves no tab, loses no byte and brings in no line
/// feed.
pub proof fn lemma_expand_tabs(content: Seq<u8>)
    ensures
        tab_free(expand_tabs(content)),
        expand_tabs(content).len() >= content.len(),
        newline_free(content) ==> newline_free(expand_tabs(content)),
    decreases content.len(),
{
    if content.len() > 0 {
        lemma_expand_tabs(content.drop_last());
    }
}

/// With visible tabs, no tab is left in the content of a line as it is
/// written.
pub proof fn lemma_shown_content_has_no_tab(config: Config, content: Seq<u8>)
    requires
        config.show_tabs,
    ensures
        tab_free(shown_content(config, content)),
{
    lemma_expand_tabs(content);
}

/// The prefix of a numbered line is wider than the number field by the tab
/// that ends it; before that tab it holds spaces and digits only.
pub proof fn lemma_number_prefix(n: nat)
    ensures
        number_prefix(Some(n)).len() > NUMBER_WIDTH,
        number_prefix(Some(n)).last() == TAB,
        forall|i: int|
            0 <= i < number_prefix(Some(n)).len() - 1 ==> #[trigger] number_prefix(Some(n))[i]
                == SPACE || is_digit(number_prefix(Some(n))[i]),
{
    lemma_decimal_digits(n);
}

/// With visible tabs, the only tab of a written line is the one that ends
/// the prefix of a numbered line.
pub proof fn lemma_visible_tabs_keep_separator(config: Config, line: OutputLine)
    requires
        config.show_tabs,
    ensures
        forall|i: int|
            0 <= i < line_body(config, line).len() && #[trigger] line_body(config, line)[i] == TAB
                ==> line.number is Some && i == number_prefix(line.number).len() - 1,
{
    lemma_expand_tabs(line.content);
    if let Some(n) = line.number {
        lemma_number_prefix(n);
    }
}

/// With visible tabs and without numbering, the output holds no tab.
pub proof fn lemma_visible_tabs_output(config: Config, state: State, lines: Seq<Seq<u8>>)
    requires
        config.show_tabs,
        !config.number_all,
        !config.number_nonblank,
    ensures
        tab_free(output(config, state, lines)),
    decreases lines.len(),
{
    if lines.len() > 0 {
        let front = lines.drop_last();
        let line = lines.last();
        let written = output(config, state, front);
        let out = output(config, state, lines);
        lemma_visible_tabs_output(config, state, front);
        lemma_output_push(config, state, front, line);
        assert(front.push(line) =~= lines);
        match emit(config, advance_all(config, state, front), line) {
            Some(emitted_line) => {
                let body = line_body(config, emitted_line);
                lemma_visible_tabs_keep_separator(config, emitted_line);
                assert(out =~= written + body.push(NEWLINE));
                assert forall|i: int| 0 <= i < out.len() implies #[trigger] out[i] != TAB by {
                    if i < written.len() {
                        assert(out[i] == written[i]);
                    } else if i < out.len() - 1 {
                        assert(out[i] == body[i - written.len()]);
                    }
                }
            },
            None => {
                assert(out =~= written);
            },
        }
    }
}

/// A line without line feed is written without line feed before its
/// terminator, and with no fewer bytes than it has.
pub proof fn lemma_line_body_newline_free(config: Config, line: OutputLine)
    requires
        newline_free(line.content),
    ensures
        newline_free(line_body(config, line)),
        line_body(config, line).len() >= line.content.len(),
{
    lemma_expand_tabs(line.content);
    if let Some(n) = line.number {
        lemma_number_prefix(n);
    }
}

/// With end markers, every written line ends in `$` and a line feed.
pub proof fn lemma_show_ends_marks_line(config: Config, line: OutputLine)
    requires
        config.show_ends,
    ensures
        render(config, line).len() >= 2,
        render(config, line)[render(config, line).len() - 2] == DOLLAR,
        render(config, line)[render(config, line).len() - 1] == NEWLINE,
{
}

/// With end markers, `$` stands before every line feed of the output for
/// lines without line feeds.
pub proof fn lemma_show_ends_marks_output(config: Config, state: State, lines: Seq<Seq<u8>>)
    requires
        config.show_ends,
        all_newline_free(lines),
    ensures
        ends_marked(output(config, state, lines)),
    decreases lines.len(),
{
    if lines.len() > 0 {
        let front = lines.drop_last();
        let line = lines.last();
        let written = output(config, state, front);
        let out = output(config, state, lines);
        lemma_show_ends_marks_output(config, state, front);
        lemma_output_push(config, state, front, line);
        assert(front.push(line) =~= lines);
        match emit(config, advance_all(config, state, front), line) {
            Some(emitted_line) => {
                let body = line_body(config, emitted_line);
                lemma_line_body_newline_free(config, emitted_line);
                assert(out =~= written + body.push(NEWLINE));
                assert(body.last() == DOLLAR);
                assert forall|i: int| 0 <= i < out.len() && #[trigger] out[i]
                    == NEWLINE implies i >= 1 && out[i - 1] == DOLLAR by {
                    if i < written.len() {
                        assert(out[i] == written[i]);
                        assert(out[i - 1] == written[i - 1]);
                    } else if i < out.len() - 1 {
                        assert(out[i] == body[i - written.len()]);
                    } else {
                        assert(out[i - 1] == body[body.len() - 1]);
                    }
                }
            },
            None => {
                assert(out =~= written);
            },
        }
    }
}

/// With end markers, `$` stands before every line feed of the output for
/// any sources.
pub proof fn lemma_show_ends_marks_concatenation(config: Config, sources: Seq<Seq<u8>>)
    requires
        config.show_ends,
    ensures
        ends_marked(concatenation(config, sources)),
{
    lemma_stream_lines_newline_free(sources);
    lemma_show_ends_marks_output(config, initial_state(), stream_lines(sources));
}

} // verus!
