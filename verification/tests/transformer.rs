use cat::{
    concatenate, print_line, print_lines, write_visible_tabs, Config, TransformerState,
};

fn plain() -> Config {
    Config::new()
}

fn cat_one(config: &Config, input: &[u8]) -> Vec<u8> {
    concatenate(&vec![input.to_vec()], config)
}

fn cat_many(config: &Config, inputs: &[&[u8]]) -> Vec<u8> {
    let sources: Vec<Vec<u8>> = inputs.iter().map(|input| input.to_vec()).collect();
    concatenate(&sources, config)
}

fn output_lines(out: &[u8]) -> Vec<Vec<u8>> {
    let mut lines: Vec<Vec<u8>> = Vec::new();
    let mut current: Vec<u8> = Vec::new();
    for byte in out {
        if *byte == b'\n' {
            lines.push(current.clone());
            current.clear();
        } else {
            current.push(*byte);
        }
    }
    assert!(current.is_empty());
    lines
}

fn has_triple_newline(out: &[u8]) -> bool {
    out.windows(3).any(|w| w == b"\n\n\n")
}

#[test]
fn default_config_has_every_option_off() {
    let config = Config::default();
    assert!(!config.number_all);
    assert!(!config.number_nonblank);
    assert!(!config.show_tabs);
    assert!(!config.show_ends);
    assert!(!config.squeeze_blank);
    assert_eq!(config, Config::new());
}

#[test]
fn empty_input_gives_empty_output() {
    assert_eq!(cat_one(&plain(), b""), Vec::<u8>::new());
    assert_eq!(cat_many(&plain(), &[]), Vec::<u8>::new());
    let mut all = plain();
    all.number_all = true;
    all.show_ends = true;
    assert_eq!(cat_one(&all, b""), Vec::<u8>::new());
}

#[test]
fn plain_output_is_the_input() {
    let input: &[u8] = b"one\n\n\ttwo\r\n\n\n three \n";
    assert_eq!(cat_one(&plain(), input), input.to_vec());
}

#[test]
fn unterminated_last_line_gets_a_newline() {
    assert_eq!(cat_one(&plain(), b"a\nb"), b"a\nb\n".to_vec());
    assert_eq!(cat_one(&plain(), b"b"), b"b\n".to_vec());
}

#[test]
fn each_source_ends_its_last_line() {
    assert_eq!(cat_many(&plain(), &[b"a", b"b"]), b"a\nb\n".to_vec());
    assert_eq!(cat_many(&plain(), &[b"a\n", b"", b"b"]), b"a\nb\n".to_vec());
}

#[test]
fn lone_newline_is_one_empty_line() {
    assert_eq!(cat_one(&plain(), b"\n"), b"\n".to_vec());
    let mut config = plain();
    config.number_all = true;
    assert_eq!(cat_one(&config, b"\n"), b"     1\t\n".to_vec());
}

#[test]
fn plain_run_on_its_own_output_changes_nothing() {
    let once = cat_many(&plain(), &[b"a\n\nb", b"\tc\n", b"d"]);
    assert_eq!(once, b"a\n\nb\n\tc\nd\n".to_vec());
    let twice = cat_one(&plain(), &once);
    assert_eq!(twice, once);
}

#[test]
fn number_all_counts_without_gaps() {
    let mut config = plain();
    config.number_all = true;
    let out = cat_one(&config, b"a\n\nb\n\n\nc\nd\ne\nf\ng\nh\ni\n");
    let lines = output_lines(&out);
    assert_eq!(lines.len(), 12);
    for (index, line) in lines.iter().enumerate() {
        let expected = format!("{:>6}\t", index + 1);
        assert!(line.starts_with(expected.as_bytes()));
    }
    assert!(lines[9].starts_with(b"    10\t"));
    assert_eq!(lines[11], b"    12\ti".to_vec());
}

#[test]
fn number_nonblank_numbers_only_nonempty_lines() {
    let mut config = plain();
    config.number_nonblank = true;
    let out = cat_one(&config, b"\na\n\n\nb\nc\n\n");
    assert_eq!(out, b"\n     1\ta\n\n\n     2\tb\n     3\tc\n\n".to_vec());
}

#[test]
fn number_nonblank_overrides_number_all() {
    let mut nonblank = plain();
    nonblank.number_nonblank = true;
    let mut both = nonblank;
    both.number_all = true;
    let input: &[u8] = b"a\n\nb\n\n\nc";
    assert_eq!(cat_one(&both, input), cat_one(&nonblank, input));
    assert_eq!(cat_one(&both, input), b"     1\ta\n\n     2\tb\n\n\n     3\tc\n".to_vec());
}

#[test]
fn squeeze_leaves_no_two_blank_lines_in_a_row() {
    let mut config = plain();
    config.squeeze_blank = true;
    let out = cat_one(&config, b"\n\n\na\n\n\n\n\nb\n\nc\n\n\n");
    assert_eq!(out, b"\na\n\nb\n\nc\n\n".to_vec());
    assert!(!has_triple_newline(&out));
}

#[test]
fn squeeze_works_across_sources() {
    let mut config = plain();
    config.squeeze_blank = true;
    let out = cat_many(&config, &[b"a\n\n", b"\n\nb\n", b"\n", b"\n"]);
    assert_eq!(out, b"a\n\nb\n\n".to_vec());
    assert!(!has_triple_newline(&out));
}

#[test]
fn squeezed_lines_do_not_advance_the_counter() {
    let mut config = plain();
    config.squeeze_blank = true;
    config.number_all = true;
    let out = cat_one(&config, b"a\n\n\n\nb\n");
    assert_eq!(out, b"     1\ta\n     2\t\n     3\tb\n".to_vec());
}

#[test]
fn line_with_a_lone_tab_is_not_empty() {
    let mut config = plain();
    config.squeeze_blank = true;
    config.show_tabs = true;
    let out = cat_one(&config, b"\n\t\n\t\n\n");
    assert_eq!(out, b"\n^I\n^I\n\n".to_vec());
    config.show_tabs = false;
    config.number_nonblank = true;
    let out = cat_one(&config, b"\t\n");
    assert_eq!(out, b"     1\t\t\n".to_vec());
}

#[test]
fn show_ends_marks_every_line() {
    let mut config = plain();
    config.show_ends = true;
    let out = cat_one(&config, b"a\n\n$\nlast");
    assert_eq!(out, b"a$\n$\n$$\nlast$\n".to_vec());
    for (index, byte) in out.iter().enumerate() {
        if *byte == b'\n' {
            assert!(index >= 1);
            assert_eq!(out[index - 1], b'$');
        }
    }
}

#[test]
fn show_tabs_leaves_no_tab_in_the_content() {
    let mut config = plain();
    config.show_tabs = true;
    let out = cat_one(&config, b"\t\ta\tb\t\n\tc");
    assert_eq!(out, b"^I^Ia^Ib^I\n^Ic\n".to_vec());
    assert!(!out.contains(&b'\t'));
}

#[test]
fn show_tabs_keeps_the_tab_behind_the_number() {
    let mut config = plain();
    config.show_tabs = true;
    config.number_all = true;
    let out = cat_one(&config, b"x\ty\n");
    assert_eq!(out, b"     1\tx^Iy\n".to_vec());
}

#[test]
fn tabs_come_first_then_the_end_marker() {
    let mut config = plain();
    config.show_tabs = true;
    config.show_ends = true;
    assert_eq!(cat_one(&config, b"x\ty\n"), b"x^Iy$\n".to_vec());
}

#[test]
fn all_options_together() {
    let config = Config {
        number_all: true,
        number_nonblank: true,
        show_tabs: true,
        show_ends: true,
        squeeze_blank: true,
    };
    let out = cat_many(&config, &[b"a\tb\n\n\n", b"\nc"]);
    assert_eq!(out, b"     1\ta^Ib$\n$\n     2\tc$\n".to_vec());
}

#[test]
fn number_field_grows_beyond_six_digits() {
    let mut config = plain();
    config.number_all = true;
    let mut state = TransformerState::new();
    let mut out: Vec<u8> = Vec::new();
    for _ in 0..999_998 {
        out.clear();
        print_line(b"", &config, &mut state, &mut out);
    }
    assert_eq!(out, b"999998\t\n".to_vec());
    out.clear();
    print_line(b"x", &config, &mut state, &mut out);
    print_line(b"y", &config, &mut state, &mut out);
    print_line(b"z", &config, &mut state, &mut out);
    assert_eq!(out, b"999999\tx\n1000000\ty\n1000001\tz\n".to_vec());
}

#[test]
fn print_line_appends_to_what_is_there() {
    let mut config = plain();
    config.number_all = true;
    config.show_ends = true;
    let mut state = TransformerState::new();
    let mut out: Vec<u8> = b"kept".to_vec();
    print_line(b"a", &config, &mut state, &mut out);
    assert_eq!(out, b"kept     1\ta$\n".to_vec());
    print_line(b"", &config, &mut state, &mut out);
    assert_eq!(out, b"kept     1\ta$\n     2\t$\n".to_vec());
}

#[test]
fn print_line_drops_a_squeezed_line() {
    let mut config = plain();
    config.squeeze_blank = true;
    let mut state = TransformerState::new();
    let mut out: Vec<u8> = Vec::new();
    print_line(b"", &config, &mut state, &mut out);
    assert_eq!(out, b"\n".to_vec());
    print_line(b"", &config, &mut state, &mut out);
    assert_eq!(out, b"\n".to_vec());
    print_line(b"a", &config, &mut state, &mut out);
    print_line(b"", &config, &mut state, &mut out);
    assert_eq!(out, b"\na\n\n".to_vec());
}

#[test]
fn print_lines_keeps_its_state_between_sources() {
    let mut config = plain();
    config.number_nonblank = true;
    config.squeeze_blank = true;
    let mut state = TransformerState::new();
    let mut out: Vec<u8> = Vec::new();
    print_lines(b"a\n\n", &config, &mut state, &mut out);
    assert_eq!(out, b"     1\ta\n\n".to_vec());
    print_lines(b"\nb", &config, &mut state, &mut out);
    assert_eq!(out, b"     1\ta\n\n     2\tb\n".to_vec());
    print_lines(b"", &config, &mut state, &mut out);
    assert_eq!(out, b"     1\ta\n\n     2\tb\n".to_vec());
}

#[test]
fn a_source_may_be_passed_in_pieces_that_end_with_a_line() {
    let config = Config {
        number_all: true,
        number_nonblank: false,
        show_tabs: true,
        show_ends: true,
        squeeze_blank: true,
    };
    let whole: &[u8] = b"a\n\n\n\tb\n\nlast";
    let pieces: [&[u8]; 6] = [b"a\n", b"\n", b"\n", b"\tb\n", b"\n", b"last"];
    let mut state = TransformerState::new();
    let mut out: Vec<u8> = Vec::new();
    for piece in pieces {
        print_lines(piece, &config, &mut state, &mut out);
    }
    assert_eq!(out, cat_one(&config, whole));
    assert_eq!(out, b"     1\ta$\n     2\t$\n     3\t^Ib$\n     4\t$\n     5\tlast$\n".to_vec());
}

#[test]
fn write_visible_tabs_replaces_each_tab() {
    let mut out: Vec<u8> = b">".to_vec();
    write_visible_tabs(b"\ta\t\tb", &mut out);
    assert_eq!(out, b">^Ia^I^Ib".to_vec());
    write_visible_tabs(b"", &mut out);
    assert_eq!(out, b">^Ia^I^Ib".to_vec());
    write_visible_tabs(b"^I\n", &mut out);
    assert_eq!(out, b">^Ia^I^Ib^I\n".to_vec());
}

#[test]
fn new_state_is_before_the_first_line() {
    let state = TransformerState::new();
    assert!(!state.after_blank());
    assert_eq!(state.next_number(), b"1");
}

#[test]
fn state_follows_the_emitted_lines() {
    let mut config = plain();
    config.number_nonblank = true;
    config.squeeze_blank = true;
    let mut state = TransformerState::new();
    let mut out: Vec<u8> = Vec::new();
    print_line(b"a", &config, &mut state, &mut out);
    assert!(!state.after_blank());
    assert_eq!(state.next_number(), b"2");
    print_line(b"", &config, &mut state, &mut out);
    assert!(state.after_blank());
    assert_eq!(state.next_number(), b"2");
    print_line(b"", &config, &mut state, &mut out);
    assert!(state.after_blank());
    assert_eq!(state.next_number(), b"2");
    print_line(b"b", &config, &mut state, &mut out);
    assert!(!state.after_blank());
    assert_eq!(state.next_number(), b"3");
    assert_eq!(out, b"     1\ta\n\n     2\tb\n".to_vec());
}

#[test]
fn without_numbering_the_counter_stands_still() {
    let config = plain();
    let mut state = TransformerState::new();
    let mut out: Vec<u8> = Vec::new();
    print_lines(b"a\nb\n\n", &config, &mut state, &mut out);
    assert_eq!(state.next_number(), b"1");
    assert!(state.after_blank());
}
