use cat::{concatenate, process_args, Config};

fn config_from(flags: &[&str]) -> Config {
    let mut args: Vec<String> = vec![String::from("cat")];
    for flag in flags {
        args.push(String::from(*flag));
    }
    process_args(&args).config
}

fn run(flags: &[&str], inputs: &[&[u8]]) -> Vec<u8> {
    let sources: Vec<Vec<u8>> = inputs.iter().map(|input| input.to_vec()).collect();
    concatenate(&sources, &config_from(flags))
}

#[test]
fn no_flags_copies_the_input() {
    assert_eq!(run(&[], &[b"hello\nworld\n"]), b"hello\nworld\n".to_vec());
}

#[test]
fn squeeze_collapses_a_run_of_blank_lines() {
    assert_eq!(run(&["-s"], &[b"a\n\n\n\nb\n"]), b"a\n\nb\n".to_vec());
}

#[test]
fn number_all_prefixes_every_line() {
    assert_eq!(run(&["-n"], &[b"a\nb\n"]), b"     1\ta\n     2\tb\n".to_vec());
}

#[test]
fn number_nonblank_leaves_blank_lines_bare() {
    assert_eq!(run(&["-b"], &[b"a\n\nb\n"]), b"     1\ta\n\n     2\tb\n".to_vec());
}

#[test]
fn show_tabs_writes_caret_i() {
    assert_eq!(run(&["-t"], &[b"x\ty\n"]), b"x^Iy\n".to_vec());
}

#[test]
fn show_ends_writes_dollar_before_the_terminator() {
    assert_eq!(run(&["-e"], &[b"hi\n"]), b"hi$\n".to_vec());
}

#[test]
fn numbering_goes_on_across_sources() {
    assert_eq!(run(&["-n"], &[b"a\n", b"b\n"]), b"     1\ta\n     2\tb\n".to_vec());
}
