//! The argument parser: from the argument vector of an invocation to its
//! configuration and the ordered list of its sources.
//!
//! The first argument is the program's name. Of the others, one of two or
//! more bytes that begins with `-` is a cluster of flag letters, the single
//! byte `-` stands for the standard input, and every other one is the path
//! of a file.

use vstd::prelude::*;

use crate::ascii::{HYPHEN, LOWER_B, LOWER_E, LOWER_N, LOWER_S, LOWER_T};
use crate::config::{Config, Source};

verus! {

/// What the argument vector of an invocation asks for.
#[derive(Clone, Debug, PartialEq, Eq)]
pub struct Invocation {
    /// The display options that the flags switch on.
    pub config: Config,
    /// The sources to read, in the order of the arguments. Never empty.
    pub sources: Vec<Source>,
    /// The flag clusters that hold an unknown letter, in the order of the
    /// arguments. None of them is taken for a path.
    pub invalid: Vec<String>,
}

/// The bytes of an argument.
pub open spec fn bytes_of(arg: String) -> Seq<u8> {
    vstd::utf8::encode_utf8(arg@)
}

/// Whether `arg` is a cluster of flag letters.
pub open spec fn is_flag_cluster(arg: Seq<u8>) -> bool {
    arg.len() >= 2 && arg[0] == HYPHEN
}

/// Whether `arg` is the operand that stands for the standard input.
pub open spec fn is_stdin_operand(arg: Seq<u8>) -> bool {
    arg.len() == 1 && arg[0] == HYPHEN
}

/// Whether `letter` is one of the flag letters.
pub open spec fn is_flag_letter(letter: u8) -> bool {
    letter == LOWER_B || letter == LOWER_N || letter == LOWER_E || letter == LOWER_S || letter
        == LOWER_T
}

/// Whether `letter` occurs behind the hyphen of `arg` and before the index
/// `end`.
pub open spec fn has_letter_before(arg: Seq<u8>, letter: u8, end: int) -> bool {
    exists|j: int| 1 <= j < end && #[trigger] arg[j] == letter
}

/// Whether a byte that is no flag letter occurs behind the hyphen of `arg`
/// and before the index `end`.
pub open spec fn has_unknown_before(arg: Seq<u8>, end: int) -> bool {
    exists|j: int| 1 <= j < end && !is_flag_letter(#[trigger] arg[j])
}

/// Whether `arg` is a flag cluster that holds `letter`.
pub open spec fn cluster_has(arg: Seq<u8>, letter: u8) -> bool {
    is_flag_cluster(arg) && has_letter_before(arg, letter, arg.len() as int)
}

/// Whether `arg` is a flag cluster that holds a byte that is no flag letter.
pub open spec fn has_unknown_flag(arg: Seq<u8>) -> bool {
    is_flag_cluster(arg) && has_unknown_before(arg, arg.len() as int)
}

/// Whether a flag cluster among the arguments behind the program's name and
/// before the index `end` holds `letter`.
pub open spec fn flag_given_before(args: Seq<String>, letter: u8, end: int) -> bool {
    exists|i: int| 1 <= i < end && cluster_has(bytes_of(#[trigger] args[i]), letter)
}

/// Whether a flag cluster among the arguments holds `letter`.
pub open spec fn flag_given(args: Seq<String>, letter: u8) -> bool {
    flag_given_before(args, letter, args.len() as int)
}

/// The configuration that `args` ask for: an option is on where its letter
/// occurs in a flag cluster, wherever that cluster stands.
pub open spec fn config_of(args: Seq<String>) -> Config {
    Config {
        number_all: flag_given(args, LOWER_N),
        number_nonblank: flag_given(args, LOWER_B),
        show_tabs: flag_given(args, LOWER_T),
        show_ends: flag_given(args, LOWER_E),
        squeeze_blank: flag_given(args, LOWER_S),
    }
}

/// The configuration that the arguments before the index `end` ask for.
pub open spec fn config_before(args: Seq<String>, end: int) -> Config {
    Config {
        number_all: flag_given_before(args, LOWER_N, end),
        number_nonblank: flag_given_before(args, LOWER_B, end),
        show_tabs: flag_given_before(args, LOWER_T, end),
        show_ends: flag_given_before(args, LOWER_E, end),
        squeeze_blank: flag_given_before(args, LOWER_S, end),
    }
}

/// The arguments behind the program's name.
pub open spec fn behind_name(args: Seq<String>) -> Seq<String> {
    if args.len() == 0 {
        args
    } else {
        args.skip(1)
    }
}

/// The test for an operand: an argument that is no flag cluster.
pub open spec fn is_operand() -> spec_fn(String) -> bool {
    |arg: String| !is_flag_cluster(bytes_of(arg))
}

/// The test for a flag cluster with an unknown letter.
pub open spec fn is_invalid() -> spec_fn(String) -> bool {
    |arg: String| has_unknown_flag(bytes_of(arg))
}

/// The source that the operand `arg` names.
pub open spec fn source_of(arg: String) -> Source {
    if is_stdin_operand(bytes_of(arg)) {
        Source::Stdin
    } else {
        Source::Path(arg)
    }
}

/// The sources that the operands among `args` name, in order.
pub open spec fn named_sources(args: Seq<String>) -> Seq<Source> {
    args.filter(is_operand()).map_values(|arg: String| source_of(arg))
}

/// The sources that `args` ask for: those that the operands name, or the
/// standard input where there is no operand.
pub open spec fn sources_of(args: Seq<String>) -> Seq<Source> {
    if named_sources(behind_name(args)).len() == 0 {
        seq![Source::Stdin]
    } else {
        named_sources(behind_name(args))
    }
}

/// The arguments that get a diagnostic: the flag clusters with an unknown
/// letter, in order.
pub open spec fn invalid_of(args: Seq<String>) -> Seq<String> {
    behind_name(args).filter(is_invalid())
}

/// Reads the letters of one argument. Returns the options that it switches
/// on as a flag cluster, and whether it is a flag cluster with an unknown
/// letter. An argument that is no flag cluster switches nothing on.
fn scan_cluster(arg: &[u8]) -> (found: (Config, bool))
    ensures
        found.0.number_all == cluster_has(arg@, LOWER_N),
        found.0.number_nonblank == cluster_has(arg@, LOWER_B),
        found.0.show_tabs == cluster_has(arg@, LOWER_T),
        found.0.show_ends == cluster_has(arg@, LOWER_E),
        found.0.squeeze_blank == cluster_has(arg@, LOWER_S),
        found.1 == has_unknown_flag(arg@),
{
    let mut flags = Config::new();
    let mut unknown = false;
    if arg.len() < 2 || arg[0] != HYPHEN {
        return (flags, unknown);
    }
    let mut j: usize = 1;
    while j < arg.len()
        invariant
            1 <= j <= arg@.len(),
            flags.number_all == has_letter_before(arg@, LOWER_N, j as int),
            flags.number_nonblank == has_letter_before(arg@, LOWER_B, j as int),
            flags.show_tabs == has_letter_before(arg@, LOWER_T, j as int),
            flags.show_ends == has_letter_before(arg@, LOWER_E, j as int),
            flags.squeeze_blank == has_letter_before(arg@, LOWER_S, j as int),
            unknown == has_unknown_before(arg@, j as int),
        decreases arg@.len() - j,
    {
        let letter: u8 = arg[j];
        if letter == LOWER_B {
            flags.number_nonblank = true;
        } else if letter == LOWER_N {
            flags.number_all = true;
        } else if letter == LOWER_E {
            flags.show_ends = true;
        } else if letter == LOWER_S {
            flags.squeeze_blank = true;
        } else if letter == LOWER_T {
            flags.show_tabs = true;
        } else {
            unknown = true;
        }
        j = j + 1;
    }
    (flags, unknown)
}

/// Parses the argument vector `args`, whose first entry is the program's
/// name.
///
/// Every letter of every flag cluster is read: a known letter switches its
/// option on, and a cluster with an unknown letter is listed in `invalid`.
/// Every other argument names a source. Parsing never fails.
pub fn process_args(args: &Vec<String>) -> (parsed: Invocation)
    ensures
        parsed.config == config_of(args@),
        parsed.sources@ == sources_of(args@),
        parsed.sources@.len() >= 1,
        parsed.invalid@ == invalid_of(args@),
{
    let mut config = Config::new();
    let mut sources: Vec<Source> = Vec::new();
    let mut invalid: Vec<String> = Vec::new();
    let ghost rest = behind_name(args@);
    let mut i: usize = 1;
    proof {
        rest.take(0).lemma_filter_len(is_operand());
        rest.take(0).lemma_filter_len(is_invalid());
    }
    while i < args.len()
        invariant
            1 <= i,
            i <= args@.len() || i == 1,
            rest == behind_name(args@),
            config == config_before(args@, i as int),
            sources@ == named_sources(rest.take(i - 1)),
            invalid@ == rest.take(i - 1).filter(is_invalid()),
        decreases args@.len() - i,
    {
        let arg = &args[i];
        let bytes = arg.as_str().as_bytes();
        let ghost seen = rest.take(i - 1);
        proof {
            assert(rest.take(i as int) =~= seen.push(args@[i as int]));
            seen.lemma_filter_push(args@[i as int], is_operand());
            seen.lemma_filter_push(args@[i as int], is_invalid());
        }
        if bytes.len() >= 2 && bytes[0] == HYPHEN {
            let (flags, unknown) = scan_cluster(bytes);
            config.number_all = config.number_all || flags.number_all;
            config.number_nonblank = config.number_nonblank || flags.number_nonblank;
            config.show_tabs = config.show_tabs || flags.show_tabs;
            config.show_ends = config.show_ends || flags.show_ends;
            config.squeeze_blank = config.squeeze_blank || flags.squeeze_blank;
            if unknown {
                invalid.push(arg.clone());
            }
        } else if bytes.len() == 1 && bytes[0] == HYPHEN {
            sources.push(Source::Stdin);
        } else {
            sources.push(Source::Path(arg.clone()));
        }
        i = i + 1;
    }
    assert(rest.take(i - 1) =~= rest);
    if sources.len() == 0 {
        sources.push(Source::Stdin);
    }
    Invocation { config, sources, invalid }
}

} // verus!
