//! The ASCII bytes that arguments, line numbers and display markers are
//! made of.

use vstd::prelude::*;

verus! {

/// Horizontal tab.
pub const TAB: u8 = 9;

/// Line feed, the line terminator.
pub const NEWLINE: u8 = 10;

/// Space.
pub const SPACE: u8 = 32;

/// `$`, the end-of-line marker.
pub const DOLLAR: u8 = 36;

/// `-`, which introduces a flag cluster.
pub const HYPHEN: u8 = 45;

/// The digit `0`.
pub const DIGIT_ZERO: u8 = 48;

/// The digit `1`.
pub const DIGIT_ONE: u8 = 49;

/// The digit `9`.
pub const DIGIT_NINE: u8 = 57;

/// `I`, the second byte of a visible tab.
pub const UPPER_I: u8 = 73;

/// `^`, the first byte of a visible tab.
pub const CARET: u8 = 94;

/// The flag letter `b`.
pub const LOWER_B: u8 = 98;

/// The flag letter `e`.
pub const LOWER_E: u8 = 101;

/// The flag letter `n`.
pub const LOWER_N: u8 = 110;

/// The flag letter `s`.
pub const LOWER_S: u8 = 115;

/// The flag letter `t`.
pub const LOWER_T: u8 = 116;

} // verus!
