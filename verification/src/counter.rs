//! A line counter without an upper bound, kept as its decimal digits.

use vstd::prelude::*;

use crate::ascii::{DIGIT_NINE, DIGIT_ONE, DIGIT_ZERO};

verus! {

/// The decimal digits of `n` as ASCII bytes, most significant first and
/// without leading zeros.
pub open spec fn decimal(n: nat) -> Seq<u8>
    decreases n,
{
    if n < 10 {
        seq![(DIGIT_ZERO + n) as u8]
    } else {
        decimal(n / 10).push((DIGIT_ZERO + n % 10) as u8)
    }
}

/// Whether `b` is an ASCII decimal digit.
pub open spec fn is_digit(b: u8) -> bool {
    DIGIT_ZERO <= b <= DIGIT_NINE
}

/// Whether `s` is the decimal notation of a positive number: digits only,
/// at least one, and the first of them not zero.
pub open spec fn is_numeral(s: Seq<u8>) -> bool {
    &&& s.len() >= 1
    &&& s[0] != DIGIT_ZERO
    &&& forall|i: int| 0 <= i < s.len() ==> is_digit(#[trigger] s[i])
}

/// The number that the digits `s` denote.
pub open spec fn numeral_value(s: Seq<u8>) -> nat
    decreases s.len(),
{
    if s.len() == 0 {
        0
    } else {
        numeral_value(s.drop_last()) * 10 + (s.last() - DIGIT_ZERO) as nat
    }
}

/// The digits of the successor of the number that the digits `s` denote.
pub open spec fn successor(s: Seq<u8>) -> Seq<u8>
    decreases s.len(),
{
    if s.len() == 0 {
        seq![DIGIT_ONE]
    } else if s.last() == DIGIT_NINE {
        successor(s.drop_last()).push(DIGIT_ZERO)
    } else {
        s.drop_last().push((s.last() + 1) as u8)
    }
}

/// `k` zero digits.
pub open spec fn zeros(k: nat) -> Seq<u8> {
    Seq::new(k, |i: int| DIGIT_ZERO)
}

/// The decimal notation of a number holds digits only, and at least one.
pub proof fn lemma_decimal_digits(n: nat)
    ensures
        decimal(n).len() >= 1,
        forall|i: int| 0 <= i < decimal(n).len() ==> is_digit(#[trigger] decimal(n)[i]),
    decreases n,
{
    if n >= 10 {
        lemma_decimal_digits(n / 10);
    }
}

/// A numeral denotes a positive number.
pub proof fn lemma_numeral_positive(s: Seq<u8>)
    requires
        is_numeral(s),
    ensures
        numeral_value(s) >= 1,
    decreases s.len(),
{
    if s.len() > 1 {
        lemma_numeral_positive(s.drop_last());
    }
}

/// A numeral is the decimal notation of the number it denotes.
pub proof fn lemma_decimal_of_numeral(s: Seq<u8>)
    requires
        is_numeral(s),
    ensures
        decimal(numeral_value(s)) == s,
    decreases s.len(),
{
    let front = s.drop_last();
    if s.len() > 1 {
        lemma_decimal_of_numeral(front);
        lemma_numeral_positive(front);
        let n = numeral_value(s);
        assert(n / 10 == numeral_value(front));
        assert(n % 10 == s.last() - DIGIT_ZERO);
    } else {
        assert(numeral_value(front) == 0);
    }
}

/// `successor` adds one to the denoted number and keeps the digits well
/// formed.
pub proof fn lemma_successor(s: Seq<u8>)
    requires
        forall|i: int| 0 <= i < s.len() ==> is_digit(#[trigger] s[i]),
    ensures
        numeral_value(successor(s)) == numeral_value(s) + 1,
        forall|i: int| 0 <= i < successor(s).len() ==> is_digit(#[trigger] successor(s)[i]),
        successor(s).len() >= 1,
        s.len() == 0 || s[0] != DIGIT_ZERO ==> successor(s)[0] != DIGIT_ZERO,
    decreases s.len(),
{
    let next = successor(s);
    if s.len() == 0 {
        assert(numeral_value(next.drop_last()) == 0);
    } else if s.last() == DIGIT_NINE {
        let front = s.drop_last();
        lemma_successor(front);
        assert(next.drop_last() =~= successor(front));
    } else {
        assert(next.drop_last() =~= s.drop_last());
    }
}

/// A counter of lines that starts at one and never overflows.
#[derive(Debug, PartialEq, Eq)]
pub struct LineCounter {
    digits: Vec<u8>,
}

impl LineCounter {
    #[verifier::type_invariant]
    spec fn well_formed(&self) -> bool {
        is_numeral(self.digits@)
    }

    /// The number that the counter stands at.
    pub closed spec fn value(&self) -> nat {
        numeral_value(self.digits@)
    }

    /// Creates a counter that stands at one.
    pub fn new() -> (counter: LineCounter)
        ensures
            counter.value() == 1,
    {
        let digits: Vec<u8> = vec![DIGIT_ONE];
        proof {
            assert(numeral_value(digits@.drop_last()) == 0);
        }
        LineCounter { digits }
    }

    /// The decimal notation of the counter's value.
    pub fn digits(&self) -> (digits: &[u8])
        ensures
            digits@ == decimal(self.value()),
    {
        proof {
            use_type_invariant(self);
            lemma_decimal_of_numeral(self.digits@);
        }
        self.digits.as_slice()
    }

    /// Advances the counter by one.
    ///
    /// The digits are replaced as a whole, so that the counter holds a
    /// numeral at every moment.
    pub fn increment(&mut self)
        ensures
            final(self).value() == old(self).value() + 1,
    {
        proof {
            use_type_invariant(&*self);
        }
        let ghost before = self.digits@;
        let len: usize = self.digits.len();
        let mut kept: usize = len;
        while kept > 0 && self.digits[kept - 1] == DIGIT_NINE
            invariant
                kept <= len,
                len == before.len(),
                self.digits@ == before,
                forall|k: int| kept <= k < len ==> before[k] == DIGIT_NINE,
            decreases kept,
        {
            kept = kept - 1;
        }
        let mut next: Vec<u8> = Vec::with_capacity(len);
        if kept == 0 {
            next.push(DIGIT_ONE);
        } else {
            let mut k: usize = 0;
            while k < kept - 1
                invariant
                    k <= kept - 1,
                    kept <= len,
                    len == before.len(),
                    self.digits@ == before,
                    next@ == before.take(k as int),
                decreases kept - k,
            {
                next.push(self.digits[k]);
                k = k + 1;
            }
            proof {
                let head = before.take(kept as int);
                assert(head.drop_last() =~= before.take(kept - 1));
                assert(head.last() != DIGIT_NINE && is_digit(head.last()));
            }
            next.push(self.digits[kept - 1] + 1);
        }
        assert(next@ == successor(before.take(kept as int)));
        let mut k: usize = kept;
        while k < len
            invariant
                kept <= k <= len,
                next@ == successor(before.take(kept as int)) + zeros((k - kept) as nat),
            decreases len - k,
        {
            next.push(DIGIT_ZERO);
            k = k + 1;
        }
        proof {
            lemma_successor_carries(before, kept as int);
            lemma_successor(before);
        }
        self.digits = next;
    }
}

/// Where every digit of `s` from index `i` on is a nine, the successor of
/// `s` is the successor of the digits before `i`, followed by zeros.
pub proof fn lemma_successor_carries(s: Seq<u8>, i: int)
    requires
        0 <= i <= s.len(),
        forall|k: int| i <= k < s.len() ==> s[k] == DIGIT_NINE,
    ensures
        successor(s) == successor(s.take(i)) + zeros((s.len() - i) as nat),
    decreases s.len() - i,
{
    if i == s.len() {
        assert(s.take(i) =~= s);
    } else {
        let front = s.drop_last();
        lemma_successor_carries(front, i);
        assert(front.take(i) =~= s.take(i));
    }
}

} // verus!
