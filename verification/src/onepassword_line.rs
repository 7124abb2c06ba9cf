//! Line with formatting which colours numeric digits in blue and leaves
//! every other character alone.

use vstd::prelude::*;

use crate::base_line::{assemble, assembled, is_classified, FormattableLine, Line};
use crate::paint::{paint_fixed, painted};

verus! {

/// The palette index used to highlight digits: blue.
pub open spec fn highlight_colour() -> u8 {
    4
}

/// True when `b` is an ASCII decimal digit.
pub open spec fn is_decimal_digit(b: u8) -> bool {
    48 <= b <= 57
}

/// One character of the digit-highlighted output: a decimal digit is
/// wrapped in the highlight escapes, any other byte passes unchanged.
pub open spec fn highlight_unit(b: u8) -> Seq<u8> {
    if is_decimal_digit(b) {
        painted(highlight_colour(), seq![b])
    } else {
        seq![b]
    }
}

/// What the digit-highlight formatter returns: the highlight unit of each
/// input byte, concatenated in the input's order. There is no failure
/// mode and no fallback: every byte is handled individually.
pub open spec fn digit_highlight(s: Seq<u8>) -> Seq<u8>
    decreases s.len(),
{
    if s.len() == 0 {
        Seq::empty()
    } else {
        highlight_unit(s[0]) + digit_highlight(s.skip(1))
    }
}

/// `digit_highlight` distributes over concatenation.
pub proof fn lemma_digit_highlight_append(a: Seq<u8>, b: Seq<u8>)
    ensures
        digit_highlight(a + b) == digit_highlight(a) + digit_highlight(b),
    decreases a.len(),
{
    if a.len() == 0 {
        assert(a + b =~= b);
        assert(digit_highlight(a) + digit_highlight(b) =~= digit_highlight(b));
    } else {
        lemma_digit_highlight_append(a.skip(1), b);
        assert((a + b).skip(1) =~= a.skip(1) + b);
        assert(digit_highlight(a + b) =~= digit_highlight(a) + digit_highlight(b));
    }
}

/// Total coverage of the digit-highlight formatter: the output is the
/// input with every ASCII decimal digit wrapped in the highlight escapes
/// and every other byte unmodified, in the input's order — around any
/// position `i`, the output splits into the formatted text before `i`,
/// the unit for the byte at `i`, and the formatted text after `i`.
pub proof fn lemma_digit_highlight_covers(s: Seq<u8>, i: int)
    requires
        0 <= i < s.len(),
    ensures
        digit_highlight(s) == digit_highlight(s.take(i)) + highlight_unit(s[i]) + digit_highlight(
            s.skip(i + 1),
        ),
{
    let unit = seq![s[i]];
    lemma_digit_highlight_append(s.take(i), unit + s.skip(i + 1));
    lemma_digit_highlight_append(unit, s.skip(i + 1));
    assert(s =~= s.take(i) + (unit + s.skip(i + 1)));
    assert(unit.skip(1) =~= Seq::<u8>::empty());
    assert(digit_highlight(Seq::<u8>::empty()) =~= Seq::<u8>::empty());
    assert(digit_highlight(unit) =~= highlight_unit(s[i]));
    assert(digit_highlight(s) =~= digit_highlight(s.take(i)) + highlight_unit(s[i])
        + digit_highlight(s.skip(i + 1)));
}

/// Line with formatting which colours numeric digits in blue, and leaves
/// the rest alone. Inspired by 1Password.
pub struct OnePasswordLine(pub FormattableLine);

impl OnePasswordLine {
    /// Derives a line from its text, classifying it.
    pub fn from(contents: Vec<u8>) -> (r: Self)
        ensures
            is_classified(r.line_of(), contents@),
            r.line_of().wf(),
    {
        OnePasswordLine(FormattableLine::from(contents))
    }

    /// The processed line: digits of the digest span highlighted,
    /// everything around it unchanged, and the whole line unchanged when
    /// no span was found.
    pub fn to_formatted(&self) -> (r: Vec<u8>)
        requires
            self.line_of().wf(),
        ensures
            r@ == assembled::<Self>(self.line_of()),
    {
        assemble::<Self>(self.get_line())
    }
}

impl Line for OnePasswordLine {
    open spec fn line_of(&self) -> FormattableLine {
        self.0
    }

    open spec fn format_spec(hash: Seq<u8>) -> Seq<u8> {
        digit_highlight(hash)
    }

    fn from_contents(contents: Vec<u8>) -> (r: Self) {
        Self::from(contents)
    }

    fn get_line(&self) -> (r: &FormattableLine) {
        &self.0
    }

    /// Formats a base16-format hash or digest.
    ///
    /// Any numeric characters are formatted in blue.
    fn format_hash(hash: Vec<u8>) -> (r: Vec<u8>) {
        let n = hash.len();
        let mut out: Vec<u8> = Vec::new();
        let mut i: usize = 0;
        while i < n
            invariant
                n == hash@.len(),
                i <= n,
                out@ == digit_highlight(hash@.take(i as int)),
            decreases n - i,
        {
            let b = hash[i];
            proof {
                let c = hash@.subrange(i as int, i + 1);
                lemma_digit_highlight_append(hash@.take(i as int), c);
                assert(hash@.take(i + 1) =~= hash@.take(i as int) + c);
                assert(c.skip(1) =~= Seq::<u8>::empty());
                assert(digit_highlight(Seq::<u8>::empty()) =~= Seq::<u8>::empty());
                assert(digit_highlight(c) =~= highlight_unit(hash@[i as int]));
            }
            if 48 <= b && b <= 57 {
                let mut unit: Vec<u8> = Vec::new();
                unit.push(b);
                let mut coloured = paint_fixed(4, &unit);
                proof {
                    assert(unit@ =~= seq![b]);
                }
                out.append(&mut coloured);
            } else {
                out.push(b);
                proof {
                    assert(out@ =~= digit_highlight(hash@.take(i + 1)));
                }
            }
            i = i + 1;
        }
        proof {
            assert(hash@.take(n as int) =~= hash@);
        }
        out
    }
}

} // verus!
