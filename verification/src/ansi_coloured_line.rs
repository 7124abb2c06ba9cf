//! Line with naive ANSI colour code formatting: each two-character
//! hexadecimal chunk of the digest is coloured with the 256-colour palette
//! entry equal to the byte it denotes.

use vstd::prelude::*;

use crate::base_line::{assemble, assembled, is_classified, FormattableLine, Line};
use crate::hex_pairs::{
    decodes_as_hex, hex_digit_value, is_hex_digit, pair_value, parse_hex_digit,
};
use crate::paint::{paint_fixed, painted};

verus! {

/// Each two-character chunk of `s`, wrapped in the colour escape for the
/// byte the chunk denotes, concatenated in order.
pub open spec fn ansi_chunks(s: Seq<u8>) -> Seq<u8>
    recommends
        decodes_as_hex(s),
    decreases s.len(),
{
    if s.len() < 2 {
        Seq::empty()
    } else {
        painted(pair_value(s[0], s[1]), s.take(2)) + ansi_chunks(s.skip(2))
    }
}

/// `ansi_chunks` distributes over concatenation at a chunk boundary.
pub proof fn lemma_ansi_chunks_append(a: Seq<u8>, b: Seq<u8>)
    requires
        a.len() % 2 == 0,
    ensures
        ansi_chunks(a + b) == ansi_chunks(a) + ansi_chunks(b),
    decreases a.len(),
{
    if a.len() == 0 {
        assert(a + b =~= b);
        assert(ansi_chunks(a) + ansi_chunks(b) =~= ansi_chunks(b));
    } else {
        lemma_ansi_chunks_append(a.skip(2), b);
        assert((a + b).skip(2) =~= a.skip(2) + b);
        assert((a + b).take(2) =~= a.take(2));
        assert(ansi_chunks(a + b) =~= ansi_chunks(a) + ansi_chunks(b));
    }
}

/// What the ANSI colour formatter returns: when the digest text splits
/// into valid two-character hexadecimal chunks, every chunk is coloured;
/// otherwise the text is returned unchanged, exactly.
pub open spec fn ansi_format(s: Seq<u8>) -> Seq<u8> {
    if decodes_as_hex(s) {
        ansi_chunks(s)
    } else {
        s
    }
}

/// A digest text not decomposable into valid two-character hexadecimal
/// chunks is returned unchanged by the ANSI colour formatter.
pub proof fn lemma_ansi_fallback(s: Seq<u8>)
    requires
        !decodes_as_hex(s),
    ensures
        ansi_format(s) == s,
{
}

/// Line with naive ANSI colour code formatting.
pub struct ANSIColouredLine(pub FormattableLine);

impl ANSIColouredLine {
    /// Derives a line from its text, classifying it.
    pub fn from(contents: Vec<u8>) -> (r: Self)
        ensures
            is_classified(r.line_of(), contents@),
            r.line_of().wf(),
    {
        ANSIColouredLine(FormattableLine::from(contents))
    }

    /// The processed line: the digest span coloured, everything around it
    /// unchanged, and the whole line unchanged when no span was found.
    pub fn to_formatted(&self) -> (r: Vec<u8>)
        requires
            self.line_of().wf(),
        ensures
            r@ == assembled::<Self>(self.line_of()),
    {
        assemble::<Self>(self.get_line())
    }
}

impl Line for ANSIColouredLine {
    open spec fn line_of(&self) -> FormattableLine {
        self.0
    }

    open spec fn format_spec(hash: Seq<u8>) -> Seq<u8> {
        ansi_format(hash)
    }

    fn from_contents(contents: Vec<u8>) -> (r: Self) {
        Self::from(contents)
    }

    fn get_line(&self) -> (r: &FormattableLine) {
        &self.0
    }

    /// Formats a base16-format hash or digest.
    ///
    /// Each 8-bit hexadecimal chunk is coloured with the corresponding
    /// xterm colour; text that is not a whole number of valid chunks is
    /// returned unchanged.
    fn format_hash(hash: Vec<u8>) -> (r: Vec<u8>) {
        let n = hash.len();
        if n % 2 != 0 {
            return hash;
        }
        let mut out: Vec<u8> = Vec::new();
        let mut i: usize = 0;
        while i < n
            invariant
                n == hash@.len(),
                n % 2 == 0,
                i % 2 == 0,
                i <= n,
                forall|j: int| 0 <= j < i ==> is_hex_digit(hash@[j]),
                out@ == ansi_chunks(hash@.take(i as int)),
            decreases n - i,
        {
            let hi = parse_hex_digit(hash[i]);
            let lo = parse_hex_digit(hash[i + 1]);
            match (hi, lo) {
                (Some(a), Some(b)) => {
                    let mut chunk: Vec<u8> = Vec::new();
                    chunk.push(hash[i]);
                    chunk.push(hash[i + 1]);
                    let mut coloured = paint_fixed(a * 16 + b, &chunk);
                    proof {
                        let c = hash@.subrange(i as int, i + 2);
                        lemma_ansi_chunks_append(hash@.take(i as int), c);
                        assert(hash@.take(i + 2) =~= hash@.take(i as int) + c);
                        assert(c.take(2) =~= c);
                        assert(c.skip(2) =~= Seq::<u8>::empty());
                        assert(ansi_chunks(c.skip(2)) =~= Seq::<u8>::empty());
                        assert(chunk@ =~= c);
                        assert(ansi_chunks(c) =~= painted(pair_value(c[0], c[1]), c));
                    }
                    out.append(&mut coloured);
                    i = i + 2;
                },
                _ => {
                    return hash;
                },
            }
        }
        proof {
            assert(hash@.take(n as int) =~= hash@);
        }
        out
    }
}

} // verus!
