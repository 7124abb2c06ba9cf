//! Classification of one line of checksum-tool output, and assembly of the
//! formatted output line.
//!
//! A line is either BSD "tag" style (`ALGO (path) = digest`, the digest runs
//! from just after the *last* `" = "` separator to the end of the line), GNU
//! or Perl sum style (`digest  path`, the digest runs from the start of the
//! line to the *first* two consecutive spaces), or unrecognised (the line is
//! passed through verbatim).

use vstd::prelude::*;

verus! {

/// True when the three-byte separator `" = "` stands at offset `i` of `s`.
pub open spec fn sep_at(s: Seq<u8>, i: int) -> bool {
    0 <= i && i + 3 <= s.len() && s[i] == 32u8 && s[i + 1] == 61u8 && s[i + 2] == 32u8
}

/// True when `s` contains the separator `" = "` anywhere.
pub open spec fn has_sep(s: Seq<u8>) -> bool {
    exists|i: int| sep_at(s, i)
}

/// True when two consecutive spaces stand at offset `i` of `s`.
pub open spec fn double_space_at(s: Seq<u8>, i: int) -> bool {
    0 <= i && i + 2 <= s.len() && s[i] == 32u8 && s[i + 1] == 32u8
}

/// True when `s` contains two consecutive spaces anywhere.
pub open spec fn has_double_space(s: Seq<u8>) -> bool {
    exists|i: int| double_space_at(s, i)
}

/// True when `k` is the offset just after the *last* `" = "` separator of `s`.
pub open spec fn is_last_sep_end(s: Seq<u8>, k: int) -> bool {
    sep_at(s, k - 3) && forall|j: int| j > k - 3 ==> !sep_at(s, j)
}

/// True when `k` is the offset of the *first* double space of `s`.
pub open spec fn is_first_double_space(s: Seq<u8>, k: int) -> bool {
    double_space_at(s, k) && forall|j: int| 0 <= j < k ==> !double_space_at(s, j)
}

/// Offset just after the last `" = "` separator in a BSD `md5(1)` style
/// line: the digest runs from there to the end of the line.
pub fn find_bsd_tag_line(line: &Vec<u8>) -> (r: Option<usize>)
    ensures
        match r {
            Some(k) => is_last_sep_end(line@, k as int),
            None => !has_sep(line@),
        },
{
    let n = line.len();
    if n < 3 {
        return None;
    }
    let mut i: usize = n - 2;
    while i > 0
        invariant
            3 <= n == line@.len(),
            i <= n - 2,
            forall|j: int| j >= i ==> !sep_at(line@, j),
        decreases i,
    {
        i = i - 1;
        if line[i] == 32 && line[i + 1] == 61 && line[i + 2] == 32 {
            return Some(i + 3);
        }
    }
    None
}

/// Offset of the first double space in a GNU `md5sum(1)` / Perl `shasum(1)`
/// style line: the digest runs from the start of the line to there.
pub fn find_sum_prefixed_line(line: &Vec<u8>) -> (r: Option<usize>)
    ensures
        match r {
            Some(k) => is_first_double_space(line@, k as int),
            None => !has_double_space(line@),
        },
{
    let n = line.len();
    if n < 2 {
        return None;
    }
    let mut i: usize = 0;
    while i <= n - 2
        invariant
            2 <= n == line@.len(),
            i <= n - 1,
            forall|j: int| 0 <= j < i ==> !double_space_at(line@, j),
        decreases n - i,
    {
        if line[i] == 32 && line[i + 1] == 32 {
            return Some(i);
        }
        i = i + 1;
    }
    None
}

/// The formattable contents of one line of console output: the line's text
/// together with the digest span that classification found in it.
pub struct FormattableLine {
    /// The full original text of the line, without its terminator.
    pub contents: Vec<u8>,
    /// Offset where the digest begins, when it runs to the end of the line.
    pub formattable_start: Option<usize>,
    /// Offset where the digest ends, when it begins the line.
    pub formattable_end: Option<usize>,
}

impl FormattableLine {
    /// At most one span marker is set, and each marker is within bounds.
    pub open spec fn wf(self) -> bool {
        &&& self.formattable_start is Some ==> {
            &&& self.formattable_end is None
            &&& self.formattable_start->0 <= self.contents@.len()
        }
        &&& self.formattable_end is Some ==> self.formattable_end->0 <= self.contents@.len()
    }

    /// Classifies one line of text. BSD detection takes priority: only a
    /// line with no `" = "` separator is tried against the double-space
    /// form, and a line matching neither carries no span.
    pub fn from(contents: Vec<u8>) -> (r: Self)
        ensures
            is_classified(r, contents@),
            r.wf(),
    {
        let formattable_start = find_bsd_tag_line(&contents);
        let r = match formattable_start {
            Some(k) => FormattableLine {
                contents,
                formattable_start: Some(k),
                formattable_end: None,
            },
            None => {
                let formattable_end = find_sum_prefixed_line(&contents);
                FormattableLine { contents, formattable_start: None, formattable_end }
            },
        };
        proof {
            lemma_classified_wf(r, r.contents@);
        }
        r
    }
}

/// The classification contract: `l` carries exactly the span that the
/// classifier finds in `c`. A line with a `" = "` separator is suffix
/// anchored after the last separator; otherwise a line with a double space
/// is prefix anchored at the first one; otherwise the line carries no span.
pub open spec fn is_classified(l: FormattableLine, c: Seq<u8>) -> bool {
    &&& l.contents@ == c
    &&& if has_sep(c) {
        &&& l.formattable_end is None
        &&& l.formattable_start matches Some(k) && is_last_sep_end(c, k as int)
    } else if has_double_space(c) {
        &&& l.formattable_start is None
        &&& l.formattable_end matches Some(k) && is_first_double_space(c, k as int)
    } else {
        &&& l.formattable_start is None
        &&& l.formattable_end is None
    }
}

/// A classified line is well formed: its one span marker lies within the
/// line.
pub proof fn lemma_classified_wf(l: FormattableLine, c: Seq<u8>)
    requires
        is_classified(l, c),
    ensures
        l.wf(),
{
}

/// Classification is a pure function of the line's contents: two lines
/// classified from the same text carry the same span markers.
pub proof fn lemma_classifier_deterministic(c: Seq<u8>, l1: FormattableLine, l2: FormattableLine)
    requires
        is_classified(l1, c),
        is_classified(l2, c),
    ensures
        l1.formattable_start == l2.formattable_start,
        l1.formattable_end == l2.formattable_end,
        l1.contents@ == l2.contents@,
{
    if has_sep(c) {
        let k1 = l1.formattable_start->0 as int;
        let k2 = l2.formattable_start->0 as int;
        if k1 < k2 {
            assert(!sep_at(c, k2 - 3));
        } else if k2 < k1 {
            assert(!sep_at(c, k1 - 3));
        }
    } else if has_double_space(c) {
        let k1 = l1.formattable_end->0 as int;
        let k2 = l2.formattable_end->0 as int;
        if k1 < k2 {
            assert(!double_space_at(c, k1));
        } else if k2 < k1 {
            assert(!double_space_at(c, k2));
        }
    }
}

/// A line containing both a `" = "` separator and a double space is
/// classified by the separator alone: BSD precedence.
pub proof fn lemma_bsd_precedence(l: FormattableLine, c: Seq<u8>)
    requires
        is_classified(l, c),
        has_sep(c),
        has_double_space(c),
    ensures
        l.formattable_start is Some,
        l.formattable_end is None,
{
}

/// Presents a formattable line, which is derived from the line's text.
pub trait Line: Sized {
    /// The classified line that `self` wraps.
    spec fn line_of(&self) -> FormattableLine;

    /// What `format_hash` returns for each digest text.
    spec fn format_spec(hash: Seq<u8>) -> Seq<u8>;

    /// Derives a line from its text, classifying it.
    fn from_contents(contents: Vec<u8>) -> (r: Self)
        ensures
            is_classified(r.line_of(), contents@),
            r.line_of().wf(),
    ;

    /// The underlying `FormattableLine` object.
    fn get_line(&self) -> (r: &FormattableLine)
        ensures
            *r == self.line_of(),
    ;

    /// Formats the given checksum text.
    fn format_hash(hash: Vec<u8>) -> (r: Vec<u8>)
        ensures
            r@ == Self::format_spec(hash@),
    ;
}

/// The assembled output line under the formatter `L`: the unmodified
/// prefix, the formatted digest span, and the unmodified suffix — the
/// whole line verbatim when no span was found.
pub open spec fn assembled<L: Line>(l: FormattableLine) -> Seq<u8> {
    match (l.formattable_start, l.formattable_end) {
        (Some(s), _) => l.contents@.take(s as int) + L::format_spec(l.contents@.skip(s as int)),
        (None, Some(e)) => L::format_spec(l.contents@.take(e as int)) + l.contents@.skip(e as int),
        (None, None) => l.contents@,
    }
}

/// A line with no span is assembled as its contents, exactly.
pub proof fn lemma_passthrough<L: Line>(l: FormattableLine)
    requires
        l.formattable_start is None,
        l.formattable_end is None,
    ensures
        assembled::<L>(l) == l.contents@,
{
}

/// Assembles the output line for a classified line under the formatter
/// `L`: the part of the line outside the digest span is emitted verbatim,
/// and the digest span is replaced by `L::format_hash` of it.
pub fn assemble<L: Line>(line: &FormattableLine) -> (r: Vec<u8>)
    requires
        line.wf(),
    ensures
        r@ == assembled::<L>(*line),
{
    let n = line.contents.len();
    match (line.formattable_start, line.formattable_end) {
        (Some(s), _) => {
            let mut out = subvec(&line.contents, 0, s);
            let mut formatted = L::format_hash(subvec(&line.contents, s, n));
            out.append(&mut formatted);
            proof {
                assert(line.contents@.subrange(0, s as int) =~= line.contents@.take(s as int));
                assert(line.contents@.subrange(s as int, n as int) =~= line.contents@.skip(
                    s as int,
                ));
            }
            out
        },
        (None, Some(e)) => {
            let mut out = L::format_hash(subvec(&line.contents, 0, e));
            let mut suffix = subvec(&line.contents, e, n);
            out.append(&mut suffix);
            proof {
                assert(line.contents@.subrange(0, e as int) =~= line.contents@.take(e as int));
                assert(line.contents@.subrange(e as int, n as int) =~= line.contents@.skip(
                    e as int,
                ));
            }
            out
        },
        (None, None) => {
            let out = subvec(&line.contents, 0, n);
            proof {
                assert(line.contents@.subrange(0, n as int) =~= line.contents@);
            }
            out
        },
    }
}

/// Copies `v[a..b]`.
fn subvec(v: &Vec<u8>, a: usize, b: usize) -> (r: Vec<u8>)
    requires
        a <= b <= v@.len(),
    ensures
        r@ == v@.subrange(a as int, b as int),
{
    let mut out: Vec<u8> = Vec::new();
    let mut i: usize = a;
    while i < b
        invariant
            a <= i <= b <= v@.len(),
            out@ == v@.subrange(a as int, i as int),
        decreases b - i,
    {
        out.push(v[i]);
        proof {
            assert(v@.subrange(a as int, i + 1) =~= v@.subrange(a as int, i as int).push(v@[i as int]));
        }
        i = i + 1;
    }
    out
}

} // verus!
