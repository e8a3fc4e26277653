//! Font metrics as plain values: a per-glyph advance table and a line height
//! for each of the two font faces.
use vstd::prelude::*;

verus! {

/// Which of the two font faces a label is set in.
#[derive(Clone, Copy, Debug, PartialEq, Eq, Structural)]
pub enum Face {
    Regular,
    Mono,
}

/// Metrics of one font face. A glyph's advance is the first entry of
/// `advances` for its character, or `fallback_advance` when it has none.
#[derive(Clone, Debug)]
pub struct FaceMetrics {
    pub line_height: u64,
    pub fallback_advance: u64,
    pub advances: Vec<(char, u64)>,
}

/// The metrics of both faces, lent to the layout pass.
#[derive(Clone, Debug)]
pub struct FontFaces {
    pub regular: FaceMetrics,
    pub mono: FaceMetrics,
}

/// The advance of `c` in a table searched from its start.
pub open spec fn advance_in(table: Seq<(char, u64)>, fallback: u64, c: char) -> nat
    decreases table.len(),
{
    if table.len() == 0 {
        fallback as nat
    } else if table[0].0 == c {
        table[0].1 as nat
    } else {
        advance_in(table.drop_first(), fallback, c)
    }
}

/// The width of a run of text: the sum of its glyphs' advances.
pub open spec fn text_width(m: FaceMetrics, s: Seq<char>) -> nat
    decreases s.len(),
{
    if s.len() == 0 {
        0
    } else {
        (text_width(m, s.drop_last()) + m.spec_advance(s.last())) as nat
    }
}

/// A prefix of a text is never wider than the whole text.
pub proof fn lemma_text_width_prefix(m: FaceMetrics, s: Seq<char>, k: int)
    requires
        0 <= k <= s.len(),
    ensures
        text_width(m, s.subrange(0, k)) <= text_width(m, s),
    decreases s.len(),
{
    if s.len() == 0 {
        assert(s.subrange(0, k) =~= s);
    } else {
        if k == s.len() {
            assert(s.subrange(0, k) =~= s);
            lemma_text_width_prefix(m, s.drop_last(), k - 1);
        } else {
            assert(s.drop_last().subrange(0, k) =~= s.subrange(0, k));
            lemma_text_width_prefix(m, s.drop_last(), k);
        }
    }
}

impl FaceMetrics {
    pub open spec fn spec_advance(&self, c: char) -> nat {
        advance_in(self.advances@, self.fallback_advance, c)
    }

    /// A face whose every glyph advances by the same width.
    pub fn fixed(advance: u64, line_height: u64) -> (r: FaceMetrics)
        ensures
            r.line_height == line_height,
            r.fallback_advance == advance,
            r.advances@.len() == 0,
    {
        FaceMetrics { line_height, fallback_advance: advance, advances: Vec::new() }
    }

    /// The advance of one glyph.
    pub fn advance(&self, c: char) -> (r: u64)
        ensures
            r == self.spec_advance(c),
    {
        let ghost table = self.advances@;
        let n = self.advances.len();
        assert(table.subrange(0, n as int) =~= table);
        for i in 0..n
            invariant
                n == table.len(),
                table == self.advances@,
                advance_in(table.subrange(i as int, n as int), self.fallback_advance, c)
                    == self.spec_advance(c),
        {
            assert(table.subrange(i as int, n as int).drop_first() =~= table.subrange(
                i + 1,
                n as int,
            ));
            if self.advances[i].0 == c {
                return self.advances[i].1;
            }
        }
        self.fallback_advance
    }

    /// The width of a label, or `None` when it does not fit in 64 bits.
    pub fn text_width(&self, s: &str) -> (r: Option<u64>)
        ensures
            text_width(*self, s@) <= u64::MAX ==> r == Some(text_width(*self, s@) as u64),
            text_width(*self, s@) > u64::MAX ==> r is None,
    {
        let mut total: u64 = 0;
        for c in it: s.chars()
            invariant
                it.seq() == s@,
                total == text_width(*self, s@.subrange(0, it.index() as int)),
        {
            let ghost k = it.index() as int;
            assert(s@.subrange(0, k + 1).drop_last() =~= s@.subrange(0, k));
            let a = self.advance(c);
            if a > u64::MAX - total {
                proof {
                    lemma_text_width_prefix(*self, s@, k + 1);
                }
                return None;
            }
            total = total + a;
        }
        assert(s@.subrange(0, s@.len() as int) =~= s@);
        Some(total)
    }
}

impl FontFaces {
    pub open spec fn spec_face(&self, f: Face) -> FaceMetrics {
        match f {
            Face::Regular => self.regular,
            Face::Mono => self.mono,
        }
    }

    /// The metrics of one face.
    pub fn face(&self, f: Face) -> (r: &FaceMetrics)
        ensures
            *r == self.spec_face(f),
    {
        match f {
            Face::Regular => &self.regular,
            Face::Mono => &self.mono,
        }
    }
}

} // verus!
