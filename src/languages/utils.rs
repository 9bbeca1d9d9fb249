//! Byte offset to line number conversion.
use vstd::prelude::*;
use vstd::string::StringSliceAdditionalSpecFns;

verus! {

/// Offsets at which a line begins after the one starting at or before `i`:
/// after each `\n`, after each `\r\n` pair, and after each lone `\r`.
pub open spec fn starts_from(b: Seq<u8>, i: int) -> Seq<usize>
    decreases b.len() - i,
{
    if i < 0 || i >= b.len() {
        Seq::empty()
    } else if b[i] == 10 {
        seq![(i + 1) as usize] + starts_from(b, i + 1)
    } else if b[i] == 13 {
        if i + 1 < b.len() && b[i + 1] == 10 {
            seq![(i + 2) as usize] + starts_from(b, i + 2)
        } else {
            seq![(i + 1) as usize] + starts_from(b, i + 1)
        }
    } else {
        starts_from(b, i + 1)
    }
}

/// The offset of the first byte of every line of `b`, the first line included.
pub open spec fn line_starts(b: Seq<u8>) -> Seq<usize> {
    seq![0usize] + starts_from(b, 0)
}

pub open spec fn strictly_increasing(s: Seq<usize>) -> bool {
    forall|i: int, j: int| 0 <= i < j < s.len() ==> s[i] < s[j]
}

/// Line `r` holds `offset`: it starts at or before it and the next line
/// starts after it. Past the last line start, the last line.
pub open spec fn line_holding(starts: Seq<usize>, offset: int, r: int) -> bool {
    &&& 0 <= r < starts.len()
    &&& starts[r] <= offset
    &&& (r + 1 == starts.len() || offset < starts[r + 1])
}

/// The line that holds `offset`.
pub open spec fn line_at(starts: Seq<usize>, offset: int) -> int {
    choose|r: int| line_holding(starts, offset, r)
}

/// In increasing line starts, at most one line holds an offset.
pub proof fn lemma_line_holding_unique(starts: Seq<usize>, offset: int, r: int)
    requires
        strictly_increasing(starts),
        line_holding(starts, offset, r),
    ensures
        line_at(starts, offset) == r,
{
    let q = line_at(starts, offset);
    assert(line_holding(starts, offset, q));
    if q < r {
        assert(starts[q + 1] <= starts[r]);
    } else if r < q {
        assert(starts[r + 1] <= starts[q]);
    }
}

proof fn lemma_starts_from(b: Seq<u8>, i: int)
    requires
        0 <= i,
        b.len() <= usize::MAX,
    ensures
        strictly_increasing(starts_from(b, i)),
        forall|k: int| 0 <= k < starts_from(b, i).len() ==> i < #[trigger] starts_from(b, i)[k] <= b.len(),
    decreases b.len() - i,
{
    if i < b.len() {
        if b[i] == 10 {
            lemma_starts_from(b, i + 1);
        } else if b[i] == 13 {
            if i + 1 < b.len() && b[i + 1] == 10 {
                lemma_starts_from(b, i + 2);
            } else {
                lemma_starts_from(b, i + 1);
            }
        } else {
            lemma_starts_from(b, i + 1);
        }
    }
}

/// Maps byte offsets of one text to zero-based line numbers.
pub struct LineConverter {
    newline_positions: Vec<usize>,
}

impl View for LineConverter {
    type V = Seq<usize>;

    closed spec fn view(&self) -> Seq<usize> {
        self.newline_positions@
    }
}

impl LineConverter {
    pub open spec fn wf(&self) -> bool {
        self@.len() > 0 && self@[0] == 0 && strictly_increasing(self@)
    }

    /// Records where each line of `text` starts; `\r\n` counts as one break.
    pub fn new(text: &str) -> (r: Self)
        ensures
            r@ == line_starts(text.spec_bytes()),
            r.wf(),
    {
        let bytes = text.as_bytes();
        let ghost b = bytes@;
        let mut newline_positions: Vec<usize> = Vec::new();
        newline_positions.push(0);
        let mut i: usize = 0;
        while i < bytes.len()
            invariant
                b == bytes@,
                i <= b.len(),
                newline_positions@ + starts_from(b, i as int) == line_starts(b),
            decreases bytes.len() - i,
        {
            let ghost before = newline_positions@;
            if bytes[i] == 10 {
                newline_positions.push(i + 1);
                assert(newline_positions@ + starts_from(b, i + 1) =~= before + starts_from(b, i as int));
                i = i + 1;
            } else if bytes[i] == 13 {
                if i + 1 < bytes.len() && bytes[i + 1] == 10 {
                    newline_positions.push(i + 2);
                    assert(newline_positions@ + starts_from(b, i + 2) =~= before + starts_from(b, i as int));
                    i = i + 2;
                } else {
                    newline_positions.push(i + 1);
                    assert(newline_positions@ + starts_from(b, i + 1) =~= before + starts_from(b, i as int));
                    i = i + 1;
                }
            } else {
                i = i + 1;
            }
        }
        assert(newline_positions@ =~= line_starts(b));
        proof {
            assert(b.len() == bytes.len());
            lemma_starts_from(b, 0);
            assert(strictly_increasing(line_starts(b))) by {
                assert forall|x: int, y: int| 0 <= x < y < line_starts(b).len() implies line_starts(b)[x] < line_starts(b)[y] by {
                    if x > 0 {
                        assert(line_starts(b)[x] == starts_from(b, 0)[x - 1]);
                    }
                    assert(line_starts(b)[y] == starts_from(b, 0)[y - 1]);
                }
            }
        }
        LineConverter { newline_positions }
    }

    /// The zero-based line that holds byte `offset`; an offset past the text
    /// gives the last line.
    pub fn offset_to_line(&self, offset: usize) -> (r: usize)
        requires
            self.wf(),
        ensures
            line_holding(self@, offset as int, r as int),
            r == line_at(self@, offset as int),
    {
        let v = &self.newline_positions;
        let mut lo: usize = 0;
        let mut hi: usize = v.len();
        while lo + 1 < hi
            invariant
                0 <= lo < hi <= v@.len(),
                v@ == self@,
                self.wf(),
                v@[lo as int] <= offset,
                hi == v@.len() || offset < v@[hi as int],
            decreases hi - lo,
        {
            let mid = lo + (hi - lo) / 2;
            if v[mid] <= offset {
                lo = mid;
            } else {
                hi = mid;
            }
        }
        proof {
            if lo + 1 < v@.len() {
                assert(hi == lo + 1);
            }
            lemma_line_holding_unique(self@, offset as int, lo as int);
        }
        lo
    }

    /// The lines holding `start_offset` and `end_offset`, as a range.
    pub fn range_to_lines(&self, start_offset: usize, end_offset: usize) -> (r: std::ops::Range<usize>)
        requires
            self.wf(),
        ensures
            line_holding(self@, start_offset as int, r.start as int),
            line_holding(self@, end_offset as int, r.end as int),
            r.start == line_at(self@, start_offset as int),
            r.end == line_at(self@, end_offset as int),
    {
        std::ops::Range { start: self.offset_to_line(start_offset), end: self.offset_to_line(end_offset) }
    }
}

} // verus!
