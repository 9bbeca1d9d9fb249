//! One candidate: a position in the source and the content to put there.
use crate::editor::edit_position::EditPosition;
use crate::error::SemanticEditError;
use crate::text::byte_slice;
use vstd::prelude::*;
use vstd::string::StringSliceAdditionalSpecFns;
use vstd::utf8::*;

verus! {

broadcast use {encode_utf8_valid_utf8, is_char_boundary_start_end_of_seq};

/// A concrete edit candidate.
#[derive(Debug)]
pub struct Edit {
    pub position: EditPosition,
    pub content: String,
}

impl View for Edit {
    type V = (EditPosition, Seq<char>);

    open spec fn view(&self) -> (EditPosition, Seq<char>) {
        (self.position, self.content@)
    }
}

/// The end of the replaced range; an insertion replaces nothing.
pub open spec fn end_of(p: EditPosition) -> int {
    match p.end_byte {
        Some(e) => e as int,
        None => p.start_byte as int,
    }
}

/// The position can be applied to the bytes `b`: in order, in bounds and on
/// character boundaries.
pub open spec fn fits(b: Seq<u8>, p: EditPosition) -> bool {
    &&& p.start_byte <= end_of(p) <= b.len()
    &&& is_char_boundary(b, p.start_byte as int)
    &&& is_char_boundary(b, end_of(p))
}

/// The text after splicing `c` over the position in the source bytes `b`.
pub open spec fn spliced(b: Seq<u8>, p: EditPosition, c: Seq<char>) -> Seq<char> {
    decode_utf8(b.subrange(0, p.start_byte as int)) + c + decode_utf8(
        b.subrange(end_of(p), b.len() as int),
    )
}

impl Edit {
    pub fn new(position: EditPosition, content: String) -> (r: Self)
        ensures
            r.position == position,
            r.content@ == content@,
    {
        Edit { position, content }
    }

    /// The same position with other content.
    pub fn with_content(self, content: String) -> (r: Self)
        ensures
            r.position == self.position,
            r.content@ == content@,
    {
        Edit { position: self.position, content }
    }

    /// The same start and content, replacing up to `end_byte`.
    pub fn with_end_byte(self, end_byte: usize) -> (r: Self)
        ensures
            r.position == (EditPosition { start_byte: self.position.start_byte, end_byte: Some(end_byte) }),
            r.content@ == self.content@,
    {
        Edit {
            position: EditPosition { start_byte: self.position.start_byte, end_byte: Some(end_byte) },
            content: self.content,
        }
    }

    /// Splices the content into `source`: over `[start_byte, end_byte)` for
    /// a replacement, at `start_byte` for an insertion. A position out of
    /// order, out of bounds or inside a character is refused.
    pub fn apply(&self, source: &str) -> (r: Result<String, SemanticEditError>)
        ensures
            r is Ok <==> fits(source.spec_bytes(), self.position),
            r is Ok ==> r->Ok_0@ == spliced(source.spec_bytes(), self.position, self.content@),
            r is Err ==> r->Err_0 is TextRangeOutOfBounds || r->Err_0 is InvalidUtf8Boundary,
    {
        let len = source.as_bytes().len();
        let start = self.position.start_byte;
        let end = match self.position.end_byte {
            Some(e) => e,
            None => start,
        };
        if start > end || end > len {
            return Err(SemanticEditError::TextRangeOutOfBounds { start, end, max: len });
        }
        if !source.is_char_boundary(start) {
            return Err(SemanticEditError::InvalidUtf8Boundary { position: start });
        }
        if !source.is_char_boundary(end) {
            return Err(SemanticEditError::InvalidUtf8Boundary { position: end });
        }
        let head = byte_slice(source, 0, start);
        let tail = byte_slice(source, end, len);
        let mut out = String::from_str(head);
        out.append(self.content.as_str());
        out.append(tail);
        Ok(out)
    }
}

} // verus!
