//! The semantic layer of validation: structural query captures named
//! `invalid.*` become placement violations, reported with the text of the
//! construct that encloses each one.
use crate::syntax::{capture_name, query_capture_list, query_capture_names, query_captures};
use tree_sitter::{Query, Tree};
use crate::text::{drop_chars, has_prefix, same_text, starts_with_text, byte_slice};
use vstd::prelude::*;
use vstd::string::StringSliceAdditionalSpecFns;
use vstd::utf8::*;

verus! {

broadcast use {encode_utf8_valid_utf8, encode_utf8_decode_utf8, is_char_boundary_start_end_of_seq};

/// Runs structural queries against a parsed tree.
pub struct ContextValidator;

/// One construct placed where the language does not allow it.
#[derive(Debug)]
pub struct ContextViolation {
    /// Byte range of the construct that encloses the offending node.
    pub start_byte: usize,
    pub end_byte: usize,
    pub message: String,
    pub suggestion: &'static str,
}

/// The outcome of the semantic layer on one text.
#[derive(Debug)]
pub struct ValidationResult<'source> {
    pub is_valid: bool,
    pub violations: Vec<ContextViolation>,
    pub source_code: &'source str,
}

/// The message shown for a capture kind.
pub open spec fn violation_message(kind: Seq<char>) -> Seq<char> {
    if kind == "invalid.function.in.struct.fields"@ {
        "Functions cannot be defined inside struct field lists"@
    } else if kind == "invalid.function.in.enum.variants"@ {
        "Functions cannot be defined inside enum variant lists"@
    } else if kind == "invalid.type.in.function.body"@ {
        "Type definitions cannot be placed inside function bodies"@
    } else if kind == "invalid.impl.in.function.body"@ {
        "Impl blocks cannot be placed inside function bodies"@
    } else if kind == "invalid.trait.in.function.body"@ {
        "Trait definitions cannot be placed inside function bodies"@
    } else if kind == "invalid.impl.nested"@ {
        "Impl blocks can only be defined at module level"@
    } else if kind == "invalid.trait.nested"@ {
        "Trait definitions can only be defined at module level"@
    } else if kind == "invalid.use.in.item.body"@ {
        "Use declarations should be at module level"@
    } else if kind == "invalid.const.in.function.body"@ {
        "Const/static items should be at module level"@
    } else if kind == "invalid.mod.in.function.body"@ {
        "Module declarations cannot be inside function bodies"@
    } else if kind == "invalid.item.nested.in.item"@ {
        "Items cannot be nested inside other items"@
    } else if kind == "invalid.expression.as.type"@ {
        "Expressions cannot be used as types"@
    } else if has_prefix(kind, "invalid."@) {
        "Invalid placement: "@ + kind.subrange(8, kind.len() as int)
    } else {
        "Invalid placement: "@ + kind
    }
}

/// The suggestion shown for a capture kind.
pub open spec fn violation_suggestion(kind: Seq<char>) -> Seq<char> {
    if kind == "invalid.function.in.struct.fields"@ || kind
        == "invalid.function.in.enum.variants"@ {
        "Place the function after the type definition"@
    } else if kind == "invalid.type.in.function.body"@ || kind
        == "invalid.impl.in.function.body"@ || kind == "invalid.trait.in.function.body"@ {
        "Move this to module level"@
    } else if kind == "invalid.use.in.item.body"@ {
        "Move use declarations to the top of the file"@
    } else {
        "Consider placing this construct in an appropriate context"@
    }
}

/// Largest character boundary at or below `p`.
pub open spec fn boundary_back(b: Seq<u8>, p: int) -> int
    decreases p,
{
    if p <= 0 {
        0
    } else if is_char_boundary(b, p) {
        p
    } else {
        boundary_back(b, p - 1)
    }
}

/// Smallest character boundary at or above `p`, or `p` itself past the end.
pub open spec fn boundary_fwd(b: Seq<u8>, p: int) -> int
    decreases b.len() - p,
{
    if p >= b.len() {
        p
    } else if is_char_boundary(b, p) {
        p
    } else {
        boundary_fwd(b, p + 1)
    }
}

pub open spec fn min_int(a: int, b: int) -> int {
    if a <= b {
        a
    } else {
        b
    }
}

/// The text shown for the byte range `[start, end)`: widened outward to
/// character boundaries, or a marker where no text can be shown.
pub open spec fn snippet(b: Seq<u8>, start: int, end: int) -> Seq<char> {
    if end > b.len() {
        "<range out of bounds>"@
    } else {
        let s = boundary_back(b, min_int(start, b.len() as int));
        let e = boundary_fwd(b, end);
        if s <= e {
            decode_utf8(b.subrange(s, e))
        } else {
            "<invalid UTF-8 range>"@
        }
    }
}

pub open spec fn violation_text(v: &ContextViolation, b: Seq<u8>) -> Seq<char> {
    "• "@ + v.message@ + ":\n"@ + snippet(b, v.start_byte as int, v.end_byte as int) + "\n\n"@
        + "  💡 Suggestion: "@ + v.suggestion@ + "\n"@
}

pub open spec fn violations_text(vs: Seq<ContextViolation>, b: Seq<u8>) -> Seq<char>
    decreases vs.len(),
{
    if vs.len() == 0 {
        Seq::empty()
    } else {
        violations_text(vs.drop_last(), b) + violation_text(&vs.last(), b)
    }
}

/// The report of the semantic layer.
pub open spec fn context_report(is_valid: bool, vs: Seq<ContextViolation>, b: Seq<u8>) -> Seq<
    char,
> {
    if is_valid {
        "✅ All validations passed"@
    } else {
        "❌ Invalid placement detected:\n\n"@ + violations_text(vs, b)
    }
}

pub proof fn lemma_boundary_back(b: Seq<u8>, p: int)
    requires
        valid_utf8(b),
        p <= b.len(),
    ensures
        0 <= boundary_back(b, p) <= (if p < 0 { 0 } else { p }),
        is_char_boundary(b, boundary_back(b, p)),
    decreases p,
{
    if p > 0 && !is_char_boundary(b, p) {
        lemma_boundary_back(b, p - 1);
    }
}

pub proof fn lemma_boundary_fwd(b: Seq<u8>, p: int)
    requires
        valid_utf8(b),
        0 <= p <= b.len(),
    ensures
        p <= boundary_fwd(b, p) <= b.len(),
        is_char_boundary(b, boundary_fwd(b, p)),
    decreases b.len() - p,
{
    if p < b.len() && !is_char_boundary(b, p) {
        lemma_boundary_fwd(b, p + 1);
    }
}

/// Boundary safety: whatever byte range a violation carries, the text
/// reported for it is cut at character boundaries of the source, so it is
/// whole characters and never a torn encoding.
pub proof fn lemma_snippet_cut_on_boundaries(source: &str, start: usize, end: usize)
    requires
        end <= source.spec_bytes().len(),
    ensures
        is_char_boundary(
            source.spec_bytes(),
            boundary_back(source.spec_bytes(), min_int(start as int, source.spec_bytes().len() as int)),
        ),
        is_char_boundary(source.spec_bytes(), boundary_fwd(source.spec_bytes(), end as int)),
{
    let b = source.spec_bytes();
    lemma_boundary_back(b, min_int(start as int, b.len() as int));
    lemma_boundary_fwd(b, end as int);
}

impl ContextValidator {
    /// Maps a capture kind to its message.
    pub fn get_violation_message(violation_type: &str) -> (r: String)
        ensures
            r@ == violation_message(violation_type@),
    {
        let t = violation_type;
        let fixed: &str = if same_text(t, "invalid.function.in.struct.fields") {
            "Functions cannot be defined inside struct field lists"
        } else if same_text(t, "invalid.function.in.enum.variants") {
            "Functions cannot be defined inside enum variant lists"
        } else if same_text(t, "invalid.type.in.function.body") {
            "Type definitions cannot be placed inside function bodies"
        } else if same_text(t, "invalid.impl.in.function.body") {
            "Impl blocks cannot be placed inside function bodies"
        } else if same_text(t, "invalid.trait.in.function.body") {
            "Trait definitions cannot be placed inside function bodies"
        } else if same_text(t, "invalid.impl.nested") {
            "Impl blocks can only be defined at module level"
        } else if same_text(t, "invalid.trait.nested") {
            "Trait definitions can only be defined at module level"
        } else if same_text(t, "invalid.use.in.item.body") {
            "Use declarations should be at module level"
        } else if same_text(t, "invalid.const.in.function.body") {
            "Const/static items should be at module level"
        } else if same_text(t, "invalid.mod.in.function.body") {
            "Module declarations cannot be inside function bodies"
        } else if same_text(t, "invalid.item.nested.in.item") {
            "Items cannot be nested inside other items"
        } else if same_text(t, "invalid.expression.as.type") {
            "Expressions cannot be used as types"
        } else {
            let mut out = String::from_str("Invalid placement: ");
            if starts_with_text(t, "invalid.") {
                proof {
                    reveal_strlit("invalid.");
                }
                out.append(drop_chars(t, 8));
            } else {
                out.append(t);
            }
            return out;
        };
        String::from_str(fixed)
    }

    /// Maps a capture kind to its suggestion.
    pub fn get_violation_suggestion(violation_type: &str) -> (r: &'static str)
        ensures
            r@ == violation_suggestion(violation_type@),
    {
        let t = violation_type;
        if same_text(t, "invalid.function.in.struct.fields") || same_text(
            t,
            "invalid.function.in.enum.variants",
        ) {
            "Place the function after the type definition"
        } else if same_text(t, "invalid.type.in.function.body") || same_text(
            t,
            "invalid.impl.in.function.body",
        ) || same_text(t, "invalid.trait.in.function.body") {
            "Move this to module level"
        } else if same_text(t, "invalid.use.in.item.body") {
            "Move use declarations to the top of the file"
        } else {
            "Consider placing this construct in an appropriate context"
        }
    }
}


/// Captures whose kind is an `invalid.*` name, in capture order.
pub open spec fn invalid_captures(caps: Seq<(String, usize, usize)>) -> Seq<(String, usize, usize)>
    decreases caps.len(),
{
    if caps.len() == 0 {
        Seq::empty()
    } else {
        invalid_captures(caps.drop_last()) + if has_prefix(caps.last().0@, "invalid."@) {
            seq![caps.last()]
        } else {
            Seq::empty()
        }
    }
}

/// `v` is the violation that the capture `c` stands for.
pub open spec fn violation_for(v: ContextViolation, c: (String, usize, usize)) -> bool {
    &&& v.message@ == violation_message(c.0@)
    &&& v.suggestion@ == violation_suggestion(c.0@)
    &&& v.start_byte == c.1
    &&& v.end_byte == c.2
}

/// A named capture as texts and offsets.
pub open spec fn cap_view(c: (String, usize, usize)) -> (Seq<char>, usize, usize) {
    (c.0@, c.1, c.2)
}

/// The captures named `invalid.*`, in order.
pub open spec fn invalid_views(caps: Seq<(Seq<char>, usize, usize)>) -> Seq<(Seq<char>, usize, usize)>
    decreases caps.len(),
{
    if caps.len() == 0 {
        Seq::empty()
    } else {
        invalid_views(caps.drop_last()) + if has_prefix(caps.last().0, "invalid."@) {
            seq![caps.last()]
        } else {
            Seq::empty()
        }
    }
}

/// `v` is the violation that the named capture `c` stands for.
pub open spec fn violation_matches(v: ContextViolation, c: (Seq<char>, usize, usize)) -> bool {
    &&& v.message@ == violation_message(c.0)
    &&& v.suggestion@ == violation_suggestion(c.0)
    &&& v.start_byte == c.1
    &&& v.end_byte == c.2
}

/// The query's captures with their names, each with the span of its
/// node's parent, or of the node itself at the root; captures whose index
/// has no name are left out.
pub open spec fn named_captures(
    raw: Seq<(u32, (usize, usize), Option<(usize, usize)>)>,
    names: Seq<Seq<char>>,
) -> Seq<(Seq<char>, usize, usize)>
    decreases raw.len(),
{
    if raw.len() == 0 {
        Seq::empty()
    } else {
        let c = raw.last();
        let span = match c.2 {
            Some(p) => p,
            None => c.1,
        };
        named_captures(raw.drop_last(), names) + if c.0 < names.len() {
            seq![(names[c.0 as int], span.0, span.1)]
        } else {
            Seq::empty()
        }
    }
}

proof fn lemma_invalid_views(caps: Seq<(String, usize, usize)>)
    ensures
        invalid_views(caps.map_values(|c: (String, usize, usize)| cap_view(c))) == invalid_captures(
            caps,
        ).map_values(|c: (String, usize, usize)| cap_view(c)),
    decreases caps.len(),
{
    if caps.len() > 0 {
        lemma_invalid_views(caps.drop_last());
        assert(caps.map_values(|c: (String, usize, usize)| cap_view(c)).drop_last() =~= caps.drop_last().map_values(
            |c: (String, usize, usize)| cap_view(c),
        ));
        assert(invalid_captures(caps).map_values(|c: (String, usize, usize)| cap_view(c)) =~= invalid_captures(
            caps.drop_last(),
        ).map_values(|c: (String, usize, usize)| cap_view(c)) + (if has_prefix(caps.last().0@, "invalid."@) {
            seq![caps.last()]
        } else {
            Seq::empty()
        }).map_values(|c: (String, usize, usize)| cap_view(c)));
    }
}

impl ContextValidator {
    /// Turns named captures into violations: every capture whose name
    /// starts with `invalid.` is one, in capture order.
    pub fn collect_violations(captures: &Vec<(String, usize, usize)>) -> (r: Vec<ContextViolation>)
        ensures
            r@.len() == invalid_captures(captures@).len(),
            forall|i: int|
                0 <= i < r@.len() ==> violation_for(#[trigger] r@[i], invalid_captures(captures@)[i]),
    {
        let mut out: Vec<ContextViolation> = Vec::new();
        let mut i: usize = 0;
        while i < captures.len()
            invariant
                i <= captures@.len(),
                out@.len() == invalid_captures(captures@.take(i as int)).len(),
                forall|j: int|
                    0 <= j < out@.len() ==> violation_for(
                        #[trigger] out@[j],
                        invalid_captures(captures@.take(i as int))[j],
                    ),
            decreases captures.len() - i,
        {
            let ghost prev = captures@.take(i as int);
            proof {
                assert(captures@.take(i + 1).drop_last() =~= prev);
            }
            let kind = captures[i].0.as_str();
            if starts_with_text(kind, "invalid.") {
                out.push(
                    ContextViolation {
                        start_byte: captures[i].1,
                        end_byte: captures[i].2,
                        message: Self::get_violation_message(kind),
                        suggestion: Self::get_violation_suggestion(kind),
                    },
                );
            }
            i = i + 1;
        }
        assert(captures@.take(captures@.len() as int) =~= captures@);
        out
    }

    /// Runs the structural query over the tree and reports each capture
    /// named `invalid.*` as a violation, with the span of the construct
    /// that encloses it.
    pub fn validate_tree<'tree, 'source>(
        tree: &'tree Tree,
        query: &Query,
        source_code: &'source str,
    ) -> (r: ValidationResult<'source>)
        ensures
            r.is_valid == (r.violations@.len() == 0),
            r.source_code == source_code,
            ({
                let caps = invalid_views(
                    named_captures(query_capture_list(*query, *tree, source_code@), query_capture_names(*query)),
                );
                &&& r.violations@.len() == caps.len()
                &&& forall|i: int| 0 <= i < caps.len() ==> violation_matches(#[trigger] r.violations@[i], caps[i])
            }),
    {
        let raw = query_captures(query, tree, source_code);
        let ghost names = query_capture_names(*query);
        let mut named: Vec<(String, usize, usize)> = Vec::new();
        let mut i: usize = 0;
        while i < raw.len()
            invariant
                i <= raw@.len(),
                names == query_capture_names(*query),
                named@.map_values(|c: (String, usize, usize)| cap_view(c)) == named_captures(
                    raw@.take(i as int),
                    names,
                ),
            decreases raw.len() - i,
        {
            let (index, node_span, parent_span) = raw[i];
            let ghost before = named@;
            proof {
                assert(raw@.take(i + 1).drop_last() =~= raw@.take(i as int));
                assert(raw@.take(i + 1).last() == raw@[i as int]);
            }
            if let Some(name) = capture_name(query, index) {
                let outer = match parent_span {
                    Some(p) => p,
                    None => node_span,
                };
                named.push((name, outer.0, outer.1));
                assert(named@.map_values(|c: (String, usize, usize)| cap_view(c)) =~= before.map_values(
                    |c: (String, usize, usize)| cap_view(c),
                ).push((names[index as int], outer.0, outer.1)));
            }
            proof {
                assert(named@.map_values(|c: (String, usize, usize)| cap_view(c)) =~= named_captures(
                    raw@.take(i + 1),
                    names,
                ));
            }
            i = i + 1;
        }
        assert(raw@.take(raw@.len() as int) =~= raw@);
        let violations = Self::collect_violations(&named);
        proof {
            lemma_invalid_views(named@);
            let caps = invalid_captures(named@);
            assert forall|k: int| 0 <= k < caps.len() implies violation_matches(
                #[trigger] violations@[k],
                invalid_views(named@.map_values(|c: (String, usize, usize)| cap_view(c)))[k],
            ) by {
                assert(violation_for(violations@[k], caps[k]));
                assert(invalid_views(named@.map_values(|c: (String, usize, usize)| cap_view(c)))[k] == cap_view(caps[k]));
            }
        }
        ValidationResult { is_valid: violations.len() == 0, violations, source_code }
    }
}

impl<'source> ValidationResult<'source> {
    /// The nearest character boundary from `byte_pos`, searching toward
    /// the start or toward the end of the source.
    fn find_utf8_boundary(&self, byte_pos: usize, search_backward: bool) -> (r: usize)
        ensures
            search_backward ==> r == boundary_back(
                self.source_code.spec_bytes(),
                min_int(byte_pos as int, self.source_code.spec_bytes().len() as int),
            ),
            !search_backward ==> r == boundary_fwd(
                self.source_code.spec_bytes(),
                min_int(byte_pos as int, self.source_code.spec_bytes().len() as int),
            ),
            r <= self.source_code.spec_bytes().len(),
            is_char_boundary(self.source_code.spec_bytes(), r as int),
    {
        let ghost b = self.source_code.spec_bytes();
        let len = self.source_code.as_bytes().len();
        let mut pos = if byte_pos < len {
            byte_pos
        } else {
            len
        };
        proof {
            lemma_boundary_back(b, pos as int);
            lemma_boundary_fwd(b, pos as int);
        }
        if search_backward {
            let ghost target = boundary_back(b, pos as int);
            while pos > 0 && !self.source_code.is_char_boundary(pos)
                invariant
                    pos <= len,
                    len == b.len(),
                    b == self.source_code.spec_bytes(),
                    boundary_back(b, pos as int) == target,
                decreases pos,
            {
                assert(!is_char_boundary(b, pos as int));
                assert(boundary_back(b, pos as int) == boundary_back(b, pos - 1));
                pos = pos - 1;
            }
        } else {
            let ghost target = boundary_fwd(b, pos as int);
            while pos < len && !self.source_code.is_char_boundary(pos)
                invariant
                    pos <= len,
                    len == b.len(),
                    b == self.source_code.spec_bytes(),
                    boundary_fwd(b, pos as int) == target,
                decreases len - pos,
            {
                assert(!is_char_boundary(b, pos as int));
                assert(boundary_fwd(b, pos as int) == boundary_fwd(b, pos + 1));
                pos = pos + 1;
            }
        }
        pos
    }

    /// The source text of the byte range `[start, end)`, widened to
    /// character boundaries.
    fn source_slice(&self, start: usize, end: usize) -> (r: &str)
        ensures
            r@ == snippet(self.source_code.spec_bytes(), start as int, end as int),
    {
        let len = self.source_code.as_bytes().len();
        if end > len {
            return "<range out of bounds>";
        }
        let s = self.find_utf8_boundary(start, true);
        let e = self.find_utf8_boundary(end, false);
        if s <= e {
            byte_slice(self.source_code, s, e)
        } else {
            "<invalid UTF-8 range>"
        }
    }

    /// The report: a pass line, or each violation with its message, the
    /// enclosing construct's text and a suggestion.
    pub fn format_errors(&self) -> (r: String)
        ensures
            r@ == context_report(self.is_valid, self.violations@, self.source_code.spec_bytes()),
    {
        if self.is_valid {
            return String::from_str("✅ All validations passed");
        }
        let ghost b = self.source_code.spec_bytes();
        let mut response = String::from_str("❌ Invalid placement detected:\n\n");
        let mut i: usize = 0;
        while i < self.violations.len()
            invariant
                i <= self.violations@.len(),
                b == self.source_code.spec_bytes(),
                response@ == "❌ Invalid placement detected:\n\n"@ + violations_text(
                    self.violations@.take(i as int),
                    b,
                ),
            decreases self.violations.len() - i,
        {
            let v = &self.violations[i];
            response.append("• ");
            response.append(v.message.as_str());
            response.append(":\n");
            response.append(self.source_slice(v.start_byte, v.end_byte));
            response.append("\n\n");
            response.append("  💡 Suggestion: ");
            response.append(v.suggestion);
            response.append("\n");
            proof {
                assert(self.violations@.take(i + 1).drop_last() =~= self.violations@.take(i as int));
                assert(response@ =~= "❌ Invalid placement detected:\n\n"@ + violations_text(
                    self.violations@.take(i + 1),
                    b,
                ));
            }
            i = i + 1;
        }
        assert(self.violations@.take(self.violations@.len() as int) =~= self.violations@);
        response
    }
}

} // verus!
