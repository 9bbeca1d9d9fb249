//! The targeting request: an operation, an anchor and an optional end.
use vstd::prelude::*;

verus! {

/// The kind of edit a selector asks for.
#[derive(Clone, Copy, Debug, PartialEq, Eq, Structural)]
pub enum Operation {
    InsertBefore,
    InsertAfter,
    InsertAfterNode,
    ReplaceRange,
    ReplaceExact,
    ReplaceNode,
}

/// Human-readable name of an operation.
pub open spec fn operation_text(op: Operation) -> Seq<char> {
    match op {
        Operation::InsertBefore => "insert before"@,
        Operation::InsertAfter => "insert after"@,
        Operation::InsertAfterNode => "insert after node"@,
        Operation::ReplaceRange => "replace range"@,
        Operation::ReplaceExact => "replace exact"@,
        Operation::ReplaceNode => "replace node"@,
    }
}

/// Insert-family operations place content at a point rather than over a range.
pub open spec fn is_insert(op: Operation) -> bool {
    op == Operation::InsertBefore || op == Operation::InsertAfter || op
        == Operation::InsertAfterNode
}

impl Operation {
    pub fn as_str(&self) -> (r: &'static str)
        ensures
            r@ == operation_text(*self),
    {
        match self {
            Operation::InsertBefore => "insert before",
            Operation::InsertAfter => "insert after",
            Operation::InsertAfterNode => "insert after node",
            Operation::ReplaceRange => "replace range",
            Operation::ReplaceExact => "replace exact",
            Operation::ReplaceNode => "replace node",
        }
    }
}

/// Unicode `White_Space`, the set that `str::trim` removes.
pub open spec fn is_white_space(c: char) -> bool {
    let u = c as u32;
    (0x9 <= u <= 0xd) || u == 0x20 || u == 0x85 || u == 0xa0 || u == 0x1680 || (0x2000 <= u
        <= 0x200a) || u == 0x2028 || u == 0x2029 || u == 0x202f || u == 0x205f || u == 0x3000
}

/// Text that is empty once trimmed.
pub open spec fn blank(s: Seq<char>) -> bool {
    forall|i: int| 0 <= i < s.len() ==> is_white_space(#[trigger] s[i])
}

pub fn is_white_space_char(c: char) -> (r: bool)
    ensures
        r == is_white_space(c),
{
    let u = c as u32;
    (0x9 <= u && u <= 0xd) || u == 0x20 || u == 0x85 || u == 0xa0 || u == 0x1680 || (0x2000 <= u
        && u <= 0x200a) || u == 0x2028 || u == 0x2029 || u == 0x202f || u == 0x205f || u == 0x3000
}

/// Whether a text holds only white space.
pub fn is_blank(s: &str) -> (r: bool)
    ensures
        r == blank(s@),
{
    let n = s.unicode_len();
    let mut i: usize = 0;
    while i < n
        invariant
            n == s@.len(),
            i <= n,
            forall|j: int| 0 <= j < i ==> is_white_space(#[trigger] s@[j]),
        decreases n - i,
    {
        if !is_white_space_char(s.get_char(i)) {
            return false;
        }
        i = i + 1;
    }
    true
}

pub open spec fn msg_anchor_empty() -> Seq<char> {
    "- `anchor` cannot be empty"@
}

pub open spec fn msg_end_on_insert() -> Seq<char> {
    "- End is not relevant for insert operations. Did you mean to `replace`?"@
}

pub open spec fn msg_end_required() -> Seq<char> {
    "- End is required for range replacement"@
}

pub open spec fn msg_end_on_replace() -> Seq<char> {
    "- `end` is not relevant for `replace_exact` operations. Did you intend to `replace_range`?"@
}

/// Every rule a selector breaks, in the order they are checked.
pub open spec fn selector_problems(op: Operation, anchor: Seq<char>, has_end: bool) -> Seq<
    Seq<char>,
> {
    let first = if blank(anchor) {
        seq![msg_anchor_empty()]
    } else {
        Seq::empty()
    };
    let second = if op == Operation::ReplaceRange {
        if has_end {
            Seq::empty()
        } else {
            seq![msg_end_required()]
        }
    } else if has_end {
        if is_insert(op) {
            seq![msg_end_on_insert()]
        } else {
            seq![msg_end_on_replace()]
        }
    } else {
        Seq::empty()
    };
    first + second
}

/// Lines joined with a newline between each pair.
pub open spec fn join_lines(lines: Seq<Seq<char>>) -> Seq<char>
    decreases lines.len(),
{
    if lines.len() == 0 {
        Seq::empty()
    } else if lines.len() == 1 {
        lines[0]
    } else {
        join_lines(lines.drop_last()) + "\n"@ + lines.last()
    }
}

/// A declarative edit target.
#[derive(Clone, Debug)]
pub struct Selector {
    pub operation: Operation,
    pub anchor: String,
    pub end: Option<String>,
}

impl Selector {
    pub open spec fn problems(&self) -> Seq<Seq<char>> {
        selector_problems(self.operation, self.anchor@, self.end is Some)
    }

    pub fn operation_name(&self) -> (r: &str)
        ensures
            r@ == operation_text(self.operation),
    {
        self.operation.as_str()
    }

    /// Checks the selector's shape before any parsing: the anchor must hold
    /// more than white space, and `end` must be given for a range
    /// replacement and for nothing else. Every broken rule is reported.
    pub fn validate(&self) -> (r: Result<(), String>)
        ensures
            r is Ok <==> self.problems().len() == 0,
            r is Err ==> r->Err_0@ == join_lines(self.problems()),
            blank(self.anchor@) ==> r is Err,
            !blank(self.anchor@) ==> (r is Err <==> if self.operation == Operation::ReplaceRange {
                self.end is None
            } else {
                self.end is Some
            }),
    {
        let blank_anchor = is_blank(self.anchor.as_str());
        let mut errors: Vec<&str> = Vec::new();
        if blank_anchor {
            errors.push("- `anchor` cannot be empty");
        }
        match self.operation {
            Operation::InsertBefore | Operation::InsertAfter | Operation::InsertAfterNode => {
                if self.end.is_some() {
                    errors.push(
                        "- End is not relevant for insert operations. Did you mean to `replace`?",
                    );
                }
            },
            Operation::ReplaceRange => {
                if self.end.is_none() {
                    errors.push("- End is required for range replacement");
                }
            },
            Operation::ReplaceExact | Operation::ReplaceNode => {
                if self.end.is_some() {
                    errors.push(
                        "- `end` is not relevant for `replace_exact` operations. Did you intend to `replace_range`?",
                    );
                }
            },
        }
        let ghost expected = self.problems();
        assert(errors@.map_values(|e: &str| e@) =~= expected);
        if errors.len() == 0 {
            Ok(())
        } else {
            Err(join_strs(&errors))
        }
    }
}

/// Joins texts with a newline between each pair.
pub fn join_strs(parts: &Vec<&str>) -> (r: String)
    ensures
        r@ == join_lines(parts@.map_values(|e: &str| e@)),
{
    let ghost views = parts@.map_values(|e: &str| e@);
    let mut out = String::new();
    let mut i: usize = 0;
    while i < parts.len()
        invariant
            i <= parts.len(),
            views == parts@.map_values(|e: &str| e@),
            out@ == join_lines(views.take(i as int)),
        decreases parts.len() - i,
    {
        if i > 0 {
            out.append("\n");
        }
        out.append(parts[i]);
        proof {
            let t = views.take(i as int + 1);
            assert(t.drop_last() =~= views.take(i as int));
            reveal_strlit("\n");
        }
        i = i + 1;
    }
    assert(views.take(parts.len() as int) =~= views);
    out
}

} // verus!
