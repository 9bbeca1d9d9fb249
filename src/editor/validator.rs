//! The two-layer validator: syntax errors first, then the language's
//! placement rules, with a numbered source excerpt around each error line.
use crate::languages::{editor_rows, LanguageCommon};
use crate::syntax::{parsed_nodes, query_capture_list, query_capture_names, tree_nodes};
use crate::validation::context_validator::{invalid_views, named_captures};
use crate::text::{decimal, decimal_text, lines_of, pad_left, pad_left_text, split_lines};
use crate::validation::ContextValidator;
use crate::validation::context_validator::{context_report, ContextViolation, ValidationResult};
use vstd::string::StringSliceAdditionalSpecFns;
use tree_sitter::Tree;
use vstd::prelude::*;

verus! {

/// Judges a parsed text.
pub struct Validator;

/// Line `i` is marked as holding an error.
pub open spec fn marked_line(errs: Seq<usize>, i: int) -> bool {
    exists|k: int| 0 <= k < errs.len() && errs[k] == i
}

/// Line `i` lies within three lines of some error line `e`.
pub open spec fn shown_line(errs: Seq<usize>, i: int) -> bool {
    exists|k: int| 0 <= k < errs.len() && #[trigger] errs[k] - 3 <= i <= errs[k] + 3
}

/// One numbered excerpt line.
pub open spec fn excerpt_row(i: int, line: Seq<char>, mark: bool) -> Seq<char> {
    pad_left(decimal((i + 1) as nat), 4) + (if mark {
        " ->⎸"@
    } else {
        "   ⎸"@
    }) + line + "\n"@
}

pub open spec fn excerpt_rows(lines: Seq<Seq<char>>, errs: Seq<usize>, k: int) -> Seq<char>
    decreases k,
{
    if k <= 0 {
        Seq::empty()
    } else {
        excerpt_rows(lines, errs, k - 1) + if shown_line(errs, k - 1) {
            excerpt_row(k - 1, lines[k - 1], marked_line(errs, k - 1))
        } else {
            Seq::empty()
        }
    }
}

/// The syntax-layer report for a text and its error lines.
pub open spec fn syntax_report(text: Seq<char>, errs: Seq<usize>) -> Seq<char> {
    "===SYNTAX ERRORS===\n"@ + excerpt_rows(lines_of(text), errs, lines_of(text).len() as int)
}

fn is_marked(errs: &Vec<usize>, i: usize) -> (r: bool)
    ensures
        r == marked_line(errs@, i as int),
{
    let mut k: usize = 0;
    while k < errs.len()
        invariant
            k <= errs@.len(),
            forall|j: int| 0 <= j < k ==> errs@[j] != i,
        decreases errs.len() - k,
    {
        if errs[k] == i {
            return true;
        }
        k = k + 1;
    }
    false
}

fn is_shown(errs: &Vec<usize>, i: usize) -> (r: bool)
    ensures
        r == shown_line(errs@, i as int),
{
    let mut k: usize = 0;
    while k < errs.len()
        invariant
            k <= errs@.len(),
            forall|j: int| 0 <= j < k ==> !(#[trigger] errs@[j] - 3 <= i <= errs@[j] + 3),
        decreases errs.len() - k,
    {
        let e = errs[k];
        let inside = if e >= i {
            e - i <= 3
        } else {
            i - e <= 3
        };
        if inside {
            return true;
        }
        k = k + 1;
    }
    false
}

impl Validator {
    /// Renders the syntax-layer report: every line within three lines of an
    /// error line, numbered from one, error lines marked with an arrow.
    pub fn syntax_report(content: &str, errors: &Vec<usize>) -> (r: String)
        ensures
            r@ == syntax_report(content@, errors@),
    {
        let lines = split_lines(content);
        let ghost ls = lines_of(content@);
        let mut out = String::from_str("===SYNTAX ERRORS===\n");
        let mut i: usize = 0;
        while i < lines.len()
            invariant
                i <= lines@.len(),
                lines@.len() == ls.len(),
                ls == lines_of(content@),
                forall|k: int| 0 <= k < lines@.len() ==> (#[trigger] lines@[k])@ == ls[k],
                out@ == "===SYNTAX ERRORS===\n"@ + excerpt_rows(ls, errors@, i as int),
            decreases lines.len() - i,
        {
            if is_shown(errors, i) {
                let number = pad_left_text(decimal_text(i + 1), 4);
                out.append(number.as_str());
                if is_marked(errors, i) {
                    out.append(" ->⎸");
                } else {
                    out.append("   ⎸");
                }
                out.append(lines[i].as_str());
                out.append("\n");
            }
            proof {
                assert(out@ =~= "===SYNTAX ERRORS===\n"@ + excerpt_rows(ls, errors@, i + 1));
            }
            i = i + 1;
        }
        out
    }

    /// The layered decision: a syntax report where there are error lines;
    /// else the placement report where the placement layer ran and found
    /// violations; else `None`, the text passed.
    pub fn decide(content: &str, errors: &Vec<usize>, context: Option<&ValidationResult>) -> (r: Option<String>)
        ensures
            r matches Some(s) ==> Some(s@) == layered_outcome(content@, errors@, match context {
                Some(c) => Some((c.is_valid, c.violations@, c.source_code.spec_bytes())),
                None => None,
            }),
            r is None ==> layered_outcome(content@, errors@, match context {
                Some(c) => Some((c.is_valid, c.violations@, c.source_code.spec_bytes())),
                None => None,
            }) is None,
    {
        if errors.len() > 0 {
            return Some(Self::syntax_report(content, errors));
        }
        match context {
            Some(c) => if !c.is_valid {
                Some(c.format_errors())
            } else {
                None
            },
            None => None,
        }
    }

    /// Validates a parsed text: the language's syntax-error collector first;
    /// only where it finds nothing, the language's placement query. `None`
    /// means the text passed both layers.
    pub fn validate(language: &LanguageCommon, tree: &Tree, content: &str) -> (r: Option<String>)
        ensures
            editor_rows(language.spec_editor(), content@) matches Some(rows) ==> (rows.len() > 0 ==> (r
                is Some && r->0@ == syntax_report(content@, rows))) && (rows.len() == 0
                && !language.has_query() ==> r is None),
            tree_nodes(*tree) == parsed_nodes(language.spec_grammar(), content@) ==> ({
                let rows = language.syntax_rows(content@);
                &&& rows.len() > 0 ==> (r is Some && r->0@ == syntax_report(content@, rows))
                &&& (rows.len() == 0 && !language.has_query()) ==> r is None
                &&& (rows.len() == 0 && language.has_query()) ==> (r is None <==> invalid_views(
                    named_captures(
                        query_capture_list(language.spec_query(), *tree, content@),
                        query_capture_names(language.spec_query()),
                    ),
                ).len() == 0)
            }),
            r is Some ==> (exists|errs: Seq<usize>|
                errs.len() > 0 && r->0@ == #[trigger] syntax_report(content@, errs)) || (exists|
                vs: Seq<ContextViolation>,
            |
                vs.len() > 0 && r->0@ == #[trigger] context_report(false, vs, content.spec_bytes())),
    {
        let errors = language.collect_errors(tree, content);
        if errors.len() == 0 {
            if let Some(query) = language.validation_query() {
                let result = ContextValidator::validate_tree(tree, query, content);
                let r = Self::decide(content, &errors, Some(&result));
                proof {
                    if r is Some {
                        assert(context_report(false, result.violations@, content.spec_bytes()) == r->0@);
                    }
                }
                return r;
            }
            return Self::decide(content, &errors, None);
        }
        let r = Self::decide(content, &errors, None);
        proof {
            assert(syntax_report(content@, errors@) == r->0@);
        }
        r
    }
}

/// The outcome of the two layers, given the syntax layer's error lines and,
/// where it ran, the placement layer's verdict, violations and source bytes.
pub open spec fn layered_outcome(
    text: Seq<char>,
    errs: Seq<usize>,
    context: Option<(bool, Seq<ContextViolation>, Seq<u8>)>,
) -> Option<Seq<char>> {
    if errs.len() > 0 {
        Some(syntax_report(text, errs))
    } else {
        match context {
            Some(c) => if !c.0 {
                Some(context_report(false, c.1, c.2))
            } else {
                None
            },
            None => None,
        }
    }
}

} // verus!
