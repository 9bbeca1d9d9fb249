//! The editing engine: resolve a selector into candidates, splice each into
//! the source, validate, and explain the first acceptable result.
pub mod diff_generator;
pub mod validator;
pub mod edit;
pub mod edit_position;
pub mod edit_iterator;
pub mod formatter;

use crate::editor::diff_generator::{diff_report, DiffGenerator};
use crate::editor::edit::{fits, spliced, Edit};
use crate::editor::edit_iterator::{
    find_edits, find_edits_spec, match_offsets, node_key, node_key_text, views,
};
use crate::text::occurrences;
use crate::editor::edit_position::EditPosition;
use crate::editor::formatter::Formatter;
use crate::editor::validator::{syntax_report, Validator};
use crate::languages::editor_rows;
use crate::error::SemanticEditError;
use crate::languages::{LanguageCommon, LanguageEditor, LanguageRegistry};
use crate::selector::{operation_text, Operation, Selector};
use crate::state::StagedOperation;
use crate::syntax::{
    any_cover, descendant_span, grammar_accepted, named_cover, named_descendant_span, parsed_nodes,
    parser_parse, tree_nodes,
};
use tree_sitter::Tree;
use vstd::prelude::*;
use vstd::string::StringSliceAdditionalSpecFns;
use vstd::utf8::encode_utf8;

verus! {

pub open spec fn prevalidation_prefix() -> Seq<char> {
    "Syntax error found prior to edit, not attempting.\nSuggestion: Pause and show your human collaborator this context:\n\n"@
}

pub open spec fn accepted_message() -> Seq<char> {
    "The edit passed syntax and placement validation."@
}

/// The syntax layer's verdict on the unmodified source, from its error lines.
pub open spec fn prior_outcome(source: Seq<char>, rows: Seq<usize>) -> Option<Seq<char>> {
    if rows.len() > 0 {
        Some(syntax_report(source, rows))
    } else {
        None
    }
}

/// The pinned position and content are those of one of the candidates.
pub open spec fn picked_from(
    cands: Seq<(EditPosition, Seq<char>)>,
    pinned: Option<EditPosition>,
    content: Seq<char>,
) -> bool {
    exists|i: int| 0 <= i < cands.len() && pinned == Some(cands[i].0) && content == #[trigger] cands[i].1
}

/// The message of a successful preview of `out`.
pub open spec fn staged_message(op: Operation, source: Seq<char>, out: Seq<char>, content: Seq<char>) -> Seq<char> {
    "STAGED: "@ + operation_text(op) + "\n\n"@ + diff_report(source, out, content)
}

/// The message of a successful commit of `out`.
pub open spec fn committed_message(op: Operation, source: Seq<char>, out: Seq<char>, content: Seq<char>) -> Seq<char> {
    operation_text(op) + " operation result:\n"@ + accepted_message() + "\n\n"@ + diff_report(
        source,
        out,
        content,
    )
}

/// `out` is the splice of one of the candidates and `m` its commit message.
pub open spec fn commit_outcome(
    cands: Seq<(EditPosition, Seq<char>)>,
    op: Operation,
    source: Seq<char>,
    out: Seq<char>,
    m: Seq<char>,
) -> bool {
    exists|i: int|
        0 <= i < cands.len() && out == spliced(encode_utf8(source), (#[trigger] cands[i]).0, cands[i].1)
            && m == committed_message(op, source, out, cands[i].1)
}

/// The verdict on an edited text in a language with no placement query:
/// its syntax report, or `None` where the syntax layer finds nothing.
pub open spec fn checked_verdict(lang: &LanguageCommon, text: Seq<char>) -> Option<Seq<char>> {
    prior_outcome(text, lang.syntax_rows(text))
}

/// The loop over the candidates from `k` on, where the verdict is
/// [`checked_verdict`]: `Ok(Some(i))` when candidate `i` is the first that
/// validates, `Ok(None)` when none does, `Err(())` when a candidate does
/// not fit the source before one validates.
pub open spec fn checked_loop(
    lang: &LanguageCommon,
    src: Seq<char>,
    cands: Seq<(EditPosition, Seq<char>)>,
    k: int,
) -> Result<Option<int>, ()>
    decreases cands.len() - k,
{
    if k < 0 || k >= cands.len() {
        Ok(None)
    } else if !fits(encode_utf8(src), cands[k].0) {
        Err(())
    } else if checked_verdict(lang, spliced(encode_utf8(src), cands[k].0, cands[k].1)) is None {
        Ok(Some(k))
    } else {
        checked_loop(lang, src, cands, k + 1)
    }
}

/// The node span the resolver uses for a key match `[from, from + len)`:
/// the smallest named node that covers it, else the smallest node of any
/// kind.
pub open spec fn covering_span(t: Tree, from: usize, len: usize) -> Option<(usize, usize)> {
    match named_cover(t, from, (from + len) as usize) {
        Some(n) => Some(n),
        None => any_cover(t, from, (from + len) as usize),
    }
}

/// For each match of the node key, the span of the node that covers it.
pub open spec fn covering_spans(t: Tree, source: Seq<char>, anchor: Seq<char>) -> Seq<Option<(usize, usize)>> {
    let ks = occurrences(encode_utf8(source), encode_utf8(node_key(anchor)));
    Seq::new(ks.len(), |i: int| covering_span(t, ks[i], encode_utf8(node_key(anchor)).len() as usize))
}

/// One edit request against one source text, with its parse tree.
pub struct Editor<'language> {
    content: String,
    selector: Selector,
    file_path: String,
    language: &'language LanguageCommon,
    source_code: String,
    tree: Tree,
    staged_edit: Option<EditPosition>,
    /// For node operations, the node found for each key match, in order.
    node_spans: Vec<Option<(usize, usize)>>,
    /// The syntax layer's error lines on the unmodified source.
    prior_rows: Vec<usize>,
    /// The syntax layer's report on the unmodified source, if it has errors.
    prior_report: Option<String>,
}

/// The node spans a source gives for a selector: one per key match.
fn node_ranges(tree: &Tree, selector: &Selector, source: &str) -> (r: Vec<Option<(usize, usize)>>)
    ensures
        r@ == covering_spans(*tree, source@, selector.anchor@),
{
    let key = node_key_text(selector.anchor.as_str());
    let ks = match_offsets(source, key.as_str());
    let klen = key.as_str().as_bytes().len();
    let ghost target = covering_spans(*tree, source@, selector.anchor@);
    let mut out: Vec<Option<(usize, usize)>> = Vec::new();
    let mut i: usize = 0;
    while i < ks.len()
        invariant
            i <= ks@.len(),
            ks@ == occurrences(encode_utf8(source@), encode_utf8(key@)),
            key@ == node_key(selector.anchor@),
            target == covering_spans(*tree, source@, selector.anchor@),
            klen == encode_utf8(key@).len(),
            forall|k: int| 0 <= k < ks@.len() ==> #[trigger] ks@[k] + klen <= usize::MAX,
            out@ =~= target.take(i as int),
        decreases ks.len() - i,
    {
        let from = ks[i];
        assert(ks@[i as int] + klen <= usize::MAX);
        let to = from + klen;
        let span = match named_descendant_span(tree, from, to) {
            Some(n) => Some(n),
            None => descendant_span(tree, from, to),
        };
        out.push(span);
        proof {
            assert(target[i as int] == covering_span(*tree, ks@[i as int], klen));
        }
        i = i + 1;
    }
    assert(target.take(ks@.len() as int) =~= target);
    out
}

impl<'language> Editor<'language> {
    pub closed spec fn spec_source(&self) -> Seq<char> {
        self.source_code@
    }

    pub closed spec fn spec_content(&self) -> Seq<char> {
        self.content@
    }

    pub closed spec fn spec_selector(&self) -> Selector {
        self.selector
    }

    pub closed spec fn spec_staged(&self) -> Option<EditPosition> {
        self.staged_edit
    }

    pub closed spec fn spec_file_path(&self) -> Seq<char> {
        self.file_path@
    }

    pub closed spec fn spec_language(&self) -> &'language LanguageCommon {
        self.language
    }

    /// The parse tree of the source.
    pub closed spec fn spec_tree(&self) -> Tree {
        self.tree
    }

    /// The nodes found for the key matches of a node operation.
    pub closed spec fn spec_nodes(&self) -> Seq<Option<(usize, usize)>> {
        self.node_spans@
    }

    /// The error lines the syntax layer found in the source before any edit.
    pub closed spec fn spec_prior_rows(&self) -> Seq<usize> {
        self.prior_rows@
    }

    /// The syntax layer's report on the source before any edit.
    pub closed spec fn spec_prior_report(&self) -> Option<Seq<char>> {
        match self.prior_report {
            Some(r) => Some(r@),
            None => None,
        }
    }

    /// The candidates in the order they are tried: the pinned position
    /// alone where one is staged, else what the resolver finds.
    pub open spec fn spec_candidates(&self) -> Result<Seq<(EditPosition, Seq<char>)>, Seq<char>> {
        match self.spec_staged() {
            Some(p) => Ok(seq![(p, self.spec_content())]),
            None => find_edits_spec(
                self.spec_selector(),
                encode_utf8(self.spec_source()),
                self.spec_content(),
                self.spec_nodes(),
            ),
        }
    }

    /// Parses `source_code`, the current text of `file_path`, for an edit,
    /// and runs the syntax layer on it.
    pub fn new(
        content: String,
        selector: Selector,
        language: &'language LanguageCommon,
        file_path: String,
        source_code: String,
        staged_edit: Option<EditPosition>,
    ) -> (r: Result<Self, SemanticEditError>)
        ensures
            r is Ok <==> grammar_accepted(language.spec_grammar()),
            r is Err ==> r->Err_0 is ParserUnavailable,
            r is Ok ==> ({
                let e = r->Ok_0;
                &&& e.spec_source() == source_code@
                &&& e.spec_content() == content@
                &&& e.spec_selector() == selector
                &&& e.spec_staged() == staged_edit
                &&& e.spec_file_path() == file_path@
                &&& e.spec_language() == language
                &&& e.spec_prior_report() == prior_outcome(source_code@, e.spec_prior_rows())
                &&& e.spec_prior_rows() == language.syntax_rows(source_code@)
                &&& (selector.operation is ReplaceNode || selector.operation is InsertAfterNode)
                    ==> e.spec_nodes() == covering_spans(e.spec_tree(), source_code@, selector.anchor@)
                &&& tree_nodes(e.spec_tree()) == parsed_nodes(language.spec_grammar(), source_code@)
            }),
    {
        let mut parser = language.tree_sitter_parser()?;
        match parser_parse(&mut parser, source_code.as_str()) {
            None => Err(SemanticEditError::TreeSitterParseError),
            Some(tree) => {
                let prior_rows = language.collect_errors(&tree, source_code.as_str());
                let prior_report = if prior_rows.len() > 0 {
                    Some(Validator::syntax_report(source_code.as_str(), &prior_rows))
                } else {
                    None
                };
                let node_spans = match selector.operation {
                    Operation::ReplaceNode | Operation::InsertAfterNode => node_ranges(
                        &tree,
                        &selector,
                        source_code.as_str(),
                    ),
                    _ => Vec::new(),
                };
                Ok(
                    Editor {
                        content,
                        selector,
                        file_path,
                        language,
                        source_code,
                        tree,
                        staged_edit,
                        node_spans,
                        prior_rows,
                        prior_report,
                    },
                )
            },
        }
    }

    /// An editor for a staged operation, in the language it names.
    pub fn from_staged_operation(
        staged_operation: StagedOperation,
        language_registry: &'language LanguageRegistry,
        source_code: String,
    ) -> (r: Result<Self, SemanticEditError>)
        ensures
            !language_registry.has(staged_operation.language_name) ==> r is Err,
            r is Ok ==> ({
                let e = r->Ok_0;
                &&& e.spec_staged() == staged_operation.edit_position
                &&& e.spec_source() == source_code@
                &&& e.spec_content() == staged_operation.content@
                &&& e.spec_selector() == staged_operation.selector
                &&& e.spec_file_path() == staged_operation.file_path@
                &&& e.spec_language().spec_name() == staged_operation.language_name
            }),
    {
        let StagedOperation { selector, content, file_path, language_name, edit_position } =
            staged_operation;
        let language = language_registry.get_language(language_name)?;
        Self::new(content, selector, language, file_path, source_code, edit_position)
    }

    /// Validates a parsed text in a language, as [`Validator::validate`].
    pub fn validate(language: &LanguageCommon, tree: &Tree, content: &str) -> (r: Option<String>)
        ensures
            editor_rows(language.spec_editor(), content@) matches Some(rows) ==> (rows.len() > 0 ==> (r
                is Some && r->0@ == syntax_report(content@, rows))) && (rows.len() == 0
                && !language.has_query() ==> r is None),
    {
        Validator::validate(language, tree, content)
    }

    fn prevalidate(&self) -> (r: Option<String>)
        ensures
            r is None <==> self.spec_prior_report() is None,
            r is Some ==> r->0@ == prevalidation_prefix() + self.spec_prior_report()->0,
    {
        match &self.prior_report {
            None => None,
            Some(errors) => {
                let mut msg = String::from_str(
                    "Syntax error found prior to edit, not attempting.\nSuggestion: Pause and show your human collaborator this context:\n\n",
                );
                msg.append(errors.as_str());
                Some(msg)
            },
        }
    }

    fn candidates(&self) -> (r: Result<Vec<Edit>, String>)
        ensures
            match self.spec_candidates() {
                Ok(cands) => r is Ok && views(r->Ok_0@) == cands,
                Err(msg) => r is Err && r->Err_0@ == msg,
            },
    {
        if let Some(p) = self.staged_edit {
            let mut v = Vec::new();
            v.push(Edit::new(p, self.content.clone()));
            assert(views(v@) =~= seq![(p, self.content@)]);
            return Ok(v);
        }
        find_edits(&self.selector, self.source_code.as_str(), self.content.as_str(), &self.node_spans)
    }

    /// A fresh parse of an edited text.
    fn parse(&self, output: &str) -> (r: Option<Tree>)
        ensures
            grammar_accepted(self.spec_language().spec_grammar()) ==> r is Some && tree_nodes(r->0)
                == parsed_nodes(self.spec_language().spec_grammar(), output@),
    {
        match self.language.tree_sitter_parser() {
            Ok(mut parser) => parser_parse(&mut parser, output),
            Err(_) => None,
        }
    }

    /// The resolve, apply and validate loop. A source that already has
    /// syntax errors is refused; a selector that resolves to nothing is
    /// answered with why; otherwise the first candidate whose result
    /// validates wins, and its position and content (padding included) are
    /// pinned so that a later run reproduces the same text; if none
    /// validates, the first candidate's failure is reported.
    pub fn edit(&mut self) -> (r: Result<(String, Option<String>), SemanticEditError>)
        ensures
            final(self).spec_source() == old(self).spec_source(),
            final(self).spec_selector() == old(self).spec_selector(),
            final(self).spec_language() == old(self).spec_language(),
            final(self).spec_file_path() == old(self).spec_file_path(),
            final(self).spec_nodes() == old(self).spec_nodes(),
            final(self).spec_prior_report() == old(self).spec_prior_report(),
            old(self).spec_prior_report() matches Some(report) ==> (r matches Ok((m, None)) && m@
                == prevalidation_prefix() + report),
            old(self).spec_prior_report() is None ==> match old(self).spec_candidates() {
                Err(msg) => r matches Ok((m, None)) && m@ == msg,
                Ok(cands) => cands.len() == 0 ==> r matches Err(SemanticEditError::NoValidEditLocations),
            },
            r matches Ok((m, Some(out))) ==> m@ == accepted_message() && old(self).spec_candidates() is Ok
                && picked_from(
                old(self).spec_candidates()->Ok_0,
                final(self).spec_staged(),
                final(self).spec_content(),
            ) && out@ == spliced(
                encode_utf8(old(self).spec_source()),
                final(self).spec_staged()->0,
                final(self).spec_content(),
            ),
            r is Err ==> r->Err_0 is NoValidEditLocations || r->Err_0 is TextRangeOutOfBounds
                || r->Err_0 is InvalidUtf8Boundary,
            r matches Err(SemanticEditError::NoValidEditLocations) ==> old(self).spec_candidates() == Ok::<
                Seq<(EditPosition, Seq<char>)>,
                Seq<char>,
            >(Seq::empty()),
            !(r matches Ok((_, Some(_)))) ==> final(self).spec_staged() == old(self).spec_staged()
                && final(self).spec_content() == old(self).spec_content(),
            ({
                !old(self).spec_language().has_query() && grammar_accepted(old(self).spec_language().spec_grammar())
                    && old(self).spec_prior_report() is None && old(self).spec_candidates() is Ok
            }) ==> ({
                let e = old(self).spec_language();
                let cs = old(self).spec_candidates()->Ok_0;
                let src = old(self).spec_source();
                &&& checked_loop(e, src, cs, 0) matches Ok(Some(w)) ==> (r matches Ok((_, Some(_))))
                    && final(self).spec_staged() == Some(cs[w].0) && final(self).spec_content() == cs[w].1
                &&& (checked_loop(e, src, cs, 0) == Ok::<Option<int>, ()>(None) && cs.len() > 0) ==> (r
                    matches Ok((m, None)) && Some(m@) == checked_verdict(
                    e,
                    spliced(encode_utf8(src), cs[0].0, cs[0].1),
                ))
                &&& checked_loop(e, src, cs, 0) is Err ==> r is Err
            }),
    {
        if let Some(prevalidation_failure) = self.prevalidate() {
            return Ok((prevalidation_failure, None));
        }
        let cands = match self.candidates() {
            Ok(c) => c,
            Err(message) => return Ok((message, None)),
        };
        let ghost spec_cands = views(cands@);
        let mut first_failure: Option<String> = None;
        let mut i: usize = 0;
        while i < cands.len()
            invariant
                i <= cands@.len(),
                spec_cands == views(cands@),
                old(self).spec_candidates() == Ok::<Seq<(EditPosition, Seq<char>)>, Seq<char>>(spec_cands),
                self.staged_edit == old(self).staged_edit,
                self.source_code == old(self).source_code,
                self.content == old(self).content,
                self.selector == old(self).selector,
                self.language == old(self).language,
                self.file_path == old(self).file_path,
                self.node_spans == old(self).node_spans,
                self.prior_report == old(self).prior_report,
                self.prior_report is None,
                i > 0 ==> first_failure is Some,
                i == 0 ==> first_failure is None,
                (!old(self).spec_language().has_query() && grammar_accepted(
                    old(self).spec_language().spec_grammar(),
                )) ==> ({
                    let e = old(self).spec_language();
                    &&& checked_loop(e, old(self).spec_source(), spec_cands, 0) == checked_loop(
                        e,
                        old(self).spec_source(),
                        spec_cands,
                        i as int,
                    )
                    &&& i > 0 ==> Some(first_failure->0@) == checked_verdict(
                        e,
                        spliced(encode_utf8(old(self).spec_source()), spec_cands[0].0, spec_cands[0].1),
                    )
                }),
            decreases cands.len() - i,
        {
            let cand = &cands[i];
            let output = cand.apply(self.source_code.as_str())?;
            let own = self.language.editor().own_rows(output.as_str());
            let verdict = match own {
                Some(rows) => if self.language.validation_query().is_none() {
                    Validator::decide(output.as_str(), &rows, None)
                } else {
                    match self.parse(output.as_str()) {
                        None => Some(String::from_str("The edited text could not be parsed.")),
                        Some(tree) => Validator::validate(self.language, &tree, output.as_str()),
                    }
                },
                None => match self.parse(output.as_str()) {
                    None => Some(String::from_str("The edited text could not be parsed.")),
                    Some(tree) => Validator::validate(self.language, &tree, output.as_str()),
                },
            };
            proof {
                let e = old(self).spec_language();
                if !old(self).spec_language().has_query() && grammar_accepted(e.spec_grammar()) {
                    assert(spec_cands[i as int] == cand@);
                    assert(fits(encode_utf8(old(self).spec_source()), spec_cands[i as int].0));
                    assert(output@ == spliced(encode_utf8(old(self).spec_source()), spec_cands[i as int].0, spec_cands[i as int].1));
                    assert(verdict matches Some(v) ==> Some(v@) == checked_verdict(e, output@));
                    assert(verdict is None <==> checked_verdict(e, output@) is None);
                }
            }
            match verdict {
                None => {
                    self.staged_edit = Some(cand.position);
                    self.content = cand.content.clone();
                    proof {
                        assert(spec_cands[i as int] == cand@);
                        assert(spec_cands[i as int].1 == self.content@);
                        assert(self.spec_staged() == Some(spec_cands[i as int].0));
                        assert(self.spec_content() == spec_cands[i as int].1);
                        assert(picked_from(spec_cands, self.spec_staged(), self.spec_content()));
                    }
                    return Ok((String::from_str("The edit passed syntax and placement validation."), Some(output)));
                },
                Some(message) => {
                    if first_failure.is_none() {
                        first_failure = Some(message);
                    }
                },
            }
            i = i + 1;
        }
        match first_failure {
            Some(message) => Ok((message, None)),
            None => {
                assert(spec_cands =~= Seq::<(EditPosition, Seq<char>)>::empty());
                Err(SemanticEditError::NoValidEditLocations)
            },
        }
    }

    /// Previews the edit: on success the staged header and the diff, with
    /// the operation pinned to the winning position and content; otherwise
    /// the failure and nothing staged.
    pub fn preview(self) -> (r: Result<(String, Option<StagedOperation>), SemanticEditError>)
        ensures
            self.spec_prior_report() matches Some(report) ==> (r matches Ok((m, None)) && m@
                == prevalidation_prefix() + report),
            self.spec_prior_report() is None ==> match self.spec_candidates() {
                Err(msg) => r matches Ok((m, None)) && m@ == msg,
                Ok(cands) => cands.len() == 0 ==> r matches Err(SemanticEditError::NoValidEditLocations),
            },
            r matches Ok((m, Some(st))) ==> ({
                &&& st.selector == self.spec_selector()
                &&& st.file_path@ == self.spec_file_path()
                &&& st.language_name == self.spec_language().spec_name()
                &&& self.spec_candidates() is Ok
                &&& picked_from(self.spec_candidates()->Ok_0, st.edit_position, st.content@)
                &&& m@ == staged_message(
                    self.spec_selector().operation,
                    self.spec_source(),
                    spliced(encode_utf8(self.spec_source()), st.edit_position->0, st.content@),
                    st.content@,
                )
            }),
            ({
                !self.spec_language().has_query() && grammar_accepted(self.spec_language().spec_grammar())
                    && self.spec_prior_report() is None && self.spec_candidates() is Ok
            }) ==> ({
                let e = self.spec_language();
                let cs = self.spec_candidates()->Ok_0;
                let src = self.spec_source();
                &&& checked_loop(e, src, cs, 0) matches Ok(Some(w)) ==> (r matches Ok((_, Some(st))) && st.edit_position == Some(cs[w].0) && st.content@ == cs[w].1)
                &&& (checked_loop(e, src, cs, 0) == Ok::<Option<int>, ()>(None) && cs.len() > 0) ==> (r matches Ok((m, None)) && Some(m@) == checked_verdict(e, spliced(encode_utf8(src), cs[0].0, cs[0].1)))
                &&& checked_loop(e, src, cs, 0) is Err ==> r is Err
            }),
    {
        let mut editor = self;
        let (message, output) = editor.edit()?;
        match output {
            Some(output) => {
                let mut preview = String::from_str("STAGED: ");
                preview.append(editor.selector.operation_name());
                preview.append("\n\n");
                let diff = editor.diff(output.as_str());
                preview.append(diff.as_str());
                let Editor { content, selector, file_path, language, staged_edit, .. } = editor;
                let staged = StagedOperation {
                    selector,
                    content,
                    file_path,
                    language_name: language.name(),
                    edit_position: staged_edit,
                };
                Ok((preview, Some(staged)))
            },
            None => Ok((message, None)),
        }
    }

    /// The diff of the source into `output`.
    pub fn diff(&self, output: &str) -> (r: String)
        ensures
            r@ == diff_report(self.spec_source(), output@, self.spec_content()),
    {
        DiffGenerator::generate_diff(self.source_code.as_str(), output, self.content.as_str())
    }

    /// Formats code with this editor's language.
    pub fn format_code(&self, source: &str) -> (r: Option<Result<String, String>>)
        ensures
            r is None <==> self.spec_language().spec_editor() is Rust,
    {
        Formatter::format_code(self.language, source)
    }

    /// Runs the edit for writing: the operation, the outcome and the diff,
    /// the resulting text and the path to write it to. Nothing is written
    /// here; the caller persists the text.
    pub fn commit(self) -> (r: Result<(String, Option<String>, String), SemanticEditError>)
        ensures
            r matches Ok((_, _, path)) ==> path@ == self.spec_file_path(),
            self.spec_prior_report() matches Some(report) ==> (r matches Ok((m, None, _)) && m@
                == prevalidation_prefix() + report),
            self.spec_prior_report() is None ==> match self.spec_candidates() {
                Err(msg) => r matches Ok((m, None, _)) && m@ == msg,
                Ok(cands) => cands.len() == 0 ==> r matches Err(SemanticEditError::NoValidEditLocations),
            },
            r matches Ok((m, Some(out), _)) ==> self.spec_candidates() is Ok && commit_outcome(
                self.spec_candidates()->Ok_0,
                self.spec_selector().operation,
                self.spec_source(),
                out@,
                m@,
            ),
            ({
                !self.spec_language().has_query() && grammar_accepted(self.spec_language().spec_grammar())
                    && self.spec_prior_report() is None && self.spec_candidates() is Ok
            }) ==> ({
                let e = self.spec_language();
                let cs = self.spec_candidates()->Ok_0;
                let src = self.spec_source();
                &&& checked_loop(e, src, cs, 0) matches Ok(Some(w)) ==> (r matches Ok((_, Some(out), _)) && out@ == spliced(encode_utf8(src), cs[w].0, cs[w].1))
                &&& (checked_loop(e, src, cs, 0) == Ok::<Option<int>, ()>(None) && cs.len() > 0) ==> (r matches Ok((m, None, _)) && Some(m@) == checked_verdict(e, spliced(encode_utf8(src), cs[0].0, cs[0].1)))
                &&& checked_loop(e, src, cs, 0) is Err ==> r is Err
            }),
    {
        let mut editor = self;
        let ghost cands = editor.spec_candidates();
        let (message, output) = editor.edit()?;
        match output {
            Some(out) => {
                let diff = editor.diff(out.as_str());
                let mut full = String::from_str(editor.selector.operation_name());
                full.append(" operation result:\n");
                full.append(message.as_str());
                full.append("\n\n");
                full.append(diff.as_str());
                proof {
                    let cs = cands->Ok_0;
                    let i = choose|i: int|
                        0 <= i < cs.len() && editor.spec_staged() == Some(cs[i].0)
                            && editor.spec_content() == #[trigger] cs[i].1;
                    assert(out@ == spliced(encode_utf8(editor.spec_source()), cs[i].0, cs[i].1));
                    assert(full@ =~= committed_message(editor.spec_selector().operation, editor.spec_source(), out@, cs[i].1));
                }
                Ok((full, Some(out), editor.file_path))
            },
            None => Ok((message, None, editor.file_path)),
        }
    }
}

/// Replaying a preview: an editor pinned to the position and content that
/// a preview picked from the candidates has that one candidate, so its
/// commit is the splice of the candidate the preview picked, the text the
/// preview's diff showed.
pub proof fn lemma_pinned_commit_replays_preview(
    source: Seq<char>,
    op: Operation,
    cands: Seq<(EditPosition, Seq<char>)>,
    pinned: EditPosition,
    content: Seq<char>,
    out: Seq<char>,
    m: Seq<char>,
)
    requires
        picked_from(cands, Some(pinned), content),
        commit_outcome(seq![(pinned, content)], op, source, out, m),
    ensures
        out == spliced(encode_utf8(source), pinned, content),
        m == committed_message(op, source, out, content),
        exists|i: int| 0 <= i < cands.len() && (#[trigger] cands[i]) == (pinned, content),
{
    let one = seq![(pinned, content)];
    let k = choose|k: int|
        0 <= k < one.len() && out == spliced(encode_utf8(source), (#[trigger] one[k]).0, one[k].1)
            && m == committed_message(op, source, out, one[k].1);
    assert(k == 0);
    let i = choose|i: int| 0 <= i < cands.len() && Some(pinned) == Some(cands[i].0) && content == #[trigger] cands[i].1;
    assert(cands[i] == (pinned, content));
}

} // verus!
