//! Languages: names, file extensions, grammars and per-language checks.
pub mod utils;
pub mod json;
pub mod python;
pub mod toml;
pub mod traits;
pub mod builtin;

use crate::error::SemanticEditError;
use crate::languages::json::JsonEditor;
use crate::languages::python::PythonEditor;
use crate::languages::toml::TomlEditor;
use crate::languages::traits::{error_rows, tree_error_rows, DefaultEditor, TypescriptEditor};
use crate::syntax::{
    compile_query, grammar_accepted, new_parser, parsed_nodes, parser_grammar, parser_set_language,
    tree_nodes,
};
use tree_sitter::{Language, Parser, Query, Tree};
use vstd::prelude::*;
use vstd::string::StringSliceAdditionalSpecFns;

verus! {

/// The languages the editor knows.
#[derive(Debug, Clone, Copy, PartialEq, Eq, Structural, Hash, PartialOrd, Ord)]
pub enum LanguageName {
    Rust,
    Json,
    Toml,
    Javascript,
    Typescript,
    Tsx,
    Python,
    Go,
    Cpp,
    C,
    Java,
    Php,
    CSharp,
    Ruby,
    Other,
}

pub open spec fn language_text(n: LanguageName) -> Seq<char> {
    match n {
        LanguageName::Rust => "rust"@,
        LanguageName::Json => "json"@,
        LanguageName::Toml => "toml"@,
        LanguageName::Javascript => "javascript"@,
        LanguageName::Typescript => "typescript"@,
        LanguageName::Tsx => "tsx"@,
        LanguageName::Python => "python"@,
        LanguageName::Go => "go"@,
        LanguageName::Cpp => "cpp"@,
        LanguageName::C => "c"@,
        LanguageName::Java => "java"@,
        LanguageName::Php => "php"@,
        LanguageName::CSharp => "csharp"@,
        LanguageName::Ruby => "ruby"@,
        LanguageName::Other => "other"@,
    }
}

impl LanguageName {
    /// The lower-case identifier of the language.
    pub fn as_str(&self) -> (r: &'static str)
        ensures
            r@ == language_text(*self),
    {
        match self {
            LanguageName::Rust => "rust",
            LanguageName::Json => "json",
            LanguageName::Toml => "toml",
            LanguageName::Javascript => "javascript",
            LanguageName::Typescript => "typescript",
            LanguageName::Tsx => "tsx",
            LanguageName::Python => "python",
            LanguageName::Go => "go",
            LanguageName::Cpp => "cpp",
            LanguageName::C => "c",
            LanguageName::Java => "java",
            LanguageName::Php => "php",
            LanguageName::CSharp => "csharp",
            LanguageName::Ruby => "ruby",
            LanguageName::Other => "other",
        }
    }
}

/// The error lines that an editor with its own checker finds in a text;
/// `None` for the editors that read the parse tree's error nodes.
pub open spec fn editor_rows(e: LanguageEditor, content: Seq<char>) -> Option<Seq<usize>> {
    match e {
        LanguageEditor::Json(_) => Some(json_rows(content)),
        LanguageEditor::Python(_) => if crate::languages::python::python_checkable(content) {
            Some(python_rows(content))
        } else {
            None
        },
        LanguageEditor::Toml(_) => if crate::languages::toml::toml_checkable(content) {
            Some(toml_rows(content))
        } else {
            None
        },
        _ => None,
    }
}

/// The error line `serde_json` reports, zero-based.
pub open spec fn json_rows(content: Seq<char>) -> Seq<usize> {
    match crate::languages::json::json_parse_error_line(content) {
        None => Seq::<usize>::empty(),
        Some(line) => seq![if line >= 1 { (line - 1) as usize } else { 0usize }],
    }
}

/// The line of the error `rustpython_parser` reports.
pub open spec fn python_rows(content: Seq<char>) -> Seq<usize> {
    let starts = crate::languages::utils::line_starts(vstd::utf8::encode_utf8(content));
    match crate::languages::python::python_parse_error_offset(content) {
        None => Seq::<usize>::empty(),
        Some(offset) => seq![crate::languages::utils::line_at(starts, offset as int) as usize],
    }
}

/// The lines covered by the error spans `taplo` reports.
pub open spec fn toml_rows(content: Seq<char>) -> Seq<usize> {
    let starts = crate::languages::utils::line_starts(vstd::utf8::encode_utf8(content));
    crate::languages::toml::span_rows(starts, crate::languages::toml::toml_parse_error_spans(content))
}

/// The per-language checks and formatting of one language.
#[derive(Debug, Clone, Copy)]
pub enum LanguageEditor {
    Default(DefaultEditor),
    Json(JsonEditor),
    Python(PythonEditor),
    Toml(TomlEditor),
    Typescript(TypescriptEditor),
    /// Rust: formatting is `rustfmt`, a separate program that the host runs.
    Rust,
}

impl LanguageEditor {
    /// The error lines of an editor with a checker of its own; `None` for
    /// the editors that need the parse tree.
    pub fn own_rows(&self, content: &str) -> (r: Option<Vec<usize>>)
        ensures
            match editor_rows(*self, content@) {
                Some(rows) => r is Some && r->0@ == rows,
                None => r is None,
            },
    {
        match self {
            LanguageEditor::Json(e) => Some(e.collect_errors(content)),
            LanguageEditor::Python(e) => if content.unicode_len() <= 4096 {
                Some(e.collect_errors(content))
            } else {
                None
            },
            LanguageEditor::Toml(e) => if crate::text::count_openers(content) <= 256 {
                Some(e.collect_errors(content))
            } else {
                None
            },
            _ => None,
        }
    }

    /// Zero-based lines that hold syntax errors; for the editors with a
    /// checker of their own, exactly [`editor_rows`].
    pub fn collect_errors(&self, tree: &Tree, content: &str) -> (r: Vec<usize>)
        ensures
            editor_rows(*self, content@) matches Some(rows) ==> r@ == rows,
            editor_rows(*self, content@) is None ==> r@ == error_rows(tree_nodes(*tree)),
    {
        match self.own_rows(content) {
            Some(rows) => rows,
            None => tree_error_rows(tree),
        }
    }

    /// The formatted text, or the formatter's error; `None` where the
    /// formatter is an outside program.
    pub fn format_code(&self, source: &str) -> (r: Option<Result<String, String>>)
        ensures
            r is None <==> *self is Rust,
            (*self is Default || *self is Typescript || *self is Python) ==> r is Some && r->0 is Ok
                && r->0->Ok_0@ == source@,
            *self is Json ==> r is Some && r->0 is Ok && r->0->Ok_0@ == crate::languages::json::json_layout(
                source@,
                crate::languages::json::json_indent_unit(source@),
            ),
            *self is Toml && crate::languages::toml::toml_checkable(source@) ==> r is Some && r->0 is Ok
                && r->0->Ok_0@ == crate::languages::toml::toml_layout(source@),
    {
        match self {
            LanguageEditor::Json(e) => Some(e.format_code(source)),
            LanguageEditor::Toml(e) => if crate::text::count_openers(source) <= 256 {
                Some(e.format_code(source))
            } else {
                Some(Err(String::from_str("the text nests too deeply for the TOML formatter")))
            },
            LanguageEditor::Default(e) => Some(e.format_code(source)),
            LanguageEditor::Typescript(e) => Some(e.format_code(source)),
            LanguageEditor::Python(_) => Some(Ok(String::from_str(source))),
            LanguageEditor::Rust => None,
        }
    }
}

/// A language ready for editing: its grammar, checks and placement query.
pub struct LanguageCommon {
    name: LanguageName,
    file_extensions: &'static [&'static str],
    language: Language,
    editor: LanguageEditor,
    validation_query: Option<Query>,
}

impl LanguageCommon {
    pub closed spec fn spec_name(&self) -> LanguageName {
        self.name
    }

    pub closed spec fn spec_extensions(&self) -> Seq<&'static str> {
        self.file_extensions@
    }

    pub closed spec fn spec_editor(&self) -> LanguageEditor {
        self.editor
    }

    pub closed spec fn spec_grammar(&self) -> Language {
        self.language
    }

    /// The syntax layer's error lines for a text: the language's own
    /// checker where it has one that takes the text, else the start rows of
    /// the error and missing nodes of the text's parse.
    pub open spec fn syntax_rows(&self, text: Seq<char>) -> Seq<usize> {
        match editor_rows(self.spec_editor(), text) {
            Some(rows) => rows,
            None => error_rows(parsed_nodes(self.spec_grammar(), text)),
        }
    }

    pub fn name(&self) -> (r: LanguageName)
        ensures
            r == self.spec_name(),
    {
        self.name
    }

    pub fn file_extensions(&self) -> (r: &'static [&'static str])
        ensures
            r@ == self.spec_extensions(),
    {
        self.file_extensions
    }

    pub fn tree_sitter_language(&self) -> &Language {
        &self.language
    }

    pub fn editor(&self) -> (r: &LanguageEditor)
        ensures
            *r == self.spec_editor(),
    {
        &self.editor
    }

    /// The language has a placement query.
    pub closed spec fn has_query(&self) -> bool {
        self.validation_query is Some
    }

    /// The placement query, where there is one.
    pub closed spec fn spec_query(&self) -> Query {
        self.validation_query->0
    }

    pub fn validation_query(&self) -> (r: Option<&Query>)
        ensures
            r is Some <==> self.has_query(),
            r matches Some(q) ==> *q == self.spec_query(),
    {
        self.validation_query.as_ref()
    }

    /// A parser set to this language's grammar.
    pub fn tree_sitter_parser(&self) -> (r: Result<Parser, SemanticEditError>)
        ensures
            r is Ok <==> grammar_accepted(self.spec_grammar()),
            r is Ok ==> parser_grammar(r->Ok_0) == Some(self.spec_grammar()),
            r is Err ==> match r->Err_0 {
                SemanticEditError::ParserUnavailable { language } => language@ == language_text(
                    self.spec_name(),
                ),
                _ => false,
            },
    {
        let mut parser = new_parser();
        if parser_set_language(&mut parser, &self.language) {
            Ok(parser)
        } else {
            Err(SemanticEditError::ParserUnavailable { language: String::from_str(self.name.as_str()) })
        }
    }

    /// Zero-based lines that hold syntax errors, by this language's checks.
    pub fn collect_errors(&self, tree: &Tree, content: &str) -> (r: Vec<usize>)
        ensures
            editor_rows(self.spec_editor(), content@) matches Some(rows) ==> r@ == rows,
            tree_nodes(*tree) == parsed_nodes(self.spec_grammar(), content@) ==> r@ == self.syntax_rows(
                content@,
            ),
    {
        self.editor.collect_errors(tree, content)
    }

    /// A short description: name, extensions, parser.
    pub fn docs(&self) -> (r: String)
        ensures
            r@ == "Language: "@ + language_text(self.spec_name()) + "\nFile extensions: "@
                + joined_with_commas(self.spec_extensions())
                + "\nTree-sitter language available for AST-aware operations"@,
    {
        let mut s = String::from_str("Language: ");
        s.append(self.name.as_str());
        s.append("\nFile extensions: ");
        let exts = self.file_extensions;
        let mut i: usize = 0;
        while i < exts.len()
            invariant
                i <= exts@.len(),
                exts@ == self.spec_extensions(),
                s@ == "Language: "@ + language_text(self.spec_name()) + "\nFile extensions: "@
                    + joined_with_commas(exts@.take(i as int)),
            decreases exts.len() - i,
        {
            if i > 0 {
                s.append(", ");
            }
            s.append(exts[i]);
            proof {
                assert(exts@.take(i + 1).drop_last() =~= exts@.take(i as int));
            }
            i = i + 1;
        }
        assert(exts@.take(exts@.len() as int) =~= exts@);
        s.append("\nTree-sitter language available for AST-aware operations");
        s
    }
}

/// Texts joined with `", "`.
pub open spec fn joined_with_commas(parts: Seq<&'static str>) -> Seq<char>
    decreases parts.len(),
{
    if parts.len() == 0 {
        Seq::empty()
    } else if parts.len() == 1 {
        parts[0]@
    } else {
        joined_with_commas(parts.drop_last()) + ", "@ + parts.last()@
    }
}

/// Assembles a [`LanguageCommon`].
pub struct LanguageBuilder {
    name: LanguageName,
    file_extensions: &'static [&'static str],
    language: Language,
    editor: Option<LanguageEditor>,
    validation_query_content: Option<&'static str>,
}

impl LanguageBuilder {
    pub closed spec fn spec_name(&self) -> LanguageName {
        self.name
    }

    pub closed spec fn spec_extensions(&self) -> Seq<&'static str> {
        self.file_extensions@
    }

    pub closed spec fn spec_editor(&self) -> Option<LanguageEditor> {
        self.editor
    }

    pub fn new(name: LanguageName, file_extensions: &'static [&'static str], language: Language) -> (r: Self)
        ensures
            r.spec_name() == name,
            r.spec_extensions() == file_extensions@,
            r.spec_editor() is None,
    {
        LanguageBuilder { name, file_extensions, language, editor: None, validation_query_content: None }
    }

    pub fn with_editor(self, editor: LanguageEditor) -> (r: Self)
        ensures
            r.spec_name() == self.spec_name(),
            r.spec_extensions() == self.spec_extensions(),
            r.spec_editor() == Some(editor),
    {
        let mut b = self;
        b.editor = Some(editor);
        b
    }

    pub fn with_validation_query(self, query_content: &'static str) -> (r: Self)
        ensures
            r.spec_name() == self.spec_name(),
            r.spec_extensions() == self.spec_extensions(),
            r.spec_editor() == self.spec_editor(),
    {
        let mut b = self;
        b.validation_query_content = Some(query_content);
        b
    }

    /// The language, with the default editor where none was set; fails
    /// where the placement query does not compile.
    pub fn build(self) -> (r: Result<LanguageCommon, SemanticEditError>)
        ensures
            r is Ok ==> r->Ok_0.spec_name() == self.spec_name() && r->Ok_0.spec_extensions()
                == self.spec_extensions() && r->Ok_0.spec_editor() == match self.spec_editor() {
                Some(e) => e,
                None => LanguageEditor::Default(DefaultEditor),
            },
    {
        let LanguageBuilder { name, file_extensions, language, editor, validation_query_content } =
            self;
        let validation_query = match validation_query_content {
            Some(content) => match compile_query(&language, content) {
                Some(q) => Some(q),
                None => {
                    return Err(
                        SemanticEditError::InvalidTreeSitterQuery { query: String::from_str(content) },
                    );
                },
            },
            None => None,
        };
        let editor = match editor {
            Some(e) => e,
            None => LanguageEditor::Default(DefaultEditor::new()),
        };
        Ok(LanguageCommon { name, file_extensions, language, editor, validation_query })
    }
}

/// A language with the default editor and no placement query.
pub fn simple_language(
    name: LanguageName,
    file_extensions: &'static [&'static str],
    language: Language,
) -> (r: Result<LanguageCommon, SemanticEditError>)
    ensures
        r is Ok ==> r->Ok_0.spec_name() == name && r->Ok_0.spec_extensions() == file_extensions@,
{
    LanguageBuilder::new(name, file_extensions, language).build()
}

/// The extension of the last component of a path, as `Path::extension`
/// gives it.
pub uninterp spec fn path_extension_of(path: Seq<char>) -> Option<Seq<char>>;

/// Relies on `std::path::Path::extension`; an extension that is not UTF-8
/// counts as none.
#[verifier::external_body]
fn path_extension(path: &str) -> (r: Option<String>)
    ensures
        r is None ==> path_extension_of(path@) is None,
        r is Some ==> path_extension_of(path@) == Some(r->0@),
{
    std::path::Path::new(path).extension().and_then(|e| e.to_str()).map(|e| e.to_string())
}

/// The language the last registration of an extension maps it to.
pub open spec fn extension_lookup(entries: Seq<(&'static str, LanguageName)>, key: Seq<char>) -> Option<LanguageName>
    decreases entries.len(),
{
    if entries.len() == 0 {
        None
    } else if entries.last().0@ == key {
        Some(entries.last().1)
    } else {
        extension_lookup(entries.drop_last(), key)
    }
}

/// All registered languages, and which language each file extension selects.
pub struct LanguageRegistry {
    languages: Vec<LanguageCommon>,
    extensions: Vec<(&'static str, LanguageName)>,
}

impl LanguageRegistry {
    /// A language of this name is registered.
    pub closed spec fn has(&self, name: LanguageName) -> bool {
        exists|i: int| 0 <= i < self.languages@.len() && (#[trigger] self.languages@[i]).spec_name() == name
    }

    /// The language an extension selects.
    pub closed spec fn by_extension(&self, key: Seq<char>) -> Option<LanguageName> {
        extension_lookup(self.extensions@, key)
    }

    /// An empty registry.
    pub fn empty() -> (r: Self)
        ensures
            forall|n: LanguageName| !r.has(n),
            forall|k: Seq<char>| r.by_extension(k) is None,
    {
        LanguageRegistry { languages: Vec::new(), extensions: Vec::new() }
    }

    /// Adds a language; it takes over its extensions and any earlier
    /// language of the same name.
    pub fn register_language(&mut self, language: LanguageCommon)
        ensures
            final(self).has(language.spec_name()),
            forall|n: LanguageName| old(self).has(n) ==> final(self).has(n),
            forall|n: LanguageName| final(self).has(n) ==> old(self).has(n) || n == language.spec_name(),
            forall|k: Seq<char>|
                #![trigger final(self).by_extension(k)]
                final(self).by_extension(k) == if exists|j: int|
                    0 <= j < language.spec_extensions().len() && (#[trigger] language.spec_extensions()[j])@ == k {
                    Some(language.spec_name())
                } else {
                    old(self).by_extension(k)
                },
    {
        let name = language.name();
        let exts = language.file_extensions();
        let ghost old_entries = self.extensions@;
        let mut i: usize = 0;
        while i < exts.len()
            invariant
                i <= exts@.len(),
                exts@ == language.spec_extensions(),
                self.languages@ == old(self).languages@,
                old_entries == old(self).extensions@,
                forall|k: Seq<char>|
                    #![trigger extension_lookup(self.extensions@, k)]
                    extension_lookup(self.extensions@, k) == if exists|j: int|
                        0 <= j < i && (#[trigger] exts@[j])@ == k {
                        Some(name)
                    } else {
                        extension_lookup(old_entries, k)
                    },
            decreases exts.len() - i,
        {
            let ghost prev = self.extensions@;
            self.extensions.push((exts[i], name));
            proof {
                assert(self.extensions@.drop_last() =~= prev);
                let e = self.extensions@;
                assert(e.last() == (exts@[i as int], name));
                assert forall|k: Seq<char>| #![trigger extension_lookup(self.extensions@, k)]
                    extension_lookup(self.extensions@, k) == if exists|j: int|
                        0 <= j < i + 1 && (#[trigger] exts@[j])@ == k {
                        Some(name)
                    } else {
                        extension_lookup(old_entries, k)
                    } by {
                    assert(extension_lookup(e, k) == if e.last().0@ == k {
                        Some(e.last().1)
                    } else {
                        extension_lookup(prev, k)
                    });
                    if exts@[i as int]@ == k {
                        assert(exists|j: int| 0 <= j < i + 1 && (#[trigger] exts@[j])@ == k);
                    } else {
                        if exists|j: int| 0 <= j < i + 1 && (#[trigger] exts@[j])@ == k {
                            let j = choose|j: int| 0 <= j < i + 1 && (#[trigger] exts@[j])@ == k;
                            assert(j < i);
                            assert(exists|j: int| 0 <= j < i && (#[trigger] exts@[j])@ == k);
                        } else {
                            assert(!exists|j: int| 0 <= j < i && (#[trigger] exts@[j])@ == k);
                        }
                    }
                }
            }
            i = i + 1;
        }
        let ghost before = self.languages@;
        self.languages.push(language);
        proof {
            let n = self.languages@.len() - 1;
            assert(self.languages@[n].spec_name() == name);
            assert forall|m: LanguageName| old(self).has(m) implies self.has(m) by {
                let j = choose|j: int| 0 <= j < before.len() && (#[trigger] before[j]).spec_name() == m;
                assert(self.languages@[j] == before[j]);
            }
            assert forall|m: LanguageName| self.has(m) implies old(self).has(m) || m == name by {
                let j = choose|j: int| 0 <= j < self.languages@.len() && (#[trigger] self.languages@[j]).spec_name() == m;
                if j < before.len() {
                    assert(before[j] == self.languages@[j]);
                }
            }
        }
    }

    /// The registered language of that name.
    pub fn get_language(&self, name: LanguageName) -> (r: Result<&LanguageCommon, SemanticEditError>)
        ensures
            r is Ok <==> self.has(name),
            r is Ok ==> r->Ok_0.spec_name() == name,
            r is Err ==> match r->Err_0 {
                SemanticEditError::ParserUnavailable { language } => language@ == language_text(name),
                _ => false,
            },
    {
        let mut i: usize = self.languages.len();
        while i > 0
            invariant
                i <= self.languages@.len(),
                forall|j: int| i <= j < self.languages@.len() ==> (#[trigger] self.languages@[j]).spec_name() != name,
            decreases i,
        {
            i = i - 1;
            if self.languages[i].name() == name {
                return Ok(&self.languages[i]);
            }
        }
        Err(SemanticEditError::ParserUnavailable { language: String::from_str(name.as_str()) })
    }

    /// The language a path's extension selects, if any.
    pub fn detect_language_from_path(&self, file_path: &str) -> (r: Option<LanguageName>)
        ensures
            r == match path_extension_of(file_path@) {
                None => None,
                Some(e) => self.by_extension(e),
            },
    {
        match path_extension(file_path) {
            None => None,
            Some(ext) => {
                let mut i: usize = self.extensions.len();
                assert(self.extensions@.take(i as int) =~= self.extensions@);
                while i > 0
                    invariant
                        i <= self.extensions@.len(),
                        path_extension_of(file_path@) == Some(ext@),
                        extension_lookup(self.extensions@, ext@) == extension_lookup(self.extensions@.take(i as int), ext@),
                    decreases i,
                {
                    let ghost t = self.extensions@.take(i as int);
                    assert(t.drop_last() =~= self.extensions@.take(i - 1));
                    assert(t.last() == self.extensions@[i - 1]);
                    i = i - 1;
                    if crate::text::same_text(self.extensions[i].0, ext.as_str()) {
                        assert(t.last().0@ == ext@);
                        assert(extension_lookup(t, ext@) == Some(t.last().1));
                        return Some(self.extensions[i].1);
                    }
                }
                None
            },
        }
    }

    /// The hinted language, else the one the extension selects, else the
    /// plain-text language.
    pub fn get_language_with_hint(&self, file_path: &str, language_hint: Option<LanguageName>) -> (r: Result<
        &LanguageCommon,
        SemanticEditError,
    >)
        ensures
            ({
                let chosen = match language_hint {
                    Some(h) => h,
                    None => match path_extension_of(file_path@) {
                        None => LanguageName::Other,
                        Some(e) => match self.by_extension(e) {
                            Some(n) => n,
                            None => LanguageName::Other,
                        },
                    },
                };
                (r is Ok <==> self.has(chosen)) && (r is Ok ==> r->Ok_0.spec_name() == chosen)
            }),
    {
        let name = match language_hint {
            Some(h) => h,
            None => match self.detect_language_from_path(file_path) {
                Some(n) => n,
                None => LanguageName::Other,
            },
        };
        self.get_language(name)
    }
}

} // verus!
