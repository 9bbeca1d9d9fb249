//! The grammars and editors of the built-in languages.
use crate::error::SemanticEditError;
use crate::languages::json::JsonEditor;
use crate::languages::python::PythonEditor;
use crate::languages::toml::TomlEditor;
use crate::languages::traits::TypescriptEditor;
use crate::languages::{LanguageBuilder, LanguageCommon, LanguageEditor, LanguageName, LanguageRegistry};
use tree_sitter::Language;
use vstd::prelude::*;

verus! {

/// Relies on `tree_sitter_rust::LANGUAGE`.
#[verifier::external_body]
fn grammar_rust() -> Language {
    tree_sitter_rust::LANGUAGE.into()
}

/// Relies on `tree_sitter_json::LANGUAGE`.
#[verifier::external_body]
fn grammar_json() -> Language {
    tree_sitter_json::LANGUAGE.into()
}

/// Relies on `tree_sitter_toml_ng::LANGUAGE`.
#[verifier::external_body]
fn grammar_toml() -> Language {
    tree_sitter_toml_ng::LANGUAGE.into()
}

/// Relies on `tree_sitter_typescript::LANGUAGE_TYPESCRIPT`.
#[verifier::external_body]
fn grammar_typescript() -> Language {
    tree_sitter_typescript::LANGUAGE_TYPESCRIPT.into()
}

/// Relies on `tree_sitter_typescript::LANGUAGE_TSX`.
#[verifier::external_body]
fn grammar_tsx() -> Language {
    tree_sitter_typescript::LANGUAGE_TSX.into()
}

/// Relies on `tree_sitter_javascript::LANGUAGE`.
#[verifier::external_body]
fn grammar_javascript() -> Language {
    tree_sitter_javascript::LANGUAGE.into()
}

/// Relies on `tree_sitter_python::LANGUAGE`.
#[verifier::external_body]
fn grammar_python() -> Language {
    tree_sitter_python::LANGUAGE.into()
}

/// Relies on `tree_sitter_go::LANGUAGE`.
#[verifier::external_body]
fn grammar_go() -> Language {
    tree_sitter_go::LANGUAGE.into()
}

/// Relies on `tree_sitter_cpp::LANGUAGE`.
#[verifier::external_body]
fn grammar_cpp() -> Language {
    tree_sitter_cpp::LANGUAGE.into()
}

/// Relies on `tree_sitter_c::LANGUAGE`.
#[verifier::external_body]
fn grammar_c() -> Language {
    tree_sitter_c::LANGUAGE.into()
}

/// Relies on `tree_sitter_java::LANGUAGE`.
#[verifier::external_body]
fn grammar_java() -> Language {
    tree_sitter_java::LANGUAGE.into()
}

/// Relies on `tree_sitter_php::LANGUAGE_PHP`.
#[verifier::external_body]
fn grammar_php() -> Language {
    tree_sitter_php::LANGUAGE_PHP.into()
}

/// Relies on `tree_sitter_c_sharp::LANGUAGE`.
#[verifier::external_body]
fn grammar_csharp() -> Language {
    tree_sitter_c_sharp::LANGUAGE.into()
}

/// Relies on `tree_sitter_ruby::LANGUAGE`.
#[verifier::external_body]
fn grammar_ruby() -> Language {
    tree_sitter_ruby::LANGUAGE.into()
}

/// Relies on `tree_sitter_plain::LANGUAGE`.
#[verifier::external_body]
fn grammar_plain() -> Language {
    tree_sitter_plain::LANGUAGE.into()
}

pub fn rust() -> (r: Result<LanguageCommon, SemanticEditError>)
    ensures
        r is Ok ==> r->Ok_0.spec_name() == LanguageName::Rust,
{
    LanguageBuilder::new(LanguageName::Rust, &["rs"], grammar_rust()).with_editor(LanguageEditor::Rust).build()
}

pub fn json() -> (r: Result<LanguageCommon, SemanticEditError>)
    ensures
        r is Ok ==> r->Ok_0.spec_name() == LanguageName::Json,
{
    LanguageBuilder::new(LanguageName::Json, &["json"], grammar_json()).with_editor(
        LanguageEditor::Json(JsonEditor::new()),
    ).build()
}

pub fn toml() -> (r: Result<LanguageCommon, SemanticEditError>)
    ensures
        r is Ok ==> r->Ok_0.spec_name() == LanguageName::Toml,
{
    LanguageBuilder::new(LanguageName::Toml, &["toml"], grammar_toml()).with_editor(
        LanguageEditor::Toml(TomlEditor::new()),
    ).build()
}

pub fn typescript() -> (r: Result<LanguageCommon, SemanticEditError>)
    ensures
        r is Ok ==> r->Ok_0.spec_name() == LanguageName::Typescript,
{
    LanguageBuilder::new(LanguageName::Typescript, &["ts"], grammar_typescript()).build()
}

pub fn tsx() -> (r: Result<LanguageCommon, SemanticEditError>)
    ensures
        r is Ok ==> r->Ok_0.spec_name() == LanguageName::Tsx,
{
    LanguageBuilder::new(LanguageName::Tsx, &["tsx"], grammar_tsx()).with_editor(
        LanguageEditor::Typescript(TypescriptEditor::new()),
    ).build()
}

pub fn javascript() -> (r: Result<LanguageCommon, SemanticEditError>)
    ensures
        r is Ok ==> r->Ok_0.spec_name() == LanguageName::Javascript,
{
    LanguageBuilder::new(
        LanguageName::Javascript,
        &["js", "jsx", "mjs", "cjs"],
        grammar_javascript(),
    ).build()
}

pub fn python() -> (r: Result<LanguageCommon, SemanticEditError>)
    ensures
        r is Ok ==> r->Ok_0.spec_name() == LanguageName::Python,
{
    LanguageBuilder::new(LanguageName::Python, &["py", "pyi"], grammar_python()).with_editor(
        LanguageEditor::Python(PythonEditor::new()),
    ).build()
}

pub fn go() -> (r: Result<LanguageCommon, SemanticEditError>)
    ensures
        r is Ok ==> r->Ok_0.spec_name() == LanguageName::Go,
{
    LanguageBuilder::new(LanguageName::Go, &["go"], grammar_go()).build()
}

pub fn cpp() -> (r: Result<LanguageCommon, SemanticEditError>)
    ensures
        r is Ok ==> r->Ok_0.spec_name() == LanguageName::Cpp,
{
    LanguageBuilder::new(
        LanguageName::Cpp,
        &["cpp", "cxx", "cc", "c++", "hpp", "hxx", "h++"],
        grammar_cpp(),
    ).build()
}

pub fn c() -> (r: Result<LanguageCommon, SemanticEditError>)
    ensures
        r is Ok ==> r->Ok_0.spec_name() == LanguageName::C,
{
    LanguageBuilder::new(LanguageName::C, &["c", "h"], grammar_c()).build()
}

pub fn java() -> (r: Result<LanguageCommon, SemanticEditError>)
    ensures
        r is Ok ==> r->Ok_0.spec_name() == LanguageName::Java,
{
    LanguageBuilder::new(LanguageName::Java, &["java"], grammar_java()).build()
}

pub fn php() -> (r: Result<LanguageCommon, SemanticEditError>)
    ensures
        r is Ok ==> r->Ok_0.spec_name() == LanguageName::Php,
{
    LanguageBuilder::new(LanguageName::Php, &["php"], grammar_php()).build()
}

pub fn csharp() -> (r: Result<LanguageCommon, SemanticEditError>)
    ensures
        r is Ok ==> r->Ok_0.spec_name() == LanguageName::CSharp,
{
    LanguageBuilder::new(LanguageName::CSharp, &["cs"], grammar_csharp()).build()
}

pub fn ruby() -> (r: Result<LanguageCommon, SemanticEditError>)
    ensures
        r is Ok ==> r->Ok_0.spec_name() == LanguageName::Ruby,
{
    LanguageBuilder::new(LanguageName::Ruby, &["rb"], grammar_ruby()).build()
}

pub fn plain() -> (r: Result<LanguageCommon, SemanticEditError>)
    ensures
        r is Ok ==> r->Ok_0.spec_name() == LanguageName::Other,
{
    LanguageBuilder::new(LanguageName::Other, &[], grammar_plain()).build()
}

impl LanguageRegistry {
    /// Every built-in language, registered in a fixed order.
    pub fn new() -> (r: Result<Self, SemanticEditError>)
        ensures
            r is Ok ==> forall|n: LanguageName| #[trigger] r->Ok_0.has(n),
    {
        let mut registry = LanguageRegistry::empty();
        registry.register_language(json()?);
        registry.register_language(rust()?);
        registry.register_language(toml()?);
        registry.register_language(typescript()?);
        registry.register_language(tsx()?);
        registry.register_language(javascript()?);
        registry.register_language(python()?);
        registry.register_language(go()?);
        registry.register_language(cpp()?);
        registry.register_language(c()?);
        registry.register_language(java()?);
        registry.register_language(php()?);
        registry.register_language(csharp()?);
        registry.register_language(ruby()?);
        registry.register_language(plain()?);
        proof {
            assert forall|n: LanguageName| #[trigger] registry.has(n) by {
                match n {
                    _ => {},
                }
            }
        }
        Ok(registry)
    }
}

} // verus!
