//! Language formatting, with the refusal explained when the formatter fails.
use crate::languages::LanguageCommon;
use vstd::prelude::*;

verus! {

/// Formats code with the language's formatter.
pub struct Formatter;

pub open spec fn formatter_failure_prefix() -> Seq<char> {
    "The formatter has encountered the following error making that change, so the file has not been modified. The tool has prevented what it believes to be an unsafe edit. Please try a different edit.\n\n"@
}

impl Formatter {
    /// The formatted code; a formatter error comes back explained. `None`
    /// where the language's formatter is an outside program.
    pub fn format_code(language: &LanguageCommon, source: &str) -> (r: Option<Result<String, String>>)
        ensures
            r is None <==> language.spec_editor() is Rust,
            r matches Some(Err(m)) ==> crate::text::has_prefix(m@, formatter_failure_prefix()),
            (language.spec_editor() is Default || language.spec_editor() is Typescript
                || language.spec_editor() is Python) ==> r is Some && r->0 is Ok && r->0->Ok_0@
                == source@,
    {
        match language.editor().format_code(source) {
            None => None,
            Some(Ok(s)) => Some(Ok(s)),
            Some(Err(e)) => {
                let mut msg = String::from_str(
                    "The formatter has encountered the following error making that change, so the file has not been modified. The tool has prevented what it believes to be an unsafe edit. Please try a different edit.\n\n",
                );
                let ghost head = msg@;
                msg.append(e.as_str());
                assert(msg@.subrange(0, head.len() as int) =~= head);
                Some(Err(msg))
            },
        }
    }
}

} // verus!
