//! Structured diagnostics: every failure in the library, hard or soft, is
//! reported as a [`Whoops`] value carrying a machine-readable kind, the
//! context in which it arose, a cause, and a suggested remedy.

use vstd::prelude::*;

verus! {

/// The view of an optional string field once a fallback has been applied:
/// the field's own text if present, the fallback text otherwise.
pub open spec fn or_fallback(field: Option<String>, fallback: Seq<char>) -> Seq<char> {
    match field {
        Some(s) => s@,
        None => fallback,
    }
}

/// A structured diagnostic. No error in this library is ever surfaced as a
/// bare string: hard failures propagate a `Whoops` to the caller, soft
/// failures hand one to the logging layer and execution continues.
#[derive(Debug)]
pub struct Whoops {
    /// machine-readable kind tag
    pub err_type: String,
    /// what was being attempted
    pub context: String,
    /// the cause
    pub why: String,
    /// a suggested remedy
    pub suggestion: String,
}

impl Whoops {
    /// Prepends further context to an existing diagnostic.
    pub fn augment_context(&mut self, context: &str)
        ensures
            final(self).context@ == context@ + ", "@ + old(self).context@,
            final(self).err_type == old(self).err_type,
            final(self).why == old(self).why,
            final(self).suggestion == old(self).suggestion,
    {
        let mut prefixed = context.to_owned();
        prefixed.append(", ");
        prefixed.append(self.context.as_str());
        self.context = prefixed;
    }

    /// The diagnostic rendered as display text, one labelled line per field.
    pub fn render(&self) -> (s: String)
        ensures
            s@ == "\n--- ERROR ---\n\nError Type: "@ + self.err_type@ + "\n\nContext: "@
                + self.context@ + "\n\nWhy: "@ + self.why@ + "\n\nSuggestion: "@
                + self.suggestion@ + "\n\n-------------\n\n"@,
    {
        let mut s = "\n--- ERROR ---\n\nError Type: ".to_owned();
        s.append(self.err_type.as_str());
        s.append("\n\nContext: ");
        s.append(self.context.as_str());
        s.append("\n\nWhy: ");
        s.append(self.why.as_str());
        s.append("\n\nSuggestion: ");
        s.append(self.suggestion.as_str());
        s.append("\n\n-------------\n\n");
        s
    }
}

/// Builds a [`Whoops`] field by field; [`WhoopsBuilder::build`] substitutes a
/// placeholder for every field left unset.
pub struct WhoopsBuilder {
    pub err_type: Option<String>,
    pub context: Option<String>,
    pub why: Option<String>,
    pub suggestion: Option<String>,
}

impl WhoopsBuilder {
    /// A builder with every field unset.
    pub fn new() -> (b: WhoopsBuilder)
        ensures
            b.err_type is None,
            b.context is None,
            b.why is None,
            b.suggestion is None,
    {
        WhoopsBuilder { err_type: None, context: None, why: None, suggestion: None }
    }

    /// Sets the machine-readable kind tag.
    pub fn err_type(self, err_type: &str) -> (b: WhoopsBuilder)
        ensures
            b.err_type matches Some(s) && s@ == err_type@,
            b.context == self.context,
            b.why == self.why,
            b.suggestion == self.suggestion,
    {
        WhoopsBuilder { err_type: Some(err_type.to_owned()), ..self }
    }

    /// Sets the context: what was being attempted.
    pub fn context(self, context: &str) -> (b: WhoopsBuilder)
        ensures
            b.context matches Some(s) && s@ == context@,
            b.err_type == self.err_type,
            b.why == self.why,
            b.suggestion == self.suggestion,
    {
        WhoopsBuilder { context: Some(context.to_owned()), ..self }
    }

    /// Sets the cause.
    pub fn why(self, why: &str) -> (b: WhoopsBuilder)
        ensures
            b.why matches Some(s) && s@ == why@,
            b.err_type == self.err_type,
            b.context == self.context,
            b.suggestion == self.suggestion,
    {
        WhoopsBuilder { why: Some(why.to_owned()), ..self }
    }

    /// Sets the suggested remedy.
    pub fn suggestion(self, suggestion: &str) -> (b: WhoopsBuilder)
        ensures
            b.suggestion matches Some(s) && s@ == suggestion@,
            b.err_type == self.err_type,
            b.context == self.context,
            b.why == self.why,
    {
        WhoopsBuilder { suggestion: Some(suggestion.to_owned()), ..self }
    }

    /// The finished diagnostic, with a placeholder in every field left unset.
    pub fn build(self) -> (w: Whoops)
        ensures
            w.err_type@ == or_fallback(self.err_type, "unknown error type"@),
            w.context@ == or_fallback(self.context, "unknown context"@),
            w.why@ == or_fallback(self.why, "unknown reason"@),
            w.suggestion@ == or_fallback(
                self.suggestion,
                "no suggestions, contact author for help"@,
            ),
    {
        Whoops {
            err_type: match self.err_type {
                Some(s) => s,
                None => "unknown error type".to_owned(),
            },
            context: match self.context {
                Some(s) => s,
                None => "unknown context".to_owned(),
            },
            why: match self.why {
                Some(s) => s,
                None => "unknown reason".to_owned(),
            },
            suggestion: match self.suggestion {
                Some(s) => s,
                None => "no suggestions, contact author for help".to_owned(),
            },
        }
    }
}

} // verus!
