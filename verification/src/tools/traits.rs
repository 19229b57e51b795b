//! What a tool answers.

use crate::text::opt_text;
use vstd::prelude::*;

verus! {

/// The answer of a tool.
#[derive(Debug)]
pub struct ToolResult {
    pub success: bool,
    pub output: String,
    pub error: Option<String>,
}

/// What a `ToolResult` says.
pub struct ResultView {
    pub success: bool,
    pub output: Seq<char>,
    pub error: Option<Seq<char>>,
}

impl View for ToolResult {
    type V = ResultView;

    open spec fn view(&self) -> ResultView {
        ResultView { success: self.success, output: self.output@, error: opt_text(self.error) }
    }
}

/// The answer of a tool that did its work.
pub open spec fn done(output: Seq<char>) -> ResultView {
    ResultView { success: true, output, error: None }
}

/// The answer of a tool that did not.
pub open spec fn failed(error: Seq<char>) -> ResultView {
    ResultView { success: false, output: Seq::empty(), error: Some(error) }
}

impl ToolResult {
    /// The answer of a tool that did its work.
    pub fn done(output: String) -> (r: Self)
        ensures
            r@ == done(output@),
    {
        ToolResult { success: true, output, error: None }
    }

    /// The answer of a tool that did not.
    pub fn failed(error: String) -> (r: Self)
        ensures
            r@ == failed(error@),
    {
        ToolResult { success: false, output: String::new(), error: Some(error) }
    }
}

/// A tool that did its work answers with what it found and no error; one that did not answers with
/// what went wrong and nothing else.
pub proof fn answers_say_how_it_went(text: Seq<char>)
    ensures
        done(text).success && done(text).output == text && done(text).error is None,
        !failed(text).success && failed(text).output.len() == 0 && failed(text).error == Some(text),
{
}

} // verus!
