//! What running a tool gives back.

use vstd::prelude::*;

verus! {

/// The outcome of one tool run.
#[derive(Debug, PartialEq, Eq)]
pub struct ToolResult {
    pub success: bool,
    pub output: String,
    pub error: Option<String>,
}

/// The mathematical content of a `ToolResult`.
pub struct ToolResultView {
    pub success: bool,
    pub output: Seq<char>,
    pub error: Option<Seq<char>>,
}

impl ToolResultView {
    /// A success carries no error.
    pub open spec fn well_formed(self) -> bool {
        self.success ==> self.error is None
    }
}

impl View for ToolResult {
    type V = ToolResultView;

    open spec fn view(&self) -> ToolResultView {
        ToolResultView {
            success: self.success,
            output: self.output@,
            error: match self.error {
                Some(message) => Some(message@),
                None => None,
            },
        }
    }
}

impl DeepView for ToolResult {
    type V = ToolResultView;

    open spec fn deep_view(&self) -> ToolResultView {
        self@
    }
}

impl Clone for ToolResult {
    /// A copy with the same content.
    fn clone(&self) -> (copy: ToolResult)
        ensures
            copy@ == self@,
    {
        ToolResult {
            success: self.success,
            output: self.output.clone(),
            error: match &self.error {
                Some(message) => Some(message.clone()),
                None => None,
            },
        }
    }
}

} // verus!
