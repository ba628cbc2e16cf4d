use vstd::prelude::*;
use vstd::string::StringExecFns;

use crate::ast::ElementType;
use crate::ast::TyView;
use crate::ast::ty_text;

verus! {

/// A fatal parse failure.  Every variant carries where it arose: the index
/// of the offending token, or `None` for the invocation site when the
/// stream was exhausted before a required construct began.
#[derive(Debug)]
pub enum TemplateError {
    /// The stream does not begin a template node with `<`.
    ExpectedNode(Option<usize>),
    /// A required `>` is missing: the stream ended where one was owed, or
    /// another token stands in its place — after an opening path that
    /// includes the unimplemented attribute placeholder, which always fails
    /// with this same diagnostic.
    ExpectedClose(Option<usize>),
    /// The tokens accumulated for a tag do not form a path.
    MalformedPath(usize),
    /// The closing tag is missing, or its resolved type differs from the
    /// opening type, whose canonical rendering the message carries.
    EndTagMismatch { at: Option<usize>, expected: ElementType },
}

/// The mathematical shape of a `TemplateError`.
pub enum ErrView {
    ExpectedNode(Option<usize>),
    ExpectedClose(Option<usize>),
    MalformedPath(usize),
    EndTagMismatch { at: Option<usize>, expected: TyView },
}

impl View for TemplateError {
    type V = ErrView;

    open spec fn view(&self) -> ErrView {
        match self {
            TemplateError::ExpectedNode(at) => ErrView::ExpectedNode(*at),
            TemplateError::ExpectedClose(at) => ErrView::ExpectedClose(*at),
            TemplateError::MalformedPath(at) => ErrView::MalformedPath(*at),
            TemplateError::EndTagMismatch { at, expected } => ErrView::EndTagMismatch {
                at: *at,
                expected: expected@,
            },
        }
    }
}

/// The diagnostic text of an error.
pub open spec fn message_text(e: ErrView) -> Seq<char> {
    match e {
        ErrView::ExpectedNode(_) => "Expected template node"@,
        ErrView::ExpectedClose(_) => "Expected '>'"@,
        ErrView::MalformedPath(_) => "Malformed path"@,
        ErrView::EndTagMismatch { at, expected } => "Expected '</"@ + ty_text(expected) + ">'"@,
    }
}

impl TemplateError {
    /// The diagnostic text of this error.
    pub fn message(&self) -> (r: String)
        ensures
            r@ == message_text(self@),
    {
        match self {
            TemplateError::ExpectedNode(_) => String::from_str("Expected template node"),
            TemplateError::ExpectedClose(_) => String::from_str("Expected '>'"),
            TemplateError::MalformedPath(_) => String::from_str("Malformed path"),
            TemplateError::EndTagMismatch { at, expected } => {
                let mut m = String::from_str("Expected '</");
                m.append(expected.canonical().as_str());
                m.append(">'");
                m
            },
        }
    }

    /// The index of the offending token, or `None` for the invocation site.
    pub fn position(&self) -> (r: Option<usize>)
        ensures
            r == match self@ {
                ErrView::ExpectedNode(at) => at,
                ErrView::ExpectedClose(at) => at,
                ErrView::MalformedPath(at) => Some(at),
                ErrView::EndTagMismatch { at, expected } => at,
            },
    {
        match self {
            TemplateError::ExpectedNode(at) => *at,
            TemplateError::ExpectedClose(at) => *at,
            TemplateError::MalformedPath(at) => Some(*at),
            TemplateError::EndTagMismatch { at, expected } => *at,
        }
    }
}

} // verus!
