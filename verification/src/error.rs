//! The error that rendering reports.
use crate::text::Text;
use vstd::prelude::*;

verus! {

/// What went wrong.
#[derive(Debug, Clone, Copy, PartialEq, Eq, Structural)]
pub enum TemplateErrorKind {
    /// A placeholder's name has no value in the data.
    MissingData,
}

/// An error of this library: its kind and a description.
#[derive(Debug)]
pub struct TemplateError {
    kind: TemplateErrorKind,
    error: String,
}

/// The label under which a kind is shown.
pub open spec fn kind_label(kind: TemplateErrorKind) -> Seq<char> {
    match kind {
        TemplateErrorKind::MissingData => "MissingData"@,
    }
}

/// The description of the error for a placeholder whose name has no value.
pub open spec fn missing_data_message(name: Seq<char>) -> Seq<char> {
    "Missing Data for Argument \""@ + name + "\""@
}

/// An error as a value: its kind and the characters of its description.
pub struct TemplateErrorView {
    pub kind: TemplateErrorKind,
    pub message: Seq<char>,
}

impl TemplateErrorView {
    /// The text that shows the error: the kind's label, a colon and a space,
    /// then the description.
    pub open spec fn display(self) -> Seq<char> {
        kind_label(self.kind) + ": "@ + self.message
    }
}

impl View for TemplateError {
    type V = TemplateErrorView;

    closed spec fn view(&self) -> TemplateErrorView {
        TemplateErrorView { kind: self.kind, message: self.error@ }
    }
}

impl TemplateError {
    /// Creates an error of the given kind with the given description.
    pub fn new<E: Text>(kind: TemplateErrorKind, error: E) -> (created: Self)
        ensures
            created@ == (TemplateErrorView { kind, message: error.text() }),
    {
        TemplateError { kind, error: String::from_str(error.as_text()) }
    }

    /// The error for a placeholder whose name has no value in the data.
    pub fn missing_data(name: &str) -> (created: Self)
        ensures
            created@ == (TemplateErrorView {
                kind: TemplateErrorKind::MissingData,
                message: missing_data_message(name@),
            }),
    {
        let mut error = String::from_str("Missing Data for Argument \"");
        error.append(name);
        error.append("\"");
        TemplateError { kind: TemplateErrorKind::MissingData, error }
    }

    /// The kind of this error.
    #[must_use]
    pub fn kind(&self) -> (kind: TemplateErrorKind)
        ensures
            kind == self@.kind,
    {
        self.kind
    }

    /// The description of this error.
    #[must_use]
    pub fn message(&self) -> (message: &str)
        ensures
            message@ == self@.message,
    {
        self.error.as_str()
    }

    /// Shows the error as `Kind: description`.
    pub fn to_string(&self) -> (text: String)
        ensures
            text@ == self@.display(),
    {
        let mut text = match self.kind {
            TemplateErrorKind::MissingData => String::from_str("MissingData"),
        };
        text.append(": ");
        text.append(self.error.as_str());
        text
    }
}

} // verus!
