//! Line-editor host interface: how an embedding application renders the
//! prompt and highlights the line being edited.

use crate::color::ColorAttribute;
use crate::line::{CellAttributes, Underline};
use vstd::prelude::*;

verus! {

/// A change to one display attribute.
pub enum AttributeChange {
    Intensity(bool),
    Underline(Underline),
    Reverse(bool),
    StrikeThrough(bool),
    Foreground(ColorAttribute),
    Background(ColorAttribute),
}

/// A screen change an application can emit: attribute changes or text.
pub enum Change {
    Attribute(AttributeChange),
    AllAttributes(CellAttributes),
    Text(String),
}

/// The `OutputElement` type allows returning graphic attribute changes
/// as well as textual output.
pub enum OutputElement {
    /// Change a single attribute
    Attribute(AttributeChange),
    /// Change all possible attributes to the given set of values
    AllAttributes(CellAttributes),
    /// Printable text.
    /// Control characters are rendered inert by transforming them
    /// to space.  CR and LF characters are interpreted by moving
    /// the cursor position.  CR moves the cursor to the start of
    /// the line and LF moves the cursor down to the next line.
    /// You typically want to use both together when sending in
    /// a line break.
    Text(String),
}

/// What a converted output element becomes, variant for variant.
pub open spec fn spec_element_to_change(e: OutputElement) -> Change {
    match e {
        OutputElement::Attribute(a) => Change::Attribute(a),
        OutputElement::AllAttributes(a) => Change::AllAttributes(a),
        OutputElement::Text(t) => Change::Text(t),
    }
}

impl From<OutputElement> for Change {
    /// Lifts an output element into the general change type.
    fn from(e: OutputElement) -> (r: Change) {
        match e {
            OutputElement::Attribute(a) => Change::Attribute(a),
            OutputElement::AllAttributes(a) => Change::AllAttributes(a),
            OutputElement::Text(t) => Change::Text(t),
        }
    }
}

impl vstd::std_specs::convert::FromSpecImpl<OutputElement> for Change {
    open spec fn obeys_from_spec() -> bool {
        true
    }

    open spec fn from_spec(e: OutputElement) -> Change {
        spec_element_to_change(e)
    }
}

/// The `LineEditorHost` trait allows an embedding application to influence
/// how the line editor functions.
/// A concrete implementation of the host with neutral defaults is provided
/// as `NopLineEditorHost`.
pub trait LineEditorHost {
    /// Given a prompt string, return the rendered form of the prompt as
    /// a sequence of `OutputElement` instances.
    /// The implementation is free to interpret the prompt string however
    /// it chooses; for instance, the application can opt to expand its own
    /// application specific escape sequences as it sees fit.
    /// The default implementation returns the prompt as-is with no coloring
    /// and no textual transformation.
    fn render_prompt(&self, prompt: &str) -> (r: Vec<OutputElement>)
        ensures
            r@.len() == 1,
            r@[0] matches OutputElement::Text(t) && t@ == prompt@,
    {
        let mut v: Vec<OutputElement> = Vec::new();
        v.push(OutputElement::Text(prompt.to_owned()));
        v
    }

    /// Given a reference to the current line being edited and the position
    /// of the cursor, return the rendered form of the line as a sequence
    /// of `OutputElement` instances.
    /// While this interface technically allows returning arbitrary Text
    /// sequences, the application should preserve the column positions of
    /// the graphemes, otherwise the terminal cursor position won't match up
    /// to the correct location.
    /// The default implementation returns the line as-is with no coloring,
    /// independent of the cursor position.
    fn highlight_line(&self, line: &str, _cursor_position: usize) -> (r: Vec<OutputElement>)
        ensures
            r@.len() == 1,
            r@[0] matches OutputElement::Text(t) && t@ == line@,
    {
        let mut v: Vec<OutputElement> = Vec::new();
        v.push(OutputElement::Text(line.to_owned()));
        v
    }
}

/// A concrete implementation of `LineEditorHost` that uses the default
/// behaviors.
pub struct NopLineEditorHost {}

impl LineEditorHost for NopLineEditorHost {

}

} // verus!
