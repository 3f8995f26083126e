//! Failures of command handling.

use vstd::prelude::*;

verus! {

/// The template engine's own error, carried through unchanged.
#[verifier::external_type_specification]
#[verifier::external_body]
pub struct ExMarkingsError(markings::Error);

/// What can go wrong while handling a command.
#[derive(Debug)]
pub enum KappaError {
    /// The command has a shape that no handler takes; holds the chat line.
    BadInput(String),
    /// No template of that name is defined for the channel; holds the name.
    TemplateMissing(String),
    /// The template names a variable that has no value; holds its name.
    MissingVariable(String),
    /// The template text could not be read or rendered.
    MarkingsError(markings::Error),
}

} // verus!
