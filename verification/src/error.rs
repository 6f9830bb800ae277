//! The errors of the modes.
use vstd::prelude::*;

verus! {

/// Why a session kubeconfig could not be written.
#[derive(Debug)]
pub enum SetContextError {
    /// No context of the kubeconfig has this name.
    KubeContextNotFound { ctx: String },
}

/// Why a mode stopped.
#[derive(Debug)]
pub enum Error {
    /// Nothing was chosen; `prompt` names what was asked for.
    NoItemSelected { prompt: &'static str },
    SetContext(SetContextError),
}

} // verus!
