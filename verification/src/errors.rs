//! Error taxonomy of the engine.

use vstd::prelude::*;

verus! {

/// Failures of the bootstrap credential helpers.
#[derive(Debug)]
pub enum Error {
    /// A secret of fewer than `min` characters was requested.
    WeakSecret { min: usize },
    /// The password hasher rejected its input.
    HasherError,
}

impl Error {
    /// A short description, for logs at the serving boundary.
    pub fn message(&self) -> (r: &'static str)
    {
        match self {
            Error::WeakSecret { .. } => "attempted to generate a secret below the minimum length",
            Error::HasherError => "failed to create Argon2 PHC",
        }
    }
}

/// Failures of the rendering engine.
///
/// `ContentUnavailable` names a content file or asset that could not be
/// located or read (a client-visible not-found). `TemplateFailure` is an
/// internal defect of the compiled template or its context (a server error).
/// `Forbidden` is a path-traversal attempt, rejected before any filesystem
/// access. `StartupFailure` means the template could not be loaded when the
/// engine was constructed, and the process must not begin serving.
#[derive(Debug)]
pub enum RenderError {
    ContentUnavailable(String),
    TemplateFailure,
    Forbidden,
    StartupFailure,
}

impl RenderError {
    /// A short description, for logs at the serving boundary; filesystem
    /// paths are not repeated here, so nothing internal leaks to callers.
    pub fn message(&self) -> (r: &'static str)
    {
        match self {
            RenderError::ContentUnavailable(..) => "content unavailable",
            RenderError::TemplateFailure => "template failure",
            RenderError::Forbidden => "attempted use of . or .. paths",
            RenderError::StartupFailure => "failed to load template",
        }
    }
}

} // verus!
