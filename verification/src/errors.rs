use vstd::prelude::*;

verus! {

/// The error taxonomy of the library: every fallible operation reports one of
/// these variants, each carrying a descriptive message. Callers treat every
/// error as terminal for that operation; no variant carries retry metadata.
#[derive(Debug)]
pub enum AppError {
    /// A game, runtime install, or file was missing.
    NotFound(String),
    /// An input failed a validation rule (empty required field, bad value).
    Validation(String),
    /// A filesystem operation failed.
    Io(String),
    /// An archive entry attempted path traversal.
    UnsafePath(String),
    /// A manifest fetch or download failed.
    Network(String),
    /// A manifest or settings file could not be parsed.
    Parse(String),
    /// The platform or archive format is not supported.
    Unsupported(String),
    /// A process could not be spawned.
    Process(String),
}

impl AppError {
    /// The descriptive message carried by the error.
    pub fn message(&self) -> (r: String)
        ensures
            r@ == self.spec_message(),
    {
        match self {
            AppError::NotFound(m) => m.clone(),
            AppError::Validation(m) => m.clone(),
            AppError::Io(m) => m.clone(),
            AppError::UnsafePath(m) => m.clone(),
            AppError::Network(m) => m.clone(),
            AppError::Parse(m) => m.clone(),
            AppError::Unsupported(m) => m.clone(),
            AppError::Process(m) => m.clone(),
        }
    }

    /// The message, as a sequence of characters.
    pub open spec fn spec_message(&self) -> Seq<char> {
        match self {
            AppError::NotFound(m) => m@,
            AppError::Validation(m) => m@,
            AppError::Io(m) => m@,
            AppError::UnsafePath(m) => m@,
            AppError::Network(m) => m@,
            AppError::Parse(m) => m@,
            AppError::Unsupported(m) => m@,
            AppError::Process(m) => m@,
        }
    }
}

} // verus!
