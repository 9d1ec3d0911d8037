use vstd::prelude::*;

verus! {

/// Errors reported by the recognizer, the detector and the engine.
#[derive(Debug)]
pub enum OcrError {
    /// The engine (its worker, its channels or its registry) could not serve a request.
    EngineError(String),
    /// Input data could not be read, such as a character set that is not UTF-8.
    IoError(String),
    /// The inference runtime refused a model, a session or a tensor.
    ModelError(String),
}

/// Result type used throughout the crate.
pub type OcrResult<T> = Result<T, OcrError>;

impl OcrError {
    /// The text carried by the error, whatever its kind.
    pub fn message(&self) -> (r: &String)
        ensures
            r@ == self.message_view(),
    {
        match self {
            OcrError::EngineError(m) => m,
            OcrError::IoError(m) => m,
            OcrError::ModelError(m) => m,
        }
    }

    pub open spec fn message_view(&self) -> Seq<char> {
        match self {
            OcrError::EngineError(m) => m@,
            OcrError::IoError(m) => m@,
            OcrError::ModelError(m) => m@,
        }
    }
}

/// True when `e` is an engine error whose message is `msg`.
pub open spec fn is_engine_error(e: OcrError, msg: Seq<char>) -> bool {
    e matches OcrError::EngineError(m) && m@ == msg
}

/// Builds an engine error carrying the given message.
pub fn engine_error(msg: &str) -> (e: OcrError)
    ensures
        is_engine_error(e, msg@),
{
    OcrError::EngineError(msg.to_owned())
}

} // verus!
