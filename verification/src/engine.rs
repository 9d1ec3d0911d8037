use vstd::prelude::*;

use crate::error::{engine_error, is_engine_error, OcrResult};

verus! {

/// Message of the error a caller gets when the worker no longer takes requests.
pub open spec fn worker_gone_msg() -> Seq<char> {
    "OCR engine worker thread has terminated"@
}

/// Message of the error a caller gets when no answer comes back.
pub open spec fn no_answer_msg() -> Seq<char> {
    "Failed to receive result from worker thread"@
}

/// What a caller of the engine gets for a request: `sent` tells whether the
/// request reached the worker, `answer` is the first message that came back
/// (none when the worker dropped the request).
pub fn request_outcome<T>(sent: bool, answer: Option<OcrResult<T>>) -> (r: OcrResult<T>)
    ensures
        !sent ==> r is Err && is_engine_error(r->Err_0, worker_gone_msg()),
        sent && answer is None ==> r is Err && is_engine_error(r->Err_0, no_answer_msg()),
        sent && answer is Some ==> r == answer->0,
{
    if !sent {
        return Err(engine_error("OCR engine worker thread has terminated"));
    }
    match answer {
        Some(result) => result,
        None => Err(engine_error("Failed to receive result from worker thread")),
    }
}

} // verus!
