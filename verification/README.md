# rust_paddle_ocr

A PaddleOCR-style text recognition engine whose decision-making core is
verified with Verus.

- `src/` — the verified library:
  - `keys.rs`: the recognizer's key table built from a character-set file
    (text or UTF-8 bytes), and the punctuation set.
  - `preprocess.rs`: sizing of text crops to the recognizer's input height
    (Catmull-Rom resampling from the `image` crate) and their planar RGB layout.
  - `decode.rs`: greedy CTC decoding of the recognizer's scores, with
    per-character thresholds, merging of repeats and punctuation rules.
  - `worker.rs`: the engine worker as a state machine (model loading, request
    dispatch, the detect-then-recognize pipeline, shutdown).
  - `engine.rs`: what a caller gets back for a request.
  - `manager.rs`: the process-wide engine registry.
  - `error.rs`: the error type.
- `app/` — the runtime around it: the MNN inference session, float
  conversions, the worker thread and its channels, and the global engine.
- `tests/` — tests of the library.
