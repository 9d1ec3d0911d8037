use rust_paddle_ocr::engine::request_outcome;
use rust_paddle_ocr::error::{OcrError, OcrResult};
use rust_paddle_ocr::manager::OcrEngineManager;
use rust_paddle_ocr::worker::{DetectorOutput, OcrWorker, RequestKind, WorkerAction, WorkerEvent};

fn engine_msg<T>(r: OcrResult<T>) -> String {
    match r {
        Err(OcrError::EngineError(m)) => m,
        _ => panic!("expected an engine error"),
    }
}

fn serving_worker() -> OcrWorker {
    let mut w = OcrWorker::new();
    assert!(matches!(w.step(WorkerEvent::DetectorLoaded(Ok(()))), WorkerAction::LoadRecognizer));
    assert!(matches!(w.step(WorkerEvent::RecognizerLoaded(Ok(()))), WorkerAction::AwaitRequest));
    w
}

fn texts(v: &[&str]) -> Vec<String> {
    v.iter().map(|s| s.to_string()).collect()
}

#[test]
fn full_ocr_reads_every_region_in_order() {
    let mut w = serving_worker();
    assert!(matches!(
        w.step(WorkerEvent::Request(RequestKind::ProcessOcr)),
        WorkerAction::DetectRegions(DetectorOutput::TextImages)
    ));
    assert!(matches!(w.step(WorkerEvent::Detected(Ok(3))), WorkerAction::RecognizeRegion(0)));
    assert!(matches!(
        w.step(WorkerEvent::Recognized(Ok("one".to_string()))),
        WorkerAction::RecognizeRegion(1)
    ));
    assert!(matches!(
        w.step(WorkerEvent::Recognized(Ok("two".to_string()))),
        WorkerAction::RecognizeRegion(2)
    ));
    match w.step(WorkerEvent::Recognized(Ok("three".to_string()))) {
        WorkerAction::ReplyTexts(t) => assert_eq!(t, texts(&["one", "two", "three"])),
        _ => panic!("expected the texts"),
    }
    assert!(w.expects(&WorkerEvent::Request(RequestKind::DetectText)));
}

#[test]
fn efficient_full_ocr_uses_efficient_crops() {
    let mut w = serving_worker();
    assert!(matches!(
        w.step(WorkerEvent::Request(RequestKind::ProcessOcrEfficient)),
        WorkerAction::DetectRegions(DetectorOutput::TextImagesEfficient)
    ));
    match w.step(WorkerEvent::Detected(Ok(0))) {
        WorkerAction::ReplyTexts(t) => assert!(t.is_empty()),
        _ => panic!("expected an empty answer"),
    }
}

#[test]
fn full_ocr_stops_at_first_failed_reading() {
    let mut w = serving_worker();
    w.step(WorkerEvent::Request(RequestKind::ProcessOcr));
    w.step(WorkerEvent::Detected(Ok(3)));
    w.step(WorkerEvent::Recognized(Ok("one".to_string())));
    let bad = OcrError::ModelError("run failed".to_string());
    match w.step(WorkerEvent::Recognized(Err(bad))) {
        WorkerAction::ReplyFailure(OcrError::ModelError(m), partial) => {
            assert_eq!(m, "run failed");
            assert_eq!(partial, texts(&["one"]));
        }
        _ => panic!("expected a failure"),
    }
    assert!(!w.expects(&WorkerEvent::Recognized(Ok("two".to_string()))));
    assert!(w.expects(&WorkerEvent::RequestsClosed));
}

#[test]
fn failed_detection_is_the_answer() {
    let mut w = serving_worker();
    w.step(WorkerEvent::Request(RequestKind::ProcessOcr));
    match w.step(WorkerEvent::Detected(Err(OcrError::EngineError("no det".to_string())))) {
        WorkerAction::ReplyError(e) => assert_eq!(e.message(), "no det"),
        _ => panic!("expected the detection error"),
    }
}

#[test]
fn simple_requests_are_answered_directly() {
    let mut w = serving_worker();
    let cases = [
        (RequestKind::DetectText, Some(DetectorOutput::TextImages)),
        (RequestKind::GetTextImages, Some(DetectorOutput::TextImages)),
        (RequestKind::GetTextRects, Some(DetectorOutput::TextRects)),
        (RequestKind::GetTextImagesEfficient, Some(DetectorOutput::TextImagesEfficient)),
        (RequestKind::RecognizeText, None),
    ];
    for (kind, want) in cases {
        match (w.step(WorkerEvent::Request(kind)), want) {
            (WorkerAction::AnswerWithDetector(got), Some(want)) => {
                assert_eq!(format!("{got:?}"), format!("{want:?}"))
            }
            (WorkerAction::AnswerWithRecognizer, None) => {}
            _ => panic!("unexpected action"),
        }
        assert!(!w.is_finished());
    }
}

#[test]
fn shutdown_and_closed_channel_stop_the_worker() {
    let mut w = serving_worker();
    assert!(matches!(w.step(WorkerEvent::Request(RequestKind::Shutdown)), WorkerAction::Exit(Ok(()))));
    assert!(w.is_finished());
    assert!(!w.expects(&WorkerEvent::RequestsClosed));
    let mut w = serving_worker();
    assert!(matches!(w.step(WorkerEvent::RequestsClosed), WorkerAction::Exit(Ok(()))));
}

#[test]
fn model_load_failure_stops_the_worker() {
    let mut w = OcrWorker::new();
    let err = OcrError::ModelError("bad detector".to_string());
    assert!(matches!(w.step(WorkerEvent::DetectorLoaded(Err(err))), WorkerAction::Exit(Err(_))));
    assert!(w.is_finished());
    let mut w = OcrWorker::new();
    w.step(WorkerEvent::DetectorLoaded(Ok(())));
    let err = OcrError::IoError("bad keys".to_string());
    match w.step(WorkerEvent::RecognizerLoaded(Err(err))) {
        WorkerAction::Exit(Err(e)) => assert_eq!(e.message(), "bad keys"),
        _ => panic!("expected an exit"),
    }
}

#[test]
fn request_outcomes() {
    assert_eq!(
        engine_msg(request_outcome::<u8>(false, None)),
        "OCR engine worker thread has terminated"
    );
    assert_eq!(
        engine_msg(request_outcome::<u8>(true, None)),
        "Failed to receive result from worker thread"
    );
    assert_eq!(request_outcome(true, Some(Ok(7u8))).ok(), Some(7));
    assert_eq!(engine_msg(request_outcome::<u8>(true, Some(Err(OcrError::EngineError("x".into()))))), "x");
}

#[test]
fn registry_refuses_before_initialization() {
    let m: OcrEngineManager<u32> = OcrEngineManager::new();
    assert_eq!(engine_msg(m.get_instance()), "OCR engine not initialized");
    assert_eq!(engine_msg(m.engine(true)), "OCR engine not initialized");
    assert_eq!(engine_msg(m.engine(false)), "OCR engine not initialized");
}

#[test]
fn registry_serves_the_last_installed_engine() {
    let mut m: OcrEngineManager<u32> = OcrEngineManager::new();
    assert!(m.initialize(Ok(1), true).is_ok());
    assert_eq!(m.engine(true).ok(), Some(&1));
    assert!(m.initialize_with_config(Ok(2), true).is_ok());
    assert_eq!(m.engine(true).ok(), Some(&2));
    assert!(m.initialize_with_config_and_bytes(Ok(3), true).is_ok());
    assert_eq!(m.engine(true).ok(), Some(&3));
    assert_eq!(m.get_instance().ok(), Some(&Some(3)));
}

#[test]
fn registry_lock_failures() {
    let mut m: OcrEngineManager<u32> = OcrEngineManager::new();
    assert_eq!(
        engine_msg(m.initialize(Ok(1), false)),
        "Failed to acquire lock on OCR engine manager"
    );
    // the registry now exists but holds no engine
    assert_eq!(m.get_instance().ok(), Some(&None));
    assert_eq!(engine_msg(m.engine(true)), "OCR engine not initialized");
    assert!(m.initialize(Ok(5), true).is_ok());
    assert_eq!(
        engine_msg(m.engine(false)),
        "Failed to acquire lock on OCR engine manager"
    );
    assert_eq!(
        engine_msg(m.initialize_with_config(Ok(6), false)),
        "Failed to acquire lock on OCR engine manager"
    );
    assert_eq!(m.engine(true).ok(), Some(&5));
}

#[test]
fn registry_failed_construction_changes_nothing() {
    let mut m: OcrEngineManager<u32> = OcrEngineManager::new();
    let r = m.initialize(Err(OcrError::ModelError("no model".into())), true);
    assert!(matches!(r, Err(OcrError::ModelError(_))));
    assert_eq!(engine_msg(m.get_instance()), "OCR engine not initialized");
}
