use vstd::prelude::*;

use crate::error::{OcrError, OcrResult};

verus! {

/// The requests that the engine's worker serves.
#[derive(Clone, Copy, Debug)]
pub enum RequestKind {
    DetectText,
    RecognizeText,
    ProcessOcr,
    GetTextRects,
    GetTextImages,
    GetTextImagesEfficient,
    ProcessOcrEfficient,
    Shutdown,
}

/// What the detector is asked to produce for a request image.
#[derive(Clone, Copy, Debug)]
pub enum DetectorOutput {
    /// Crops of the text regions.
    TextImages,
    /// Rectangles of the text regions.
    TextRects,
    /// Crops of the text regions, cut with the cheaper cropping.
    TextImagesEfficient,
}

/// What happened since the worker's last action.
#[derive(Debug)]
pub enum WorkerEvent {
    /// The detection model was loaded, or could not be.
    DetectorLoaded(OcrResult<()>),
    /// The recognition model was loaded, or could not be.
    RecognizerLoaded(OcrResult<()>),
    /// A request arrived.
    Request(RequestKind),
    /// Every request sender is gone.
    RequestsClosed,
    /// The detector found this many text regions, or failed.
    Detected(OcrResult<usize>),
    /// The recognizer read one region, or failed.
    Recognized(OcrResult<String>),
}

/// What the worker does next. After `AnswerWithDetector`,
/// `AnswerWithRecognizer` and the three replies, the worker waits for its
/// next request.
pub enum WorkerAction {
    LoadRecognizer,
    AwaitRequest,
    /// Run the detector on the request image and send back what it returns.
    AnswerWithDetector(DetectorOutput),
    /// Run the recognizer on the request image and send back what it returns.
    AnswerWithRecognizer,
    /// Detect the text regions of the request image, as crops of this kind,
    /// to recognize them one by one.
    DetectRegions(DetectorOutput),
    /// Recognize the region with this index.
    RecognizeRegion(usize),
    /// Send these texts.
    ReplyTexts(Vec<String>),
    /// Send this error.
    ReplyError(OcrError),
    /// Send this error, then the texts read before it.
    ReplyFailure(OcrError, Vec<String>),
    /// Stop, with this outcome.
    Exit(OcrResult<()>),
}

/// Where the worker stands.
pub enum WorkerPhase {
    LoadingDetector,
    LoadingRecognizer,
    Idle,
    Detecting,
    /// A full OCR request: `regions` regions were found and `texts` holds the
    /// readings of the first ones.
    Recognizing { regions: usize, texts: Vec<String> },
    Finished,
}

/// Mathematical view of a phase.
pub enum PhaseView {
    LoadingDetector,
    LoadingRecognizer,
    Idle,
    Detecting,
    Recognizing { regions: nat, texts: Seq<String> },
    Finished,
}

/// Mathematical view of an action.
pub enum ActionView {
    LoadRecognizer,
    AwaitRequest,
    AnswerWithDetector(DetectorOutput),
    AnswerWithRecognizer,
    DetectRegions(DetectorOutput),
    RecognizeRegion(nat),
    ReplyTexts(Seq<String>),
    ReplyError(OcrError),
    ReplyFailure(OcrError, Seq<String>),
    Exit(OcrResult<()>),
}

impl View for WorkerPhase {
    type V = PhaseView;

    open spec fn view(&self) -> PhaseView {
        match self {
            WorkerPhase::LoadingDetector => PhaseView::LoadingDetector,
            WorkerPhase::LoadingRecognizer => PhaseView::LoadingRecognizer,
            WorkerPhase::Idle => PhaseView::Idle,
            WorkerPhase::Detecting => PhaseView::Detecting,
            WorkerPhase::Recognizing { regions, texts } => PhaseView::Recognizing {
                regions: *regions as nat,
                texts: texts@,
            },
            WorkerPhase::Finished => PhaseView::Finished,
        }
    }
}

impl View for WorkerAction {
    type V = ActionView;

    open spec fn view(&self) -> ActionView {
        match self {
            WorkerAction::LoadRecognizer => ActionView::LoadRecognizer,
            WorkerAction::AwaitRequest => ActionView::AwaitRequest,
            WorkerAction::AnswerWithDetector(o) => ActionView::AnswerWithDetector(*o),
            WorkerAction::AnswerWithRecognizer => ActionView::AnswerWithRecognizer,
            WorkerAction::DetectRegions(o) => ActionView::DetectRegions(*o),
            WorkerAction::RecognizeRegion(i) => ActionView::RecognizeRegion(*i as nat),
            WorkerAction::ReplyTexts(t) => ActionView::ReplyTexts(t@),
            WorkerAction::ReplyError(e) => ActionView::ReplyError(*e),
            WorkerAction::ReplyFailure(e, t) => ActionView::ReplyFailure(*e, t@),
            WorkerAction::Exit(r) => ActionView::Exit(*r),
        }
    }
}

/// Whether `e` is an event that can happen in phase `p`: the models load in
/// turn, requests arrive while idle, detection ends a detecting phase, and a
/// recognition result comes for each region asked for.
pub open spec fn expects(p: PhaseView, e: WorkerEvent) -> bool {
    match p {
        PhaseView::LoadingDetector => e is DetectorLoaded,
        PhaseView::LoadingRecognizer => e is RecognizerLoaded,
        PhaseView::Idle => e is Request || e is RequestsClosed,
        PhaseView::Detecting => e is Detected,
        PhaseView::Recognizing { regions, texts } => e is Recognized && texts.len() < regions,
        PhaseView::Finished => false,
    }
}

/// The worker's decisions: for an expected event, the next phase and action.
/// (Unexpected events leave the phase as it is and wait.)
pub open spec fn transition(p: PhaseView, e: WorkerEvent) -> (PhaseView, ActionView) {
    match (p, e) {
        (PhaseView::LoadingDetector, WorkerEvent::DetectorLoaded(Ok(_))) => (
            PhaseView::LoadingRecognizer,
            ActionView::LoadRecognizer,
        ),
        (PhaseView::LoadingDetector, WorkerEvent::DetectorLoaded(Err(err))) => (
            PhaseView::Finished,
            ActionView::Exit(Err(err)),
        ),
        (PhaseView::LoadingRecognizer, WorkerEvent::RecognizerLoaded(Ok(_))) => (
            PhaseView::Idle,
            ActionView::AwaitRequest,
        ),
        (PhaseView::LoadingRecognizer, WorkerEvent::RecognizerLoaded(Err(err))) => (
            PhaseView::Finished,
            ActionView::Exit(Err(err)),
        ),
        (PhaseView::Idle, WorkerEvent::Request(kind)) => match kind {
            RequestKind::DetectText => (
                PhaseView::Idle,
                ActionView::AnswerWithDetector(DetectorOutput::TextImages),
            ),
            RequestKind::GetTextImages => (
                PhaseView::Idle,
                ActionView::AnswerWithDetector(DetectorOutput::TextImages),
            ),
            RequestKind::GetTextRects => (
                PhaseView::Idle,
                ActionView::AnswerWithDetector(DetectorOutput::TextRects),
            ),
            RequestKind::GetTextImagesEfficient => (
                PhaseView::Idle,
                ActionView::AnswerWithDetector(DetectorOutput::TextImagesEfficient),
            ),
            RequestKind::RecognizeText => (PhaseView::Idle, ActionView::AnswerWithRecognizer),
            RequestKind::ProcessOcr => (
                PhaseView::Detecting,
                ActionView::DetectRegions(DetectorOutput::TextImages),
            ),
            RequestKind::ProcessOcrEfficient => (
                PhaseView::Detecting,
                ActionView::DetectRegions(DetectorOutput::TextImagesEfficient),
            ),
            RequestKind::Shutdown => (PhaseView::Finished, ActionView::Exit(Ok(()))),
        },
        (PhaseView::Idle, WorkerEvent::RequestsClosed) => (
            PhaseView::Finished,
            ActionView::Exit(Ok(())),
        ),
        (PhaseView::Detecting, WorkerEvent::Detected(Ok(n))) => if n == 0 {
            (PhaseView::Idle, ActionView::ReplyTexts(Seq::empty()))
        } else {
            (
                PhaseView::Recognizing { regions: n as nat, texts: Seq::empty() },
                ActionView::RecognizeRegion(0),
            )
        },
        (PhaseView::Detecting, WorkerEvent::Detected(Err(err))) => (
            PhaseView::Idle,
            ActionView::ReplyError(err),
        ),
        (
            PhaseView::Recognizing { regions, texts },
            WorkerEvent::Recognized(Ok(t)),
        ) => if texts.len() + 1 >= regions {
            (PhaseView::Idle, ActionView::ReplyTexts(texts.push(t)))
        } else {
            (
                PhaseView::Recognizing { regions, texts: texts.push(t) },
                ActionView::RecognizeRegion(texts.len() + 1),
            )
        },
        (
            PhaseView::Recognizing { regions, texts },
            WorkerEvent::Recognized(Err(err)),
        ) => (PhaseView::Idle, ActionView::ReplyFailure(err, texts)),
        _ => (p, ActionView::AwaitRequest),
    }
}

/// The engine's worker thread, as a state machine: it loads the detection
/// model, then the recognition model, then serves requests until it is told
/// to shut down or its request channel closes.
pub struct OcrWorker {
    pub phase: WorkerPhase,
}

impl OcrWorker {
    /// A worker about to load its detection model.
    pub fn new() -> (w: OcrWorker)
        ensures
            w.phase@ == PhaseView::LoadingDetector,
    {
        OcrWorker { phase: WorkerPhase::LoadingDetector }
    }

    /// Whether the worker has stopped.
    pub fn is_finished(&self) -> (r: bool)
        ensures
            r == (self.phase@ is Finished),
    {
        match self.phase {
            WorkerPhase::Finished => true,
            _ => false,
        }
    }

    /// Whether `event` can happen now (see `expects`).
    pub fn expects(&self, event: &WorkerEvent) -> (r: bool)
        ensures
            r == expects(self.phase@, *event),
    {
        match &self.phase {
            WorkerPhase::LoadingDetector => matches!(event, WorkerEvent::DetectorLoaded(_)),
            WorkerPhase::LoadingRecognizer => matches!(event, WorkerEvent::RecognizerLoaded(_)),
            WorkerPhase::Idle => matches!(event, WorkerEvent::Request(_))
                || matches!(event, WorkerEvent::RequestsClosed),
            WorkerPhase::Detecting => matches!(event, WorkerEvent::Detected(_)),
            WorkerPhase::Recognizing { regions, texts } => matches!(
                event,
                WorkerEvent::Recognized(_)
            ) && texts.len() < *regions,
            WorkerPhase::Finished => false,
        }
    }

    /// Takes one decision: moves to the next phase and says what to do.
    pub fn step(&mut self, event: WorkerEvent) -> (action: WorkerAction)
        requires
            expects(old(self).phase@, event),
        ensures
            (final(self).phase@, action@) == transition(old(self).phase@, event),
    {
        let mut phase = WorkerPhase::Finished;
        core::mem::swap(&mut phase, &mut self.phase);
        let (next, action) = match (phase, event) {
            (WorkerPhase::LoadingDetector, WorkerEvent::DetectorLoaded(loaded)) => match loaded {
                Ok(_) => (WorkerPhase::LoadingRecognizer, WorkerAction::LoadRecognizer),
                Err(err) => (WorkerPhase::Finished, WorkerAction::Exit(Err(err))),
            },
            (WorkerPhase::LoadingRecognizer, WorkerEvent::RecognizerLoaded(loaded)) => match loaded {
                Ok(_) => (WorkerPhase::Idle, WorkerAction::AwaitRequest),
                Err(err) => (WorkerPhase::Finished, WorkerAction::Exit(Err(err))),
            },
            (WorkerPhase::Idle, WorkerEvent::Request(kind)) => match kind {
                RequestKind::DetectText => (
                    WorkerPhase::Idle,
                    WorkerAction::AnswerWithDetector(DetectorOutput::TextImages),
                ),
                RequestKind::GetTextImages => (
                    WorkerPhase::Idle,
                    WorkerAction::AnswerWithDetector(DetectorOutput::TextImages),
                ),
                RequestKind::GetTextRects => (
                    WorkerPhase::Idle,
                    WorkerAction::AnswerWithDetector(DetectorOutput::TextRects),
                ),
                RequestKind::GetTextImagesEfficient => (
                    WorkerPhase::Idle,
                    WorkerAction::AnswerWithDetector(DetectorOutput::TextImagesEfficient),
                ),
                RequestKind::RecognizeText => (WorkerPhase::Idle, WorkerAction::AnswerWithRecognizer),
                RequestKind::ProcessOcr => (
                    WorkerPhase::Detecting,
                    WorkerAction::DetectRegions(DetectorOutput::TextImages),
                ),
                RequestKind::ProcessOcrEfficient => (
                    WorkerPhase::Detecting,
                    WorkerAction::DetectRegions(DetectorOutput::TextImagesEfficient),
                ),
                RequestKind::Shutdown => (WorkerPhase::Finished, WorkerAction::Exit(Ok(()))),
            },
            (WorkerPhase::Idle, WorkerEvent::RequestsClosed) => (
                WorkerPhase::Finished,
                WorkerAction::Exit(Ok(())),
            ),
            (WorkerPhase::Detecting, WorkerEvent::Detected(found)) => match found {
                Ok(n) => if n == 0 {
                    (WorkerPhase::Idle, WorkerAction::ReplyTexts(Vec::new()))
                } else {
                    (
                        WorkerPhase::Recognizing { regions: n, texts: Vec::new() },
                        WorkerAction::RecognizeRegion(0),
                    )
                },
                Err(err) => (WorkerPhase::Idle, WorkerAction::ReplyError(err)),
            },
            (WorkerPhase::Recognizing { regions, texts }, WorkerEvent::Recognized(read)) => {
                let mut texts = texts;
                match read {
                    Ok(t) => {
                        let count: usize = texts.len();
                        texts.push(t);
                        if count + 1 >= regions {
                            (WorkerPhase::Idle, WorkerAction::ReplyTexts(texts))
                        } else {
                            (
                                WorkerPhase::Recognizing { regions, texts },
                                WorkerAction::RecognizeRegion(count + 1),
                            )
                        }
                    },
                    Err(err) => (WorkerPhase::Idle, WorkerAction::ReplyFailure(err, texts)),
                }
            },
            (p, _) => (p, WorkerAction::AwaitRequest),
        };
        self.phase = next;
        action
    }
}

/// The phase reached and the actions taken when the worker meets `events`
/// in turn, starting in phase `p`.
pub open spec fn run(p: PhaseView, events: Seq<WorkerEvent>) -> (PhaseView, Seq<ActionView>)
    decreases events.len(),
{
    if events.len() == 0 {
        (p, Seq::empty())
    } else {
        let first = transition(p, events[0]);
        let rest = run(first.0, events.drop_first());
        (rest.0, seq![first.1] + rest.1)
    }
}

/// Whether every event of `events` is expected when it comes, starting in
/// phase `p`.
pub open spec fn run_expected(p: PhaseView, events: Seq<WorkerEvent>) -> bool
    decreases events.len(),
{
    events.len() == 0 || (expects(p, events[0]) && run_expected(
        transition(p, events[0]).0,
        events.drop_first(),
    ))
}

/// The recognizer's answers, as events.
pub open spec fn recognitions(recs: Seq<OcrResult<String>>) -> Seq<WorkerEvent> {
    recs.map_values(|r: OcrResult<String>| WorkerEvent::Recognized(r))
}

/// The texts of successful readings.
pub open spec fn readings(recs: Seq<OcrResult<String>>) -> Seq<String> {
    recs.map_values(|r: OcrResult<String>| r->Ok_0)
}

/// Whether `recs` are the readings the worker asks for after detecting
/// `detected`: one per region, in order, up to and including the first
/// failure.
pub open spec fn asked_for(detected: OcrResult<usize>, recs: Seq<OcrResult<String>>) -> bool {
    match detected {
        Err(_) => recs.len() == 0,
        Ok(n) => {
            &&& recs.len() <= n
            &&& forall|i: int| 0 <= i < recs.len() - 1 ==> #[trigger] recs[i] is Ok
            &&& recs.len() == n || (recs.len() > 0 && recs.last() is Err)
        },
    }
}

/// The answer that a full OCR request deserves: the detection error if
/// detection failed; else the first reading error, if any; else the texts of
/// all regions in order.
pub open spec fn ocr_answer(detected: OcrResult<usize>, recs: Seq<OcrResult<String>>) -> OcrResult<
    Seq<String>,
> {
    match detected {
        Err(e) => Err(e),
        Ok(_) => if recs.len() > 0 && recs.last() is Err {
            Err(recs.last()->Err_0)
        } else {
            Ok(readings(recs))
        },
    }
}

/// The first message that an action sends back to the requester, if it sends one.
pub open spec fn first_reply(a: ActionView) -> Option<OcrResult<Seq<String>>> {
    match a {
        ActionView::ReplyTexts(t) => Some(Ok(t)),
        ActionView::ReplyError(e) => Some(Err(e)),
        ActionView::ReplyFailure(e, _) => Some(Err(e)),
        _ => None,
    }
}

/// The events of a full OCR request of the given kind.
pub open spec fn ocr_events(
    kind: RequestKind,
    detected: OcrResult<usize>,
    recs: Seq<OcrResult<String>>,
) -> Seq<WorkerEvent> {
    seq![WorkerEvent::Request(kind), WorkerEvent::Detected(detected)] + recognitions(recs)
}

proof fn lemma_recognizing_run(n: nat, texts: Seq<String>, recs: Seq<OcrResult<String>>)
    requires
        texts.len() < n,
        texts.len() + recs.len() <= n,
        recs.len() >= 1,
        forall|i: int| 0 <= i < recs.len() - 1 ==> #[trigger] recs[i] is Ok,
        recs.last() is Err || texts.len() + recs.len() == n,
    ensures
        run(PhaseView::Recognizing { regions: n, texts }, recognitions(recs)).0 == PhaseView::Idle,
        run_expected(PhaseView::Recognizing { regions: n, texts }, recognitions(recs)),
        run(PhaseView::Recognizing { regions: n, texts }, recognitions(recs)).1.len() == recs.len(),
        forall|j: int|
            0 <= j < recs.len() - 1 ==> #[trigger] run(
                PhaseView::Recognizing { regions: n, texts },
                recognitions(recs),
            ).1[j] == ActionView::RecognizeRegion((texts.len() + j + 1) as nat),
        run(PhaseView::Recognizing { regions: n, texts }, recognitions(recs)).1.last() == (
        match recs.last() {
            Err(e) => ActionView::ReplyFailure(e, texts + readings(recs.drop_last())),
            Ok(_) => ActionView::ReplyTexts(texts + readings(recs)),
        }),
    decreases recs.len(),
{
    let p = PhaseView::Recognizing { regions: n, texts };
    let evs = recognitions(recs);
    assert(evs[0] == WorkerEvent::Recognized(recs[0]));
    let rest = recs.drop_first();
    assert(evs.drop_first() =~= recognitions(rest));
    let first = transition(p, evs[0]);
    let r = run(first.0, evs.drop_first());
    assert(run(p, evs) == (r.0, seq![first.1] + r.1));
    assert(run_expected(p, evs) == (expects(p, evs[0]) && run_expected(first.0, evs.drop_first())));
    if recs.len() == 1 {
        assert(r == (first.0, Seq::<ActionView>::empty()));
        assert(recognitions(rest) =~= Seq::<WorkerEvent>::empty());
        assert(recs.drop_last() =~= Seq::<OcrResult<String>>::empty());
        assert(readings(Seq::<OcrResult<String>>::empty()) =~= Seq::<String>::empty());
        assert(texts + Seq::<String>::empty() =~= texts);
        if let Ok(t) = recs[0] {
            assert(readings(recs) =~= seq![t]);
            assert(texts.push(t) =~= texts + seq![t]);
        }
    } else {
        assert(recs[0] is Ok);
        let t = recs[0]->Ok_0;
        let q = PhaseView::Recognizing { regions: n, texts: texts.push(t) };
        assert(transition(p, evs[0]) == (q, ActionView::RecognizeRegion(texts.len() + 1)));
        assert forall|i: int| 0 <= i < rest.len() - 1 implies #[trigger] rest[i] is Ok by {
            assert(rest[i] == recs[i + 1]);
        }
        lemma_recognizing_run(n, texts.push(t), rest);
        let acts = run(p, evs).1;
        let rest_acts = run(q, recognitions(rest)).1;
        assert(acts == seq![ActionView::RecognizeRegion(texts.len() + 1)] + rest_acts);
        assert forall|j: int| 0 <= j < recs.len() - 1 implies #[trigger] acts[j]
            == ActionView::RecognizeRegion((texts.len() + j + 1) as nat) by {
            if j > 0 {
                assert(acts[j] == rest_acts[j - 1]);
            }
        }
        assert(rest.last() == recs.last());
        assert(texts.push(t) + readings(rest.drop_last()) =~= texts + readings(recs.drop_last()));
        assert(texts.push(t) + readings(rest) =~= texts + readings(recs));
    }
}

/// A full OCR request (plain or with the cheaper cropping) is served by one
/// detection, with the same detector output as the matching crop request, and
/// by one recognition per region asked for in order; the worker is then ready
/// for the next request, and the first message it sends back is the
/// request's answer: the texts of all regions in order when detection and
/// every reading succeed, else the first error met.
pub proof fn lemma_full_ocr_answer(
    efficient: bool,
    detected: OcrResult<usize>,
    recs: Seq<OcrResult<String>>,
)
    requires
        asked_for(detected, recs),
    ensures
        ({
            let kind = if efficient {
                RequestKind::ProcessOcrEfficient
            } else {
                RequestKind::ProcessOcr
            };
            let crops = if efficient {
                RequestKind::GetTextImagesEfficient
            } else {
                RequestKind::GetTextImages
            };
            let out = run(PhaseView::Idle, ocr_events(kind, detected, recs));
            &&& run_expected(PhaseView::Idle, ocr_events(kind, detected, recs))
            &&& out.0 == PhaseView::Idle
            &&& out.1[0] == ActionView::DetectRegions(
                transition(PhaseView::Idle, WorkerEvent::Request(crops)).1->AnswerWithDetector_0,
            )
            &&& forall|j: int|
                1 <= j < out.1.len() - 1 ==> #[trigger] out.1[j] == ActionView::RecognizeRegion(
                    (j - 1) as nat,
                )
            &&& first_reply(out.1.last()) == Some(ocr_answer(detected, recs))
        }),
{
    let kind = if efficient {
        RequestKind::ProcessOcrEfficient
    } else {
        RequestKind::ProcessOcr
    };
    let evs = ocr_events(kind, detected, recs);
    let out1 = transition(PhaseView::Idle, evs[0]);
    assert(out1.0 == PhaseView::Detecting);
    let evs1 = evs.drop_first();
    assert(evs1[0] == WorkerEvent::Detected(detected));
    let evs2 = evs1.drop_first();
    assert(evs2 =~= recognitions(recs));
    let out2 = transition(PhaseView::Detecting, evs1[0]);
    let r2 = run(out2.0, evs2);
    assert(run(out1.0, evs1) == (r2.0, seq![out2.1] + r2.1));
    assert(run(PhaseView::Idle, evs) == (r2.0, seq![out1.1] + (seq![out2.1] + r2.1)));
    assert(run_expected(out1.0, evs1) == (expects(out1.0, evs1[0]) && run_expected(out2.0, evs2)));
    match detected {
        Err(e) => {
            assert(evs2 =~= Seq::<WorkerEvent>::empty());
        },
        Ok(n) => {
            if n == 0 {
                assert(recs =~= Seq::<OcrResult<String>>::empty());
                assert(evs2 =~= Seq::<WorkerEvent>::empty());
                assert(readings(recs) =~= Seq::<String>::empty());
            } else {
                lemma_recognizing_run(n as nat, Seq::empty(), recs);
                let tail = run(out2.0, evs2).1;
                let all = run(PhaseView::Idle, evs).1;
                assert(all == seq![out1.1] + (seq![out2.1] + tail));
                assert forall|j: int| 1 <= j < all.len() - 1 implies #[trigger] all[j]
                    == ActionView::RecognizeRegion((j - 1) as nat) by {
                    if j == 1 {
                    } else {
                        assert(all[j] == tail[j - 2]);
                    }
                }
                assert(Seq::<String>::empty() + readings(recs.drop_last()) =~= readings(
                    recs.drop_last(),
                ));
                assert(Seq::<String>::empty() + readings(recs) =~= readings(recs));
            }
        },
    }
}

/// Shutting down: a shutdown request stops the worker with success, and a
/// stopped worker expects nothing more. A worker whose detection or
/// recognition model fails to load stops with that error before serving any
/// request.
pub proof fn lemma_worker_stops(e: WorkerEvent, err: OcrError)
    ensures
        transition(PhaseView::Idle, WorkerEvent::Request(RequestKind::Shutdown)) == (
            PhaseView::Finished,
            ActionView::Exit(Ok(())),
        ),
        transition(PhaseView::Idle, WorkerEvent::RequestsClosed) == (
            PhaseView::Finished,
            ActionView::Exit(Ok(())),
        ),
        !expects(PhaseView::Finished, e),
        transition(PhaseView::LoadingDetector, WorkerEvent::DetectorLoaded(Err(err))) == (
            PhaseView::Finished,
            ActionView::Exit(Err(err)),
        ),
        transition(PhaseView::LoadingRecognizer, WorkerEvent::RecognizerLoaded(Err(err))) == (
            PhaseView::Finished,
            ActionView::Exit(Err(err)),
        ),
{
}

/// Requests other than a full OCR request and a shutdown are answered at once
/// and leave the worker ready for the next request.
pub proof fn lemma_simple_requests_keep_serving(kind: RequestKind)
    requires
        !(kind is ProcessOcr || kind is ProcessOcrEfficient || kind is Shutdown),
    ensures
        transition(PhaseView::Idle, WorkerEvent::Request(kind)).0 == PhaseView::Idle,
        transition(PhaseView::Idle, WorkerEvent::Request(kind)).1 is AnswerWithDetector
            || transition(PhaseView::Idle, WorkerEvent::Request(kind)).1 is AnswerWithRecognizer,
{
}

} // verus!
