//! The decisions of one face-swap run, as a state machine.
//!
//! Detection, recognition, the swap itself and the singular value
//! decomposition are performed by the driver of the machine. Each call of
//! [`SwapRun::step`] takes the outcome of the work last asked for and answers
//! with the next piece of work, or with the end of the run.

use crate::crop::{
    ratio_view, result_view, spec_alignment, spec_alignment_target, spec_crop_aligned,
};
use crate::error::Error;
use crate::face::{box_view, Face};
use crate::keypoints::{covariance, Mat2};
use crate::tensor::{Normal, Tensor, TensorView};
use crate::umeyama::{SimilarityTransform, Svd2};
use vstd::prelude::*;

verus! {

/// What a model expects of its image input.
#[derive(Debug, Clone, Copy)]
pub struct ModelInput {
    /// The two spatial axis lengths.
    pub size: (usize, usize),
    /// The encoding the samples are brought to, or `None` to leave them.
    pub normal: Option<Normal>,
    /// The aspect ratio, width to height, to which a face's box is grown
    /// before it is cropped, or `None` to crop the box as it is.
    pub ratio: Option<(u16, u16)>,
}

/// Where a run stands: the work that its driver is performing.
#[derive(Debug, Clone, Copy, PartialEq, Eq, Structural)]
pub enum Stage {
    /// Nothing has been asked for yet.
    Start,
    /// Faces are being detected in the target and in the source image.
    DetectBoth,
    /// The covariance of the source face is being decomposed.
    AlignSource,
    /// The source face's crop is being recognised.
    RecognizeSource,
    /// The covariance of the target face is being decomposed.
    AlignAndCropTarget,
    /// The target face's crop is being swapped.
    Swap,
}

/// A run in progress.
pub struct SwapRun {
    pub stage: Stage,
    pub target: Tensor,
    pub source: Tensor,
    pub recognition: ModelInput,
    pub swap: ModelInput,
    pub target_face: Option<Face>,
    pub source_face: Option<Face>,
    pub embedding: Vec<i32>,
    /// Size of the target face's crop and the transform it was cut through.
    pub placement: Option<((usize, usize), SimilarityTransform)>,
}

/// The outcome of the work last asked for.
pub enum Event {
    /// The run is to begin.
    Begin,
    /// Detection found these faces in the target and in the source image.
    Detected(Vec<Face>, Vec<Face>),
    /// The decomposition asked for.
    Decomposed(Svd2),
    /// The embedding of the crop handed to recognition.
    Recognized(Vec<i32>),
    /// The swapped crop.
    Swapped(Tensor),
    /// The work failed.
    Failed(Error),
}

/// What the driver is to do next.
pub enum Action {
    /// Detect the faces of the target and of the source image. The two
    /// detections are independent of each other.
    Detect,
    /// Decompose this matrix divided by 125 into its singular values.
    Decompose(Mat2),
    /// Run recognition on this input.
    Recognize(Tensor),
    /// Run the swap on this input with this embedding.
    Swap(Tensor, Vec<i32>),
    /// The run is over; this is its result.
    Finish(Tensor),
    /// The run is over; it failed.
    Fail(Error),
}

/// The answer to an event: the run as it goes on, or `None` at its end, and
/// what to do next.
pub struct Step {
    pub next: Option<SwapRun>,
    pub action: Action,
}

/// A run, with its tensors and lists taken by their views.
pub struct RunView {
    pub stage: Stage,
    pub target: TensorView,
    pub source: TensorView,
    pub recognition: ModelInput,
    pub swap: ModelInput,
    pub target_face: Option<Face>,
    pub source_face: Option<Face>,
    pub embedding: Seq<i32>,
    pub placement: Option<((usize, usize), SimilarityTransform)>,
}

/// An event, with its tensors and lists taken by their views.
pub enum EventView {
    Begin,
    Detected(Seq<Face>, Seq<Face>),
    Decomposed(Svd2),
    Recognized(Seq<i32>),
    Swapped(TensorView),
    Failed(Error),
}

/// An action, with its tensors and lists taken by their views.
pub enum ActionView {
    Detect,
    Decompose((int, int, int, int)),
    Recognize(TensorView),
    Swap(TensorView, Seq<i32>),
    Finish(TensorView),
    Fail(Error),
}

impl View for SwapRun {
    type V = RunView;

    open spec fn view(&self) -> RunView {
        RunView {
            stage: self.stage,
            target: self.target@,
            source: self.source@,
            recognition: self.recognition,
            swap: self.swap,
            target_face: self.target_face,
            source_face: self.source_face,
            embedding: self.embedding@,
            placement: self.placement,
        }
    }
}

impl View for Event {
    type V = EventView;

    open spec fn view(&self) -> EventView {
        match self {
            Event::Begin => EventView::Begin,
            Event::Detected(t, s) => EventView::Detected(t@, s@),
            Event::Decomposed(d) => EventView::Decomposed(*d),
            Event::Recognized(e) => EventView::Recognized(e@),
            Event::Swapped(t) => EventView::Swapped(t@),
            Event::Failed(e) => EventView::Failed(*e),
        }
    }
}

impl View for Action {
    type V = ActionView;

    open spec fn view(&self) -> ActionView {
        match self {
            Action::Detect => ActionView::Detect,
            Action::Decompose(m) => ActionView::Decompose(
                (m.m11 as int, m.m12 as int, m.m21 as int, m.m22 as int),
            ),
            Action::Recognize(t) => ActionView::Recognize(t@),
            Action::Swap(t, e) => ActionView::Swap(t@, e@),
            Action::Finish(t) => ActionView::Finish(t@),
            Action::Fail(e) => ActionView::Fail(*e),
        }
    }
}

impl View for Step {
    type V = (Option<RunView>, ActionView);

    open spec fn view(&self) -> (Option<RunView>, ActionView) {
        (
            match self.next {
                Some(r) => Some(r@),
                None => None,
            },
            self.action@,
        )
    }
}

impl TensorView {
    /// Whether the tensor can be made into the input of a model.
    pub open spec fn preparable(self, input: ModelInput) -> bool {
        let size = (input.size.0 as int, input.size.1 as int);
        self.sized(size) || self.resizable(size)
    }

    /// The tensor as the input of a model: resized to the model's size and
    /// then brought to the model's encoding.
    pub open spec fn prepared(self, input: ModelInput) -> TensorView {
        let r = self.resized((input.size.0 as int, input.size.1 as int));
        match input.normal {
            Some(to) => r.normalized(to),
            None => r,
        }
    }
}

/// What [`Tensor::prepare`] returns.
pub open spec fn spec_prepare(t: TensorView, input: ModelInput) -> Result<TensorView, Error> {
    if t.preparable(input) {
        Ok(t.prepared(input))
    } else {
        Err(Error::ShapeMismatch)
    }
}

impl Tensor {
    /// Makes the tensor into the input of a model: it is resized to the
    /// model's size and then brought to the model's encoding. Fails with
    /// [`Error::ShapeMismatch`] exactly when it cannot be resized.
    pub fn prepare(&self, input: &ModelInput) -> (r: Result<Tensor, Error>)
        ensures
            result_view(r) == spec_prepare(self@, *input),
    {
        let mut t = match self.resize(input.size) {
            Ok(t) => t,
            Err(e) => { return Err(e); },
        };
        match input.normal {
            Some(to) => { t.to_normalization(to); },
            None => {},
        }
        Ok(t)
    }
}

/// The face that the stages after detection work on: the first of those
/// found, or [`Error::NoFaceDetected`] where none was.
pub fn first_face(faces: &Vec<Face>) -> (r: Result<Face, Error>)
    ensures
        r == if faces@.len() == 0 {
            Err::<Face, Error>(Error::NoFaceDetected)
        } else {
            Ok::<Face, Error>(faces@[0])
        },
{
    if faces.len() == 0 {
        Err(Error::NoFaceDetected)
    } else {
        Ok(faces[0])
    }
}

/// The end of a run in failure.
pub open spec fn failed(e: Error) -> (Option<RunView>, ActionView) {
    (None, ActionView::Fail(e))
}

/// The run asks for the decomposition that aligns `face` within `image` for
/// the model `input`, and goes on as `next`; or it fails where the face
/// cannot be aligned.
pub open spec fn ask_alignment(face: Face, image: TensorView, input: ModelInput, next: RunView) -> (
    Option<RunView>,
    ActionView,
) {
    if !face.wf() {
        failed(Error::InvalidAlignment)
    } else {
        match spec_alignment_target(box_view(face.bbox), image.dim, ratio_view(input.ratio)) {
            Ok(layout) => (Some(next), ActionView::Decompose(covariance(face.keypoints@, layout))),
            Err(e) => failed(e),
        }
    }
}

/// The aligned crop of `face` from `image` as the input of the model `input`.
pub open spec fn aligned_input(face: Face, image: TensorView, input: ModelInput, svd: Svd2)
    -> Result<TensorView, Error> {
    if !face.wf() {
        Err(Error::InvalidAlignment)
    } else {
        match spec_crop_aligned(
            box_view(face.bbox),
            face.keypoints@,
            image,
            ratio_view(input.ratio),
            svd,
        ) {
            Ok(crop) => spec_prepare(crop, input),
            Err(e) => Err(e),
        }
    }
}

/// The swapped crop `out` brought back to the crop's size and the frame's
/// encoding and put into the frame through `warp`.
pub open spec fn restored(
    frame: TensorView,
    out: TensorView,
    size: (usize, usize),
    warp: SimilarityTransform,
) -> Result<TensorView, Error> {
    let back = ModelInput { size: (size.1, size.0), normal: Some(frame.normal), ratio: None };
    if !warp.wf() {
        Err(Error::InvalidAlignment)
    } else if !out.preparable(back) {
        Err(Error::ShapeMismatch)
    } else {
        Ok(frame.composited(out.prepared(back), warp))
    }
}

/// The answer to detection: with no face in either image the run ends with
/// the target image unchanged; otherwise the first face of each image is kept
/// and the alignment of the source face is asked for.
pub open spec fn after_detection(s: RunView, tf: Seq<Face>, sf: Seq<Face>) -> (
    Option<RunView>,
    ActionView,
) {
    if tf.len() == 0 || sf.len() == 0 {
        (None, ActionView::Finish(s.target))
    } else {
        ask_alignment(
            sf[0],
            s.source,
            s.recognition,
            RunView {
                stage: Stage::AlignSource,
                target_face: Some(tf[0]),
                source_face: Some(sf[0]),
                ..s
            },
        )
    }
}

/// The answer to the source face's decomposition: its aligned crop is handed
/// to recognition.
pub open spec fn after_source_alignment(s: RunView, svd: Svd2) -> (Option<RunView>, ActionView) {
    match s.source_face {
        Some(face) => match aligned_input(face, s.source, s.recognition, svd) {
            Ok(input) => (
                Some(RunView { stage: Stage::RecognizeSource, ..s }),
                ActionView::Recognize(input),
            ),
            Err(err) => failed(err),
        },
        None => failed(Error::NoFaceDetected),
    }
}

/// The answer to recognition: the embedding is kept and the alignment of the
/// target face is asked for.
pub open spec fn after_recognition(s: RunView, embedding: Seq<i32>) -> (
    Option<RunView>,
    ActionView,
) {
    match s.target_face {
        Some(face) => ask_alignment(
            face,
            s.target,
            s.swap,
            RunView { stage: Stage::AlignAndCropTarget, embedding, ..s },
        ),
        None => failed(Error::NoFaceDetected),
    }
}

/// The answer to the target face's decomposition: its aligned crop is handed
/// to the swap with the embedding, and its size and transform are kept for
/// putting the result back.
pub open spec fn after_target_alignment(s: RunView, svd: Svd2) -> (Option<RunView>, ActionView) {
    match s.target_face {
        Some(face) => if !face.wf() {
            failed(Error::InvalidAlignment)
        } else {
            match spec_alignment(
                box_view(face.bbox),
                face.keypoints@,
                s.target.dim,
                ratio_view(s.swap.ratio),
                svd,
            ) {
                Ok(a) => match spec_prepare(s.target.aligned(a.0, a.1), s.swap) {
                    Ok(input) => (
                        Some(
                            RunView {
                                stage: Stage::Swap,
                                placement: Some(((a.0.0 as usize, a.0.1 as usize), a.1)),
                                ..s
                            },
                        ),
                        ActionView::Swap(input, s.embedding),
                    ),
                    Err(err) => failed(err),
                },
                Err(err) => failed(err),
            }
        },
        None => failed(Error::NoFaceDetected),
    }
}

/// The answer to the swap: the swapped crop is put back into the target
/// image, which ends the run.
pub open spec fn after_swap(s: RunView, out: TensorView) -> (Option<RunView>, ActionView) {
    match s.placement {
        Some(p) => match restored(s.target, out, p.0, p.1) {
            Ok(t) => (None, ActionView::Finish(t)),
            Err(err) => failed(err),
        },
        None => failed(Error::InvalidAlignment),
    }
}

/// The answer of a run `s` to the event `e`.
///
/// A failure ends the run with that failure, whatever the stage. Detection
/// that finds no face in either image ends the run with the target image
/// unchanged. Otherwise the first face of each image is used: the source
/// face is aligned and recognised, then the target face is aligned and
/// swapped, and the swapped crop is put back into the target image. An event
/// that the stage did not ask for ends the run with [`Error::EngineFailure`].
pub open spec fn spec_step(s: RunView, e: EventView) -> (Option<RunView>, ActionView) {
    match (s.stage, e) {
        (_, EventView::Failed(err)) => failed(err),
        (Stage::Start, EventView::Begin) => (
            Some(RunView { stage: Stage::DetectBoth, ..s }),
            ActionView::Detect,
        ),
        (Stage::DetectBoth, EventView::Detected(tf, sf)) => after_detection(s, tf, sf),
        (Stage::AlignSource, EventView::Decomposed(svd)) => after_source_alignment(s, svd),
        (Stage::RecognizeSource, EventView::Recognized(embedding)) => after_recognition(
            s,
            embedding,
        ),
        (Stage::AlignAndCropTarget, EventView::Decomposed(svd)) => after_target_alignment(s, svd),
        (Stage::Swap, EventView::Swapped(out)) => after_swap(s, out),
        _ => failed(Error::EngineFailure),
    }
}

/// When detection finds no face in the target image, or none in the source
/// image, the run ends at once and its result is the target image, sample for
/// sample.
pub proof fn lemma_no_face_returns_target(s: RunView, target: Seq<Face>, source: Seq<Face>)
    requires
        s.stage == Stage::DetectBoth,
        target.len() == 0 || source.len() == 0,
    ensures
        spec_step(s, EventView::Detected(target, source)) == (
            None::<RunView>,
            ActionView::Finish(s.target),
        ),
{
}

/// No step changes the target or the source image of a run, nor the inputs
/// that its models expect.
pub proof fn lemma_step_keeps_images(s: RunView, e: EventView)
    ensures
        spec_step(s, e).0 matches Some(n) ==> n.target == s.target && n.source == s.source
            && n.recognition == s.recognition && n.swap == s.swap,
{
}

/// Whenever a run finishes with a result, the result has the shape and the
/// encoding of the target image.
pub proof fn lemma_result_has_target_shape(s: RunView, e: EventView)
    ensures
        spec_step(s, e).1 matches ActionView::Finish(t) ==> t.dim == s.target.dim && t.normal
            == s.target.normal,
{
}

/// How a run that stands at `s` ends when it is given the events `events` one
/// after the other: the answer that ends it, or `None` when the events run out
/// first. Events after the end are not looked at.
pub open spec fn spec_run(s: RunView, events: Seq<EventView>) -> Option<ActionView>
    decreases events.len(),
{
    if events.len() == 0 {
        None
    } else {
        let step = spec_step(s, events[0]);
        match step.0 {
            Some(next) => spec_run(next, events.drop_first()),
            None => Some(step.1),
        }
    }
}

/// Whatever events a run is given, if it ends with a result, the result has
/// the shape and the encoding of the target image that the run began with.
pub proof fn lemma_run_result_has_target_shape(s: RunView, events: Seq<EventView>)
    ensures
        spec_run(s, events) matches Some(ActionView::Finish(t)) ==> t.dim == s.target.dim
            && t.normal == s.target.normal,
    decreases events.len(),
{
    if events.len() > 0 {
        lemma_step_keeps_images(s, events[0]);
        lemma_result_has_target_shape(s, events[0]);
        match spec_step(s, events[0]).0 {
            Some(next) => {
                lemma_run_result_has_target_shape(next, events.drop_first());
            },
            None => {},
        }
    }
}

/// A run that begins, and whose detection finds no face in the target image
/// or none in the source image, ends with the target image, sample for
/// sample, whatever the images are.
pub proof fn lemma_run_without_a_face(
    s: RunView,
    target: Seq<Face>,
    source: Seq<Face>,
    rest: Seq<EventView>,
)
    requires
        s.stage == Stage::Start,
        target.len() == 0 || source.len() == 0,
    ensures
        spec_run(s, seq![EventView::Begin, EventView::Detected(target, source)] + rest) == Some(
            ActionView::Finish(s.target),
        ),
{
    let events = seq![EventView::Begin, EventView::Detected(target, source)] + rest;
    let detecting = RunView { stage: Stage::DetectBoth, ..s };
    assert(events[0] == EventView::Begin);
    assert(events.drop_first()[0] == EventView::Detected(target, source));
    assert(spec_step(s, events[0]).0 == Some(detecting));
    lemma_no_face_returns_target(detecting, target, source);
    assert(spec_run(detecting, events.drop_first()) == Some(ActionView::Finish(s.target)));
}

/// Whether a swap of the face `sf` of the source image onto the face `tf` of
/// the target image goes through, given what the driver's work returns: both
/// faces can be aligned by the decompositions `svd_s` and `svd_t`, their crops
/// can be made the inputs of the models, and the swapped crop `out` can be put
/// back.
pub open spec fn swappable(
    s: RunView,
    tf: Face,
    sf: Face,
    svd_s: Svd2,
    svd_t: Svd2,
    out: TensorView,
) -> bool {
    &&& sf.wf()
    &&& tf.wf()
    &&& spec_alignment_target(box_view(sf.bbox), s.source.dim, ratio_view(s.recognition.ratio))
        is Ok
    &&& aligned_input(sf, s.source, s.recognition, svd_s) is Ok
    &&& spec_alignment_target(box_view(tf.bbox), s.target.dim, ratio_view(s.swap.ratio)) is Ok
    &&& aligned_input(tf, s.target, s.swap, svd_t) is Ok
    &&& (spec_alignment(
        box_view(tf.bbox),
        tf.keypoints@,
        s.target.dim,
        ratio_view(s.swap.ratio),
        svd_t,
    ) matches Ok(a) ==> restored(s.target, out, (a.0.0 as usize, a.0.1 as usize), a.1) is Ok)
}

/// A run on two images with a face each, whose every piece of work succeeds,
/// ends without a failure after six events, and its result has the shape of
/// the target image. Only the first face of each image counts.
pub proof fn lemma_run_with_faces_completes(
    s: RunView,
    target: Seq<Face>,
    source: Seq<Face>,
    svd_s: Svd2,
    embedding: Seq<i32>,
    svd_t: Svd2,
    out: TensorView,
)
    requires
        s.stage == Stage::Start,
        target.len() > 0,
        source.len() > 0,
        swappable(s, target[0], source[0], svd_s, svd_t, out),
    ensures
        spec_run(
            s,
            seq![
                EventView::Begin,
                EventView::Detected(target, source),
                EventView::Decomposed(svd_s),
                EventView::Recognized(embedding),
                EventView::Decomposed(svd_t),
                EventView::Swapped(out),
            ],
        ) matches Some(ActionView::Finish(t)) && t.dim == s.target.dim,
{
    let e0 = EventView::Begin;
    let e1 = EventView::Detected(target, source);
    let e2 = EventView::Decomposed(svd_s);
    let e3 = EventView::Recognized(embedding);
    let e4 = EventView::Decomposed(svd_t);
    let e5 = EventView::Swapped(out);
    let events = seq![e0, e1, e2, e3, e4, e5];
    let s1 = spec_step(s, e0).0->Some_0;
    let s2 = spec_step(s1, e1).0->Some_0;
    let s3 = spec_step(s2, e2).0->Some_0;
    let s4 = spec_step(s3, e3).0->Some_0;
    let s5 = spec_step(s4, e4).0->Some_0;
    assert(spec_step(s, e0).0 is Some && s1.stage == Stage::DetectBoth);
    assert(spec_step(s1, e1).0 is Some && s2.stage == Stage::AlignSource);
    assert(spec_step(s2, e2).0 is Some && s3.stage == Stage::RecognizeSource);
    assert(spec_step(s3, e3).0 is Some && s4.stage == Stage::AlignAndCropTarget);
    assert(spec_step(s4, e4).0 is Some && s5.stage == Stage::Swap);
    assert(spec_step(s5, e5).0 is None && spec_step(s5, e5).1 is Finish);
    let r1 = events.drop_first();
    let r2 = r1.drop_first();
    let r3 = r2.drop_first();
    let r4 = r3.drop_first();
    let r5 = r4.drop_first();
    assert(events[0] == e0 && r1[0] == e1 && r2[0] == e2 && r3[0] == e3 && r4[0] == e4 && r5[0]
        == e5);
    assert(spec_run(s5, r5) == Some(spec_step(s5, e5).1));
    assert(spec_run(s4, r4) == spec_run(s5, r5));
    assert(spec_run(s3, r3) == spec_run(s4, r4));
    assert(spec_run(s2, r2) == spec_run(s3, r3));
    assert(spec_run(s1, r1) == spec_run(s2, r2));
    assert(spec_run(s, events) == spec_run(s1, r1));
    lemma_run_result_has_target_shape(s, events);
}

/// A run ends exactly when it answers with a result or with a failure.
pub proof fn lemma_step_ends_with_result_or_failure(s: RunView, e: EventView)
    ensures
        spec_step(s, e).0 is None <==> spec_step(s, e).1 is Finish || spec_step(s, e).1 is Fail,
{
}

/// The end of a run in failure.
fn fail(e: Error) -> (r: Step)
    ensures
        r@ == failed(e),
{
    Step { next: None, action: Action::Fail(e) }
}

impl SwapRun {
    /// A run that swaps the face of `source` onto the face of `target`, for
    /// models that expect the given inputs. It has asked for nothing yet.
    pub fn new(target: Tensor, source: Tensor, recognition: ModelInput, swap: ModelInput) -> (r:
        SwapRun)
        ensures
            r@ == (RunView {
                stage: Stage::Start,
                target: target@,
                source: source@,
                recognition,
                swap,
                target_face: None,
                source_face: None,
                embedding: Seq::<i32>::empty(),
                placement: None,
            }),
    {
        SwapRun {
            stage: Stage::Start,
            target,
            source,
            recognition,
            swap,
            target_face: None,
            source_face: None,
            embedding: Vec::new(),
            placement: None,
        }
    }

    /// Asks for the decomposition that aligns `face` within the source image
    /// (`of_source`) or the target image.
    fn ask(self, face: Face, of_source: bool, embedding: Vec<i32>, target_face: Option<Face>) -> (r:
        Step)
        ensures
            r@ == ask_alignment(
                face,
                if of_source {
                    self@.source
                } else {
                    self@.target
                },
                if of_source {
                    self.recognition
                } else {
                    self.swap
                },
                if of_source {
                    RunView {
                        stage: Stage::AlignSource,
                        target_face,
                        source_face: Some(face),
                        ..self@
                    }
                } else {
                    RunView { stage: Stage::AlignAndCropTarget, embedding: embedding@, ..self@ }
                },
            ),
    {
        if !face.is_valid() {
            return fail(Error::InvalidAlignment);
        }
        let layout = if of_source {
            face.alignment_target(&self.source, self.recognition.ratio)
        } else {
            face.alignment_target(&self.target, self.swap.ratio)
        };
        match layout {
            Ok(k) => {
                let m = face.keypoints.covariance_matrix(&k);
                let next = if of_source {
                    SwapRun {
                        stage: Stage::AlignSource,
                        target: self.target,
                        source: self.source,
                        recognition: self.recognition,
                        swap: self.swap,
                        target_face,
                        source_face: Some(face),
                        embedding: self.embedding,
                        placement: self.placement,
                    }
                } else {
                    SwapRun {
                        stage: Stage::AlignAndCropTarget,
                        target: self.target,
                        source: self.source,
                        recognition: self.recognition,
                        swap: self.swap,
                        target_face: self.target_face,
                        source_face: self.source_face,
                        embedding,
                        placement: self.placement,
                    }
                };
                Step { next: Some(next), action: Action::Decompose(m) }
            },
            Err(e) => fail(e),
        }
    }

    /// The answer to detection.
    fn on_detected(self, tf: Vec<Face>, sf: Vec<Face>) -> (r: Step)
        ensures
            r@ == after_detection(self@, tf@, sf@),
    {
        if tf.len() == 0 || sf.len() == 0 {
            Step { next: None, action: Action::Finish(self.target) }
        } else {
            let kept = self.embedding.clone();
            let target_face = Some(tf[0]);
            let face = sf[0];
            self.ask(face, true, kept, target_face)
        }
    }

    /// The answer to the source face's decomposition.
    fn on_source_aligned(self, svd: Svd2) -> (r: Step)
        ensures
            r@ == after_source_alignment(self@, svd),
    {
        match self.source_face {
            Some(face) => {
                if !face.is_valid() {
                    return fail(Error::InvalidAlignment);
                }
                let crop = match face.crop_aligned(&self.source, self.recognition.ratio, &svd) {
                    Ok(c) => c,
                    Err(e) => { return fail(e); },
                };
                match crop.prepare(&self.recognition) {
                    Ok(input) => Step {
                        next: Some(
                            SwapRun {
                                stage: Stage::RecognizeSource,
                                target: self.target,
                                source: self.source,
                                recognition: self.recognition,
                                swap: self.swap,
                                target_face: self.target_face,
                                source_face: self.source_face,
                                embedding: self.embedding,
                                placement: self.placement,
                            },
                        ),
                        action: Action::Recognize(input),
                    },
                    Err(e) => fail(e),
                }
            },
            None => fail(Error::NoFaceDetected),
        }
    }

    /// The answer to the target face's decomposition.
    fn on_target_aligned(self, svd: Svd2) -> (r: Step)
        ensures
            r@ == after_target_alignment(self@, svd),
    {
        match self.target_face {
            Some(face) => {
                if !face.is_valid() {
                    return fail(Error::InvalidAlignment);
                }
                let a = match face.alignment(&self.target, self.swap.ratio, &svd) {
                    Ok(a) => a,
                    Err(e) => { return fail(e); },
                };
                let crop = match face.crop_aligned(&self.target, self.swap.ratio, &svd) {
                    Ok(c) => c,
                    Err(e) => { return fail(e); },
                };
                match crop.prepare(&self.swap) {
                    Ok(input) => {
                        let embedding = self.embedding.clone();
                        Step {
                            next: Some(
                                SwapRun {
                                    stage: Stage::Swap,
                                    target: self.target,
                                    source: self.source,
                                    recognition: self.recognition,
                                    swap: self.swap,
                                    target_face: self.target_face,
                                    source_face: self.source_face,
                                    embedding: self.embedding,
                                    placement: Some(a),
                                },
                            ),
                            action: Action::Swap(input, embedding),
                        }
                    },
                    Err(e) => fail(e),
                }
            },
            None => fail(Error::NoFaceDetected),
        }
    }

    /// The answer to the swap.
    fn on_swapped(self, out: Tensor) -> (r: Step)
        ensures
            r@ == after_swap(self@, out@),
    {
        match self.placement {
            Some(p) => match self.target.restore(&out, p.0, &p.1) {
                Ok(t) => Step { next: None, action: Action::Finish(t) },
                Err(e) => fail(e),
            },
            None => fail(Error::InvalidAlignment),
        }
    }

    /// Answers the outcome of the work last asked for with the next piece of
    /// work, or with the end of the run: see [`spec_step`].
    pub fn step(self, event: Event) -> (r: Step)
        ensures
            r@ == spec_step(self@, event@),
    {
        match event {
            Event::Failed(e) => fail(e),
            Event::Begin => match self.stage {
                Stage::Start => Step {
                    next: Some(
                        SwapRun {
                            stage: Stage::DetectBoth,
                            target: self.target,
                            source: self.source,
                            recognition: self.recognition,
                            swap: self.swap,
                            target_face: self.target_face,
                            source_face: self.source_face,
                            embedding: self.embedding,
                            placement: self.placement,
                        },
                    ),
                    action: Action::Detect,
                },
                _ => fail(Error::EngineFailure),
            },
            Event::Detected(tf, sf) => match self.stage {
                Stage::DetectBoth => self.on_detected(tf, sf),
                _ => fail(Error::EngineFailure),
            },
            Event::Decomposed(svd) => match self.stage {
                Stage::AlignSource => self.on_source_aligned(svd),
                Stage::AlignAndCropTarget => self.on_target_aligned(svd),
                _ => fail(Error::EngineFailure),
            },
            Event::Recognized(embedding) => match self.stage {
                Stage::RecognizeSource => match self.target_face {
                    Some(face) => self.ask(face, false, embedding, None),
                    None => fail(Error::NoFaceDetected),
                },
                _ => fail(Error::EngineFailure),
            },
            Event::Swapped(out) => match self.stage {
                Stage::Swap => self.on_swapped(out),
                _ => fail(Error::EngineFailure),
            },
        }
    }
}

impl Tensor {
    /// Brings the swapped crop `out` back to the crop's size and this frame's
    /// encoding and puts it into the frame through `warp`: see [`restored`].
    pub fn restore(&self, out: &Tensor, size: (usize, usize), warp: &SimilarityTransform) -> (r:
        Result<Tensor, Error>)
        ensures
            result_view(r) == restored(self@, out@, size, *warp),
    {
        let back = ModelInput { size: (size.1, size.0), normal: Some(self.normal), ratio: None };
        if !warp.is_valid() {
            return Err(Error::InvalidAlignment);
        }
        match out.prepare(&back) {
            Ok(patch) => Ok(self.composite(&patch, warp)),
            Err(e) => Err(e),
        }
    }
}

} // verus!
