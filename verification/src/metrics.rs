//! Prometheus metrics of inference requests, under Triton's names.
//!
//! How a request is accounted:
//!
//! - A [`RequestTimer`] is opened when a request has named a configured model,
//!   and the model's pending gauge goes up.
//! - [`RequestTimer::input_ready`] ends the `compute_input` phase;
//!   [`RequestTimer::executed`] records the wait for a worker, the backend's run
//!   and the batch size, and takes the request off the pending gauge.
//! - The request ends with [`RequestTimer::succeed`], which commits its counts
//!   and durations, or with [`RequestTimer::fail`], which counts one failure
//!   under a reason. A timer that is given up before either ends with
//!   [`RequestTimer::cancel`].
//!
//! Clock readings and durations are handed in, in nanoseconds; a reading is the
//! time since some fixed moment. Counters wrap around.

use vstd::prelude::*;

use crate::number;
use crate::number::decimal_u64;
use crate::status::{Code, Status};
use crate::text::{cat4, cat5, cat8, cat9, chars_of, same};

verus! {

/// The content type of the text exposition format that
/// [`InferenceMetrics::render`] writes.
pub const TEXT_FORMAT: &'static str = "text/plain; version=0.0.4; charset=utf-8";

/// Why a request failed, as the `reason` label tells.
#[derive(Clone, Copy, Debug, PartialEq, Eq, Structural)]
pub enum FailureReason {
    /// The model's queue was full.
    Rejected,
    /// The client went away before the response.
    Canceled,
    /// The model failed.
    Backend,
    /// Anything else, such as a request that failed validation.
    Other,
}

impl FailureReason {
    /// The text of the label.
    pub open spec fn spec_label(self) -> Seq<char> {
        match self {
            FailureReason::Rejected => "REJECTED"@,
            FailureReason::Canceled => "CANCELED"@,
            FailureReason::Backend => "BACKEND"@,
            FailureReason::Other => "OTHER"@,
        }
    }

    /// Gives [`Self::spec_label`].
    pub fn label(self) -> (r: &'static str)
        ensures
            r@ == self.spec_label(),
    {
        match self {
            FailureReason::Rejected => "REJECTED",
            FailureReason::Canceled => "CANCELED",
            FailureReason::Backend => "BACKEND",
            FailureReason::Other => "OTHER",
        }
    }

    /// The reason that a failing status implies: a full queue rejected the
    /// request, a cancelled call is the client's doing, and two codes are kept
    /// for failures of models.
    pub open spec fn of_code(code: Code) -> FailureReason {
        match code {
            Code::ResourceExhausted => FailureReason::Rejected,
            Code::Cancelled => FailureReason::Canceled,
            Code::Internal => FailureReason::Backend,
            Code::FailedPrecondition => FailureReason::Backend,
            _ => FailureReason::Other,
        }
    }

    /// Classifies a failing status.
    pub fn from_status(status: &Status) -> (r: FailureReason)
        ensures
            r == FailureReason::of_code(status@.0),
    {
        match status.code {
            Code::ResourceExhausted => FailureReason::Rejected,
            Code::Cancelled => FailureReason::Canceled,
            Code::Internal => FailureReason::Backend,
            Code::FailedPrecondition => FailureReason::Backend,
            _ => FailureReason::Other,
        }
    }
}

/// The counters of one model.
#[derive(Clone, Copy, Debug, PartialEq, Eq, Structural)]
pub struct ModelMetrics {
    pub request_success: u64,
    pub rejected: u64,
    pub canceled: u64,
    pub backend: u64,
    pub other: u64,
    pub count: u64,
    pub exec_count: u64,
    pub request_duration_us: u64,
    pub queue_duration_us: u64,
    pub compute_input_duration_us: u64,
    pub compute_infer_duration_us: u64,
    pub compute_output_duration_us: u64,
    pub pending_request_count: u64,
}

impl ModelMetrics {
    /// All counters at zero.
    pub open spec fn zero() -> ModelMetrics {
        ModelMetrics {
            request_success: 0,
            rejected: 0,
            canceled: 0,
            backend: 0,
            other: 0,
            count: 0,
            exec_count: 0,
            request_duration_us: 0,
            queue_duration_us: 0,
            compute_input_duration_us: 0,
            compute_infer_duration_us: 0,
            compute_output_duration_us: 0,
            pending_request_count: 0,
        }
    }

    /// The failures counted under a reason.
    pub open spec fn failures(self, reason: FailureReason) -> u64 {
        match reason {
            FailureReason::Rejected => self.rejected,
            FailureReason::Canceled => self.canceled,
            FailureReason::Backend => self.backend,
            FailureReason::Other => self.other,
        }
    }

    /// The counters with one more failure under a reason.
    pub open spec fn with_failure(self, reason: FailureReason) -> ModelMetrics {
        match reason {
            FailureReason::Rejected => ModelMetrics {
                rejected: self.rejected.wrapping_add(1),
                ..self
            },
            FailureReason::Canceled => ModelMetrics {
                canceled: self.canceled.wrapping_add(1),
                ..self
            },
            FailureReason::Backend => ModelMetrics {
                backend: self.backend.wrapping_add(1),
                ..self
            },
            FailureReason::Other => ModelMetrics { other: self.other.wrapping_add(1), ..self },
        }
    }

    /// The counters with one more pending request.
    pub open spec fn with_pending(self) -> ModelMetrics {
        ModelMetrics { pending_request_count: self.pending_request_count.wrapping_add(1), ..self }
    }

    /// The counters with one pending request less, where `pending` says that the
    /// request is still counted.
    pub open spec fn without_pending(self, pending: bool) -> ModelMetrics {
        if pending {
            ModelMetrics {
                pending_request_count: self.pending_request_count.wrapping_sub(1),
                ..self
            }
        } else {
            self
        }
    }

    /// The counters with a successful request committed, which took
    /// `request_us` in all and `output_us` since its last mark.
    pub open spec fn with_success(self, timer: TimerView, request_us: u64, output_us: u64) -> ModelMetrics {
        ModelMetrics {
            request_success: self.request_success.wrapping_add(1),
            count: self.count.wrapping_add(timer.inferences),
            exec_count: self.exec_count.wrapping_add(timer.executions),
            request_duration_us: self.request_duration_us.wrapping_add(request_us),
            queue_duration_us: self.queue_duration_us.wrapping_add(timer.queue_us),
            compute_input_duration_us: self.compute_input_duration_us.wrapping_add(timer.input_us),
            compute_infer_duration_us: self.compute_infer_duration_us.wrapping_add(timer.infer_us),
            compute_output_duration_us: self.compute_output_duration_us.wrapping_add(output_us),
            ..self
        }
    }

    fn new() -> (r: ModelMetrics)
        ensures
            r == ModelMetrics::zero(),
    {
        ModelMetrics {
            request_success: 0,
            rejected: 0,
            canceled: 0,
            backend: 0,
            other: 0,
            count: 0,
            exec_count: 0,
            request_duration_us: 0,
            queue_duration_us: 0,
            compute_input_duration_us: 0,
            compute_infer_duration_us: 0,
            compute_output_duration_us: 0,
            pending_request_count: 0,
        }
    }

    fn add_failure(&mut self, reason: FailureReason)
        ensures
            *final(self) == old(self).with_failure(reason),
    {
        match reason {
            FailureReason::Rejected => {
                self.rejected = self.rejected.wrapping_add(1);
            },
            FailureReason::Canceled => {
                self.canceled = self.canceled.wrapping_add(1);
            },
            FailureReason::Backend => {
                self.backend = self.backend.wrapping_add(1);
            },
            FailureReason::Other => {
                self.other = self.other.wrapping_add(1);
            },
        }
    }
}

/// The whole microseconds in so many nanoseconds, or the largest 64-bit number
/// where they exceed it.
pub open spec fn spec_micros(nanos: int) -> u64 {
    if nanos / 1000 <= u64::MAX {
        (nanos / 1000) as u64
    } else {
        u64::MAX
    }
}

/// Computes [`spec_micros`].
pub fn micros(nanos: u128) -> (r: u64)
    ensures
        r == spec_micros(nanos as int),
{
    let whole: u128 = nanos / 1000;
    if whole <= u64::MAX as u128 {
        whole as u64
    } else {
        u64::MAX
    }
}

/// The time from one clock reading to another; none where the second is
/// earlier.
pub open spec fn elapsed(from: u128, to: u128) -> int {
    if to >= from {
        to - from
    } else {
        0
    }
}

fn nanos_between(from: u128, to: u128) -> (r: u128)
    ensures
        r == elapsed(from, to),
{
    if to >= from {
        to - from
    } else {
        0
    }
}

/// The registry: the counters of each model, in the order of the configuration.
#[derive(Debug)]
pub struct InferenceMetrics {
    models: Vec<(String, ModelMetrics)>,
}

/// What the registry holds: each model's name and counters.
pub type RegistryView = Seq<(Seq<char>, ModelMetrics)>;

impl View for InferenceMetrics {
    type V = RegistryView;

    closed spec fn view(&self) -> RegistryView {
        Seq::new(self.models@.len(), |i: int| (self.models@[i].0@, self.models@[i].1))
    }
}

/// The last place of a name in the registry.
pub open spec fn last_place(models: RegistryView, name: Seq<char>) -> Option<int>
    decreases models.len(),
{
    if models.len() == 0 {
        None
    } else if models.last().0 == name {
        Some(models.len() - 1)
    } else {
        last_place(models.drop_last(), name)
    }
}

/// The registry with other counters for the model at `i`.
pub open spec fn with_counters(models: RegistryView, i: int, counters: ModelMetrics) -> RegistryView {
    models.update(i, (models[i].0, counters))
}

/// The accounting of one request: the model it belongs to, when it and its
/// current phase began, what its phases took so far, how often and with how many
/// inferences the backend ran, whether the pending gauge still counts it, and a
/// failure reason that was pinned.
pub struct TimerView {
    pub model: int,
    pub started: u128,
    pub phase: u128,
    pub input_us: u64,
    pub queue_us: u64,
    pub infer_us: u64,
    pub executions: u64,
    pub inferences: u64,
    pub pending: bool,
    pub reason: Option<FailureReason>,
}

/// The accounting of a request that has just named the model at `model`.
pub open spec fn opened(model: int, now: u128) -> TimerView {
    TimerView {
        model,
        started: now,
        phase: now,
        input_us: 0,
        queue_us: 0,
        infer_us: 0,
        executions: 0,
        inferences: 0,
        pending: true,
        reason: None,
    }
}

impl TimerView {
    /// After the input was built: the time since the last mark was spent on it.
    pub open spec fn after_input(self, now: u128) -> TimerView {
        TimerView {
            input_us: self.input_us.wrapping_add(spec_micros(elapsed(self.phase, now))),
            phase: now,
            ..self
        }
    }

    /// After the backend ran, with the wait, the run and the batch it reports; a
    /// batch counts as one inference at least.
    pub open spec fn after_execution(self, queue: u128, infer: u128, batch: u64, now: u128) -> TimerView {
        TimerView {
            queue_us: self.queue_us.wrapping_add(spec_micros(queue as int)),
            infer_us: self.infer_us.wrapping_add(spec_micros(infer as int)),
            executions: self.executions.wrapping_add(1),
            inferences: self.inferences.wrapping_add(
                if batch > 1 {
                    batch
                } else {
                    1
                },
            ),
            pending: false,
            phase: now,
            ..self
        }
    }

    /// After the failure was pinned on the model.
    pub open spec fn after_backend_failure(self) -> TimerView {
        TimerView { reason: Some(FailureReason::Backend), ..self }
    }

    /// The reason that a failure with the given code is counted under.
    pub open spec fn reason_for(self, code: Code) -> FailureReason {
        match self.reason {
            Some(pinned) => pinned,
            None => FailureReason::of_code(code),
        }
    }

    /// The counters after the request succeeded.
    pub open spec fn committed(self, counters: ModelMetrics, now: u128) -> ModelMetrics {
        counters.with_success(
            self,
            spec_micros(elapsed(self.started, now)),
            spec_micros(elapsed(self.phase, now)),
        ).without_pending(self.pending)
    }

    /// The counters after the request failed for a reason.
    pub open spec fn failed(self, counters: ModelMetrics, reason: FailureReason) -> ModelMetrics {
        counters.with_failure(reason).without_pending(self.pending)
    }
}

/// The in-flight accounting of one inference request.
#[derive(Debug)]
pub struct RequestTimer {
    model: usize,
    started: u128,
    phase: u128,
    input_us: u64,
    queue_us: u64,
    infer_us: u64,
    executions: u64,
    inferences: u64,
    pending: bool,
    reason: Option<FailureReason>,
}

impl View for RequestTimer {
    type V = TimerView;

    closed spec fn view(&self) -> TimerView {
        TimerView {
            model: self.model as int,
            started: self.started,
            phase: self.phase,
            input_us: self.input_us,
            queue_us: self.queue_us,
            infer_us: self.infer_us,
            executions: self.executions,
            inferences: self.inferences,
            pending: self.pending,
            reason: self.reason,
        }
    }
}

impl InferenceMetrics {
    /// The registry of a fixed list of models, with every counter at zero.
    pub fn new(model_names: Vec<String>) -> (r: InferenceMetrics)
        ensures
            r@ == Seq::new(
                model_names@.len(),
                |i: int| (model_names@[i]@, ModelMetrics::zero()),
            ),
    {
        let mut models: Vec<(String, ModelMetrics)> = Vec::new();
        let mut i: usize = 0;
        while i < model_names.len()
            invariant
                i <= model_names@.len(),
                models@.len() == i,
                forall|k: int|
                    0 <= k < i ==> (#[trigger] models@[k]).0@ == model_names@[k]@ && models@[k].1
                        == ModelMetrics::zero(),
            decreases model_names@.len() - i,
        {
            models.push((model_names[i].clone(), ModelMetrics::new()));
            i = i + 1;
        }
        let registry = InferenceMetrics { models };
        assert(registry@ =~= Seq::new(
            model_names@.len(),
            |i: int| (model_names@[i]@, ModelMetrics::zero()),
        ));
        registry
    }

    fn find(&self, model_name: &str) -> (r: Option<usize>)
        ensures
            match r {
                Some(i) => last_place(self@, model_name@) == Some(i as int) && i
                    < self.models@.len(),
                None => last_place(self@, model_name@) is None,
            },
    {
        let mut i: usize = self.models.len();
        assert(self@.take(i as int) =~= self@);
        while i > 0
            invariant
                i <= self.models@.len(),
                last_place(self@, model_name@) == last_place(self@.take(i as int), model_name@),
            decreases i,
        {
            proof {
                assert(self@.take(i as int).drop_last() =~= self@.take(i - 1));
                assert(self@.take(i as int).last() == self@[i - 1]);
            }
            if same(self.models[i - 1].0.as_str(), model_name) {
                return Some(i - 1);
            }
            i = i - 1;
        }
        None
    }

    /// Opens the accounting of one request to `model_name`; `None` where no such
    /// model is registered. The model's pending gauge goes up.
    pub fn begin(&mut self, model_name: &str, now: u128) -> (r: Option<RequestTimer>)
        ensures
            match last_place(old(self)@, model_name@) {
                Some(i) => {
                    &&& r matches Some(timer) && timer@ == opened(i, now)
                    &&& 0 <= i < old(self)@.len()
                    &&& final(self)@ == with_counters(
                        old(self)@,
                        i,
                        old(self)@[i].1.with_pending(),
                    )
                },
                None => r is None && final(self)@ == old(self)@,
            },
    {
        match self.find(model_name) {
            None => None,
            Some(i) => {
                let mut counters = self.counters(i);
                counters.pending_request_count = counters.pending_request_count.wrapping_add(1);
                self.store(i, counters);
                Some(
                    RequestTimer {
                        model: i,
                        started: now,
                        phase: now,
                        input_us: 0,
                        queue_us: 0,
                        infer_us: 0,
                        executions: 0,
                        inferences: 0,
                        pending: true,
                        reason: None,
                    },
                )
            },
        }
    }

    /// The counters of the model at `i`.
    pub fn counters(&self, i: usize) -> (r: ModelMetrics)
        requires
            i < self@.len(),
        ensures
            r == self@[i as int].1,
    {
        self.models[i].1
    }

    fn store(&mut self, i: usize, counters: ModelMetrics)
        requires
            i < old(self)@.len(),
        ensures
            final(self)@ == with_counters(old(self)@, i as int, counters),
    {
        let name = self.models[i].0.clone();
        self.models.set(i, (name, counters));
        assert(self@ =~= with_counters(old(self)@, i as int, counters));
    }
}

impl RequestTimer {
    /// Whether the timer was opened by a registry with these models.
    pub open spec fn belongs_to(self, models: RegistryView) -> bool {
        0 <= self@.model < models.len()
    }

    /// The input tensors are built and checked.
    pub fn input_ready(&mut self, now: u128)
        ensures
            final(self)@ == old(self)@.after_input(now),
    {
        self.input_us = self.input_us.wrapping_add(micros(nanos_between(self.phase, now)));
        self.phase = now;
    }

    /// The time spent in the current phase, in nanoseconds.
    pub fn phase_elapsed(&self, now: u128) -> (r: u128)
        ensures
            r == elapsed(self@.phase, now),
    {
        nanos_between(self.phase, now)
    }

    /// The backend ran: `queue` is the wait for a worker, `infer` the run, both in
    /// nanoseconds, and `batch` the number of inferences. The request is no
    /// longer pending.
    pub fn executed(
        &mut self,
        metrics: &mut InferenceMetrics,
        queue: u128,
        infer: u128,
        batch: u64,
        now: u128,
    )
        requires
            old(self).belongs_to(old(metrics)@),
        ensures
            final(self)@ == old(self)@.after_execution(queue, infer, batch, now),
            final(metrics)@ == with_counters(
                old(metrics)@,
                old(self)@.model,
                old(metrics)@[old(self)@.model].1.without_pending(old(self)@.pending),
            ),
    {
        self.queue_us = self.queue_us.wrapping_add(micros(queue));
        self.infer_us = self.infer_us.wrapping_add(micros(infer));
        self.executions = self.executions.wrapping_add(1);
        let inferences: u64 = if batch > 1 {
            batch
        } else {
            1
        };
        self.inferences = self.inferences.wrapping_add(inferences);
        self.clear_pending(metrics);
        self.phase = now;
    }

    fn clear_pending(&mut self, metrics: &mut InferenceMetrics)
        requires
            old(self).belongs_to(old(metrics)@),
        ensures
            final(self)@ == (TimerView { pending: false, ..old(self)@ }),
            final(metrics)@ == with_counters(
                old(metrics)@,
                old(self)@.model,
                old(metrics)@[old(self)@.model].1.without_pending(old(self)@.pending),
            ),
    {
        if self.pending {
            self.pending = false;
            let mut counters = metrics.counters(self.model);
            counters.pending_request_count = counters.pending_request_count.wrapping_sub(1);
            metrics.store(self.model, counters);
        } else {
            assert(metrics@ =~= with_counters(
                metrics@,
                self@.model,
                metrics@[self@.model].1.without_pending(false),
            ));
        }
    }

    /// The model itself failed, whatever code the error carries.
    pub fn backend_failed(&mut self)
        ensures
            final(self)@ == old(self)@.after_backend_failure(),
    {
        self.reason = Some(FailureReason::Backend);
    }

    /// The request completed: its counts and durations are committed. The time
    /// since the last mark went into the output.
    pub fn succeed(self, metrics: &mut InferenceMetrics, now: u128)
        requires
            self.belongs_to(old(metrics)@),
        ensures
            final(metrics)@ == with_counters(
                old(metrics)@,
                self@.model,
                self@.committed(old(metrics)@[self@.model].1, now),
            ),
    {
        let output_us: u64 = micros(nanos_between(self.phase, now));
        let request_us: u64 = micros(nanos_between(self.started, now));
        let mut m = metrics.counters(self.model);
        m.request_success = m.request_success.wrapping_add(1);
        m.count = m.count.wrapping_add(self.inferences);
        m.exec_count = m.exec_count.wrapping_add(self.executions);
        m.request_duration_us = m.request_duration_us.wrapping_add(request_us);
        m.queue_duration_us = m.queue_duration_us.wrapping_add(self.queue_us);
        m.compute_input_duration_us = m.compute_input_duration_us.wrapping_add(self.input_us);
        m.compute_infer_duration_us = m.compute_infer_duration_us.wrapping_add(self.infer_us);
        m.compute_output_duration_us = m.compute_output_duration_us.wrapping_add(output_us);
        if self.pending {
            m.pending_request_count = m.pending_request_count.wrapping_sub(1);
        }
        metrics.store(self.model, m);
    }

    /// The request failed with `status`: one failure is counted, under the pinned
    /// reason where there is one.
    pub fn fail(self, metrics: &mut InferenceMetrics, status: &Status)
        requires
            self.belongs_to(old(metrics)@),
        ensures
            final(metrics)@ == with_counters(
                old(metrics)@,
                self@.model,
                self@.failed(old(metrics)@[self@.model].1, self@.reason_for(status@.0)),
            ),
    {
        let reason = match self.reason {
            Some(pinned) => pinned,
            None => FailureReason::from_status(status),
        };
        self.record_failure(metrics, reason);
    }

    /// The request was given up before it ended, because the client went away.
    /// It counts as canceled, whatever was observed before.
    pub fn cancel(self, metrics: &mut InferenceMetrics)
        requires
            self.belongs_to(old(metrics)@),
        ensures
            final(metrics)@ == with_counters(
                old(metrics)@,
                self@.model,
                self@.failed(old(metrics)@[self@.model].1, FailureReason::Canceled),
            ),
    {
        self.record_failure(metrics, FailureReason::Canceled);
    }

    fn record_failure(&self, metrics: &mut InferenceMetrics, reason: FailureReason)
        requires
            self.belongs_to(old(metrics)@),
        ensures
            final(metrics)@ == with_counters(
                old(metrics)@,
                self@.model,
                self@.failed(old(metrics)@[self@.model].1, reason),
            ),
    {
        let mut m = metrics.counters(self.model);
        m.add_failure(reason);
        if self.pending {
            m.pending_request_count = m.pending_request_count.wrapping_sub(1);
        }
        metrics.store(self.model, m);
    }
}

/// What stands for a character in a label value: a backslash, a double quote
/// and a line feed are escaped.
pub open spec fn escaped_char(c: char) -> Seq<char> {
    if c == '\\' {
        seq!['\\', '\\']
    } else if c == '"' {
        seq!['\\', '"']
    } else if c == '\n' {
        seq!['\\', 'n']
    } else {
        seq![c]
    }
}

/// A label value as the text exposition format writes it.
pub open spec fn escaped(value: Seq<char>) -> Seq<char>
    decreases value.len(),
{
    if value.len() == 0 {
        Seq::empty()
    } else {
        escaped(value.drop_last()) + escaped_char(value.last())
    }
}

/// Computes [`escaped`].
pub fn escape_label(value: &str) -> (r: String)
    ensures
        r@ == escaped(value@),
{
    let chars = chars_of(value);
    let mut out = String::new();
    let mut i: usize = 0;
    assert(value@.take(0) =~= Seq::empty());
    while i < chars.len()
        invariant
            i <= chars@.len(),
            chars@ == value@,
            out@ == escaped(value@.take(i as int)),
        decreases chars@.len() - i,
    {
        let c = chars[i];
        proof {
            assert(value@.take(i + 1).drop_last() =~= value@.take(i as int));
            assert(value@.take(i + 1).last() == c);
        }
        if c == '\\' {
            out.push('\\');
            out.push('\\');
        } else if c == '"' {
            out.push('\\');
            out.push('"');
        } else if c == '\n' {
            out.push('\\');
            out.push('n');
        } else {
            out.push(c);
        }
        assert(out@ =~= escaped(value@.take(i + 1)));
        i = i + 1;
    }
    assert(value@.take(i as int) =~= value@);
    out
}

/// The series that carry only the `model` and `version` labels.
#[derive(Clone, Copy, Debug, PartialEq, Eq, Structural)]
pub enum Series {
    RequestSuccess,
    Count,
    ExecCount,
    RequestDuration,
    QueueDuration,
    ComputeInputDuration,
    ComputeInferDuration,
    ComputeOutputDuration,
    PendingRequestCount,
}

impl Series {
    /// The name of the series.
    pub open spec fn spec_name(self) -> Seq<char> {
        match self {
            Series::RequestSuccess => "nv_inference_request_success"@,
            Series::Count => "nv_inference_count"@,
            Series::ExecCount => "nv_inference_exec_count"@,
            Series::RequestDuration => "nv_inference_request_duration_us"@,
            Series::QueueDuration => "nv_inference_queue_duration_us"@,
            Series::ComputeInputDuration => "nv_inference_compute_input_duration_us"@,
            Series::ComputeInferDuration => "nv_inference_compute_infer_duration_us"@,
            Series::ComputeOutputDuration => "nv_inference_compute_output_duration_us"@,
            Series::PendingRequestCount => "nv_inference_pending_request_count"@,
        }
    }

    /// Whether the series only grows or goes up and down.
    pub open spec fn spec_kind(self) -> Seq<char> {
        match self {
            Series::PendingRequestCount => "gauge"@,
            _ => "counter"@,
        }
    }

    /// The help text of the series.
    pub open spec fn spec_help(self) -> Seq<char> {
        match self {
            Series::RequestSuccess => "Number of successful inference requests, all batch sizes"@,
            Series::Count => {
                "Number of inferences performed (a batch of \"n\" is counted as \"n\" inferences)"@
            },
            Series::ExecCount => "Number of model executions performed"@,
            Series::RequestDuration => "Cumulative inference request duration in microseconds"@,
            Series::QueueDuration => "Cumulative inference queuing duration in microseconds"@,
            Series::ComputeInputDuration => "Cumulative compute input duration in microseconds"@,
            Series::ComputeInferDuration => {
                "Cumulative compute inference duration in microseconds"@
            },
            Series::ComputeOutputDuration => {
                "Cumulative inference compute output duration in microseconds"@
            },
            Series::PendingRequestCount => {
                "Instantaneous number of pending requests awaiting execution per-model."@
            },
        }
    }

    /// The value of the series for a model.
    pub open spec fn spec_value(self, m: ModelMetrics) -> u64 {
        match self {
            Series::RequestSuccess => m.request_success,
            Series::Count => m.count,
            Series::ExecCount => m.exec_count,
            Series::RequestDuration => m.request_duration_us,
            Series::QueueDuration => m.queue_duration_us,
            Series::ComputeInputDuration => m.compute_input_duration_us,
            Series::ComputeInferDuration => m.compute_infer_duration_us,
            Series::ComputeOutputDuration => m.compute_output_duration_us,
            Series::PendingRequestCount => m.pending_request_count,
        }
    }

    fn name(self) -> (r: &'static str)
        ensures
            r@ == self.spec_name(),
    {
        match self {
            Series::RequestSuccess => "nv_inference_request_success",
            Series::Count => "nv_inference_count",
            Series::ExecCount => "nv_inference_exec_count",
            Series::RequestDuration => "nv_inference_request_duration_us",
            Series::QueueDuration => "nv_inference_queue_duration_us",
            Series::ComputeInputDuration => "nv_inference_compute_input_duration_us",
            Series::ComputeInferDuration => "nv_inference_compute_infer_duration_us",
            Series::ComputeOutputDuration => "nv_inference_compute_output_duration_us",
            Series::PendingRequestCount => "nv_inference_pending_request_count",
        }
    }

    fn kind(self) -> (r: &'static str)
        ensures
            r@ == self.spec_kind(),
    {
        match self {
            Series::PendingRequestCount => "gauge",
            _ => "counter",
        }
    }

    fn help(self) -> (r: &'static str)
        ensures
            r@ == self.spec_help(),
    {
        match self {
            Series::RequestSuccess => "Number of successful inference requests, all batch sizes",
            Series::Count => {
                "Number of inferences performed (a batch of \"n\" is counted as \"n\" inferences)"
            },
            Series::ExecCount => "Number of model executions performed",
            Series::RequestDuration => "Cumulative inference request duration in microseconds",
            Series::QueueDuration => "Cumulative inference queuing duration in microseconds",
            Series::ComputeInputDuration => "Cumulative compute input duration in microseconds",
            Series::ComputeInferDuration => {
                "Cumulative compute inference duration in microseconds"
            },
            Series::ComputeOutputDuration => {
                "Cumulative inference compute output duration in microseconds"
            },
            Series::PendingRequestCount => {
                "Instantaneous number of pending requests awaiting execution per-model."
            },
        }
    }

    fn value(self, m: &ModelMetrics) -> (r: u64)
        ensures
            r == self.spec_value(*m),
    {
        match self {
            Series::RequestSuccess => m.request_success,
            Series::Count => m.count,
            Series::ExecCount => m.exec_count,
            Series::RequestDuration => m.request_duration_us,
            Series::QueueDuration => m.queue_duration_us,
            Series::ComputeInputDuration => m.compute_input_duration_us,
            Series::ComputeInferDuration => m.compute_infer_duration_us,
            Series::ComputeOutputDuration => m.compute_output_duration_us,
            Series::PendingRequestCount => m.pending_request_count,
        }
    }
}

/// The two comment lines above a family of samples.
pub open spec fn family_head(name: Seq<char>, kind: Seq<char>, help: Seq<char>) -> Seq<char> {
    "# HELP "@ + name + " "@ + help + "\n"@ + "# TYPE "@ + name + " "@ + kind + "\n"@
}

/// The line with a model's sample of a series.
pub open spec fn sample(series: Series, model: (Seq<char>, ModelMetrics)) -> Seq<char> {
    series.spec_name() + "{model=\""@ + escaped(model.0) + "\",version=\""@
        + crate::triton::MODEL_VERSION@ + "\"} "@ + number::decimal(
        series.spec_value(model.1) as int,
    ) + "\n"@
}

/// The samples of a series, model by model.
pub open spec fn samples(series: Series, models: RegistryView) -> Seq<char>
    decreases models.len(),
{
    if models.len() == 0 {
        Seq::empty()
    } else {
        samples(series, models.drop_last()) + sample(series, models.last())
    }
}

/// A whole family: its comments and its samples.
pub open spec fn family_text(series: Series, models: RegistryView) -> Seq<char> {
    family_head(series.spec_name(), series.spec_kind(), series.spec_help()) + samples(
        series,
        models,
    )
}

/// The line with a model's failures of one reason.
pub open spec fn failure_sample(
    reason: FailureReason,
    model: (Seq<char>, ModelMetrics),
) -> Seq<char> {
    "nv_inference_request_failure{model=\""@ + escaped(model.0) + "\",version=\""@
        + crate::triton::MODEL_VERSION@ + "\",reason=\""@ + reason.spec_label() + "\"} "@
        + number::decimal(model.1.failures(reason) as int) + "\n"@
}

/// The lines with a model's failures, reason by reason.
pub open spec fn failure_lines(model: (Seq<char>, ModelMetrics)) -> Seq<char> {
    failure_sample(FailureReason::Rejected, model) + failure_sample(FailureReason::Canceled, model)
        + failure_sample(FailureReason::Backend, model) + failure_sample(
        FailureReason::Other,
        model,
    )
}

/// The failure samples, model by model.
pub open spec fn failure_samples(models: RegistryView) -> Seq<char>
    decreases models.len(),
{
    if models.len() == 0 {
        Seq::empty()
    } else {
        failure_samples(models.drop_last()) + failure_lines(models.last())
    }
}

/// The family of failure counters, which carry the `reason` label too.
pub open spec fn failure_family(models: RegistryView) -> Seq<char> {
    family_head(
        "nv_inference_request_failure"@,
        "counter"@,
        "Number of failed inference requests, all batch sizes"@,
    ) + failure_samples(models)
}

/// The registry in the text exposition format.
pub open spec fn spec_render(models: RegistryView) -> Seq<char> {
    family_text(Series::RequestSuccess, models) + failure_family(models) + family_text(
        Series::Count,
        models,
    ) + family_text(Series::ExecCount, models) + family_text(Series::RequestDuration, models)
        + family_text(Series::QueueDuration, models) + family_text(
        Series::ComputeInputDuration,
        models,
    ) + family_text(Series::ComputeInferDuration, models) + family_text(
        Series::ComputeOutputDuration,
        models,
    ) + family_text(Series::PendingRequestCount, models)
}

fn head_text(name: &str, kind: &str, help: &str) -> (r: String)
    ensures
        r@ == family_head(name@, kind@, help@),
{
    let mut out = cat5("# HELP ", name, " ", help, "\n");
    out.append("# TYPE ");
    out.append(name);
    out.append(" ");
    out.append(kind);
    out.append("\n");
    out
}

impl InferenceMetrics {
    /// Writes one family: its comments and a sample per model.
    fn family(&self, series: Series) -> (r: String)
        ensures
            r@ == family_text(series, self@),
    {
        let mut out = head_text(series.name(), series.kind(), series.help());
        let ghost head = out@;
        let mut i: usize = 0;
        assert(self@.take(0) =~= Seq::empty());
        assert(out@ =~= head + samples(series, self@.take(0)));
        while i < self.models.len()
            invariant
                i <= self.models@.len(),
                out@ == head + samples(series, self@.take(i as int)),
            decreases self.models@.len() - i,
        {
            proof {
                assert(self@.take(i + 1).drop_last() =~= self@.take(i as int));
                assert(self@.take(i + 1).last() == self@[i as int]);
            }
            let label = escape_label(self.models[i].0.as_str());
            let value = decimal_u64(series.value(&self.models[i].1));
            let line = cat8(
                series.name(),
                "{model=\"",
                label.as_str(),
                "\",version=\"",
                crate::triton::MODEL_VERSION,
                "\"} ",
                value.as_str(),
                "\n",
            );
            assert(line@ == sample(series, self@[i as int]));
            out.append(line.as_str());
            assert(out@ =~= head + samples(series, self@.take(i + 1)));
            i = i + 1;
        }
        assert(self@.take(i as int) =~= self@);
        out
    }

    fn failure_line(&self, i: usize, reason: FailureReason, value: u64) -> (r: String)
        requires
            i < self@.len(),
            value == self@[i as int].1.failures(reason),
        ensures
            r@ == failure_sample(reason, self@[i as int]),
    {
        let label = escape_label(self.models[i].0.as_str());
        let value_text = decimal_u64(value);
        cat9(
            "nv_inference_request_failure{model=\"",
            label.as_str(),
            "\",version=\"",
            crate::triton::MODEL_VERSION,
            "\",reason=\"",
            reason.label(),
            "\"} ",
            value_text.as_str(),
            "\n",
        )
    }

    /// Writes the failure family: for every model every reason, zero or not.
    fn failures(&self) -> (r: String)
        ensures
            r@ == failure_family(self@),
    {
        let mut out = head_text(
            "nv_inference_request_failure",
            "counter",
            "Number of failed inference requests, all batch sizes",
        );
        let ghost head = out@;
        let mut i: usize = 0;
        assert(self@.take(0) =~= Seq::empty());
        assert(out@ =~= head + failure_samples(self@.take(0)));
        while i < self.models.len()
            invariant
                i <= self.models@.len(),
                out@ == head + failure_samples(self@.take(i as int)),
            decreases self.models@.len() - i,
        {
            proof {
                assert(self@.take(i + 1).drop_last() =~= self@.take(i as int));
                assert(self@.take(i + 1).last() == self@[i as int]);
            }
            let m = self.counters(i);
            let rejected = self.failure_line(i, FailureReason::Rejected, m.rejected);
            let canceled = self.failure_line(i, FailureReason::Canceled, m.canceled);
            let backend = self.failure_line(i, FailureReason::Backend, m.backend);
            let other = self.failure_line(i, FailureReason::Other, m.other);
            let all = cat4(
                rejected.as_str(),
                canceled.as_str(),
                backend.as_str(),
                other.as_str(),
            );
            assert(all@ == failure_lines(self@[i as int]));
            out.append(all.as_str());
            assert(out@ =~= head + failure_samples(self@.take(i + 1)));
            i = i + 1;
        }
        assert(self@.take(i as int) =~= self@);
        out
    }

    /// Writes every series in the text exposition format.
    pub fn render(&self) -> (r: String)
        ensures
            r@ == spec_render(self@),
    {
        let mut out = self.family(Series::RequestSuccess);
        out.append(self.failures().as_str());
        out.append(self.family(Series::Count).as_str());
        out.append(self.family(Series::ExecCount).as_str());
        out.append(self.family(Series::RequestDuration).as_str());
        out.append(self.family(Series::QueueDuration).as_str());
        out.append(self.family(Series::ComputeInputDuration).as_str());
        out.append(self.family(Series::ComputeInferDuration).as_str());
        out.append(self.family(Series::ComputeOutputDuration).as_str());
        out.append(self.family(Series::PendingRequestCount).as_str());
        out
    }
}

} // verus!
