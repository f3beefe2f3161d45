//! What the counters of a model count, in terms of the counters themselves, the clock
//! readings and the codes that were given: each duration is the time between its own
//! two readings, each failure is counted under the reason of its code, and each line
//! of the rendering shows the counter that it names.

use vstd::prelude::*;

use crate::accounting;
use crate::accounting::{End, Mark};
use crate::metrics;
use crate::metrics::{FailureReason, ModelMetrics, RegistryView, Series, TimerView};
use crate::number;
use crate::status::Code;

verus! {

/// Whether so many whole microseconds pass from one clock reading to another: none
/// where the second is not later, and no more than a counter can hold.
pub open spec fn passes(from: int, to: int, micros: u64) -> bool {
    if to <= from {
        micros == 0
    } else if to - from >= 1000 * 0x1_0000_0000_0000_0000int {
        micros == u64::MAX
    } else {
        micros * 1000 <= to - from < (micros + 1) * 1000
    }
}

/// Whether a counter has grown by the time between two clock readings.
pub open spec fn grown(before: u64, after: u64, from: int, to: int) -> bool {
    exists|micros: u64| #[trigger] passes(from, to, micros) && after == before.wrapping_add(micros)
}

proof fn lemma_passes(from: u128, to: u128)
    ensures
        passes(from as int, to as int, metrics::spec_micros(metrics::elapsed(from, to))),
{
}

proof fn lemma_span(nanos: u128)
    ensures
        passes(0, nanos as int, metrics::spec_micros(nanos as int)),
{
}

/// A request that is run and succeeds adds to each duration the time between its own
/// two readings: to the request's, from its beginning to its end; to that of the
/// inputs, from the beginning until they are ready; to that of the outputs, from the
/// end of the execution to the end; and to those of the queue and the model, the
/// times that were measured for them.
pub proof fn law_durations(
    counters: ModelMetrics,
    model: int,
    begin: u128,
    input: u128,
    queue: u128,
    infer: u128,
    batch: u64,
    ran: u128,
    end: u128,
)
    ensures
        ({
            let marks = seq![
                Mark::InputReady { now: input },
                Mark::Executed { queue, infer, batch, now: ran },
            ];
            let after = accounting::after_request(
                counters,
                model,
                begin,
                marks,
                End::Succeed { now: end },
            );
            &&& grown(
                counters.request_duration_us,
                after.request_duration_us,
                begin as int,
                end as int,
            )
            &&& grown(
                counters.compute_input_duration_us,
                after.compute_input_duration_us,
                begin as int,
                input as int,
            )
            &&& grown(counters.queue_duration_us, after.queue_duration_us, 0, queue as int)
            &&& grown(
                counters.compute_infer_duration_us,
                after.compute_infer_duration_us,
                0,
                infer as int,
            )
            &&& grown(
                counters.compute_output_duration_us,
                after.compute_output_duration_us,
                ran as int,
                end as int,
            )
        }),
{
    let first = Mark::InputReady { now: input };
    let second = Mark::Executed { queue, infer, batch, now: ran };
    let marks = seq![first, second];
    reveal_with_fuel(accounting::after_marks, 3);
    assert(marks.drop_last() =~= seq![first]);
    assert(marks.drop_last().last() == first);
    assert(marks.drop_last().drop_last() =~= Seq::empty());
    lemma_passes(begin, end);
    lemma_passes(begin, input);
    lemma_passes(ran, end);
    lemma_span(queue);
    lemma_span(infer);
}

proof fn lemma_started(counters: ModelMetrics, timer: TimerView, marks: Seq<Mark>)
    ensures
        accounting::after_marks(counters, timer, marks).1.started == timer.started,
        accounting::after_marks(counters, timer, marks).1.model == timer.model,
        accounting::after_marks(counters, timer, marks).0.request_duration_us
            == counters.request_duration_us,
    decreases marks.len(),
{
    if marks.len() > 0 {
        lemma_started(counters, timer, marks.drop_last());
    }
}

/// Whatever is marked on the way, a request that succeeds takes from its beginning to
/// its end.
pub proof fn law_request_duration(
    counters: ModelMetrics,
    model: int,
    begin: u128,
    marks: Seq<Mark>,
    end: u128,
)
    ensures
        grown(
            counters.request_duration_us,
            accounting::after_request(
                counters,
                model,
                begin,
                marks,
                End::Succeed { now: end },
            ).request_duration_us,
            begin as int,
            end as int,
        ),
{
    lemma_started(counters.with_pending(), metrics::opened(model, begin), marks);
    lemma_passes(begin, end);
}

/// Each mark changes what it is about and nothing else of a request: that the inputs
/// are ready adds the time since the last mark to theirs; an execution adds the times
/// that were measured for it, one execution, and the batch or at least one to the
/// inferences; and a failure of the model adds to none of them.
pub proof fn law_marks_change_their_own(
    timer: TimerView,
    now: u128,
    queue: u128,
    infer: u128,
    batch: u64,
)
    ensures
        ({
            let t = timer.after_input(now);
            &&& grown(timer.input_us, t.input_us, timer.phase as int, now as int)
            &&& t.phase == now
            &&& t.model == timer.model && t.started == timer.started && t.queue_us
                == timer.queue_us && t.infer_us == timer.infer_us && t.executions
                == timer.executions && t.inferences == timer.inferences && t.pending
                == timer.pending && t.reason == timer.reason
        }),
        ({
            let t = timer.after_execution(queue, infer, batch, now);
            &&& grown(timer.queue_us, t.queue_us, 0, queue as int)
            &&& grown(timer.infer_us, t.infer_us, 0, infer as int)
            &&& t.executions == timer.executions.wrapping_add(1)
            &&& batch >= 1 ==> t.inferences == timer.inferences.wrapping_add(batch)
            &&& batch == 0 ==> t.inferences == timer.inferences.wrapping_add(1)
            &&& !t.pending
            &&& t.phase == now
            &&& t.model == timer.model && t.started == timer.started && t.input_us
                == timer.input_us && t.reason == timer.reason
        }),
        ({
            let t = timer.after_backend_failure();
            &&& t.model == timer.model && t.started == timer.started && t.phase == timer.phase
                && t.input_us == timer.input_us && t.queue_us == timer.queue_us && t.infer_us
                == timer.infer_us && t.executions == timer.executions && t.inferences
                == timer.inferences && t.pending == timer.pending
        }),
{
    lemma_passes(timer.phase, now);
    lemma_span(queue);
    lemma_span(infer);
}

/// A request that has just begun has taken no time, has been neither run nor failed,
/// and waits.
pub proof fn law_begun(model: int, now: u128)
    ensures
        ({
            let t = metrics::opened(model, now);
            &&& t.model == model
            &&& t.started == now && t.phase == now
            &&& t.input_us == 0 && t.queue_us == 0 && t.infer_us == 0
            &&& t.executions == 0 && t.inferences == 0
            &&& t.pending
            &&& t.reason is None
        }),
{
}

/// Whether two sets of counters differ in no failure count.
pub open spec fn same_failures(a: ModelMetrics, b: ModelMetrics) -> bool {
    a.rejected == b.rejected && a.canceled == b.canceled && a.backend == b.backend && a.other
        == b.other
}

/// Whether a mark says that the model failed.
pub open spec fn backend_failed(marks: Seq<Mark>) -> bool {
    exists|k: int| 0 <= k < marks.len() && (#[trigger] marks[k]) is BackendFailed
}

proof fn lemma_reason(counters: ModelMetrics, timer: TimerView, marks: Seq<Mark>)
    requires
        timer.reason is None,
    ensures
        ({
            let (m, t) = accounting::after_marks(counters, timer, marks);
            &&& same_failures(m, counters)
            &&& m.request_success == counters.request_success
            &&& t.reason is None <==> !backend_failed(marks)
            &&& t.reason is Some ==> t.reason == Some(FailureReason::Backend)
        }),
    decreases marks.len(),
{
    if marks.len() > 0 {
        let front = marks.drop_last();
        lemma_reason(counters, timer, front);
        if backend_failed(front) {
            let k = choose|k: int| 0 <= k < front.len() && (#[trigger] front[k]) is BackendFailed;
            assert(marks[k] is BackendFailed);
        }
        if marks.last() is BackendFailed {
            assert(marks[marks.len() - 1] is BackendFailed);
        } else if backend_failed(marks) {
            let k = choose|k: int| 0 <= k < marks.len() && (#[trigger] marks[k]) is BackendFailed;
            assert(front[k] is BackendFailed);
        }
    }
}

/// A request that fails is counted once, under the reason of its code: as rejected
/// where resources are exhausted, as canceled where it was cancelled, as the model's
/// failure where it was internal or a precondition failed, and otherwise as other. A
/// failure that the model was already marked with stays the model's.
pub proof fn law_failures_by_code(
    counters: ModelMetrics,
    model: int,
    begin: u128,
    marks: Seq<Mark>,
    code: Code,
)
    ensures
        ({
            let after = accounting::after_request(
                counters,
                model,
                begin,
                marks,
                End::Fail { code },
            );
            let pinned = backend_failed(marks);
            let rejected = !pinned && code == Code::ResourceExhausted;
            let canceled = !pinned && code == Code::Cancelled;
            let backend = pinned || code == Code::Internal || code == Code::FailedPrecondition;
            let other = !rejected && !canceled && !backend;
            &&& after.request_success == counters.request_success
            &&& counted_where(counters.rejected, after.rejected, rejected)
            &&& counted_where(counters.canceled, after.canceled, canceled)
            &&& counted_where(counters.backend, after.backend, backend)
            &&& counted_where(counters.other, after.other, other)
        }),
{
    lemma_reason(counters.with_pending(), metrics::opened(model, begin), marks);
}

/// Whether a counter has grown by one where a condition holds, and else stayed.
pub open spec fn counted_where(before: u64, after: u64, holds: bool) -> bool {
    if holds {
        after == before.wrapping_add(1)
    } else {
        after == before
    }
}

/// A request that its client abandons is counted once, as canceled, whatever was
/// marked before.
pub proof fn law_abandoned(counters: ModelMetrics, model: int, begin: u128, marks: Seq<Mark>)
    ensures
        ({
            let after = accounting::after_request(counters, model, begin, marks, End::Cancel);
            &&& after.canceled == counters.canceled.wrapping_add(1)
            &&& after.rejected == counters.rejected
            &&& after.backend == counters.backend
            &&& after.other == counters.other
            &&& after.request_success == counters.request_success
        }),
{
    lemma_reason(counters.with_pending(), metrics::opened(model, begin), marks);
}

/// A request that succeeds is counted as a success and under no failure.
pub proof fn law_succeeded(
    counters: ModelMetrics,
    model: int,
    begin: u128,
    marks: Seq<Mark>,
    now: u128,
)
    ensures
        ({
            let after = accounting::after_request(
                counters,
                model,
                begin,
                marks,
                End::Succeed { now },
            );
            &&& after.request_success == counters.request_success.wrapping_add(1)
            &&& same_failures(after, counters)
        }),
{
    lemma_reason(counters.with_pending(), metrics::opened(model, begin), marks);
}

/// A name finds the last model that has it, and nothing where none has.
pub proof fn law_last_of_its_name(models: RegistryView, name: Seq<char>)
    ensures
        metrics::last_place(models, name) matches Some(i) ==> 0 <= i < models.len() && models[i].0
            == name && forall|k: int| i < k < models.len() ==> (#[trigger] models[k]).0 != name,
        metrics::last_place(models, name) is None ==> forall|k: int|
            0 <= k < models.len() ==> (#[trigger] models[k]).0 != name,
    decreases models.len(),
{
    if models.len() > 0 && models.last().0 != name {
        let front = models.drop_last();
        law_last_of_its_name(front, name);
        assert forall|k: int| 0 <= k < front.len() implies front[k] == #[trigger] models[k] by {}
    }
}

/// The line of a series: its name, the model, the version, and the number.
pub open spec fn shown(series: Seq<char>, model: Seq<char>, count: u64) -> Seq<char> {
    series + "{model=\""@ + metrics::escaped(model) + "\",version=\""@ + "1"@ + "\"} "@
        + number::decimal(count as int) + "\n"@
}

/// The line of the failures for one reason.
pub open spec fn shown_failures(model: Seq<char>, reason: Seq<char>, count: u64) -> Seq<char> {
    "nv_inference_request_failure{model=\""@ + metrics::escaped(model)
        + "\",version=\""@ + "1"@ + "\",reason=\""@ + reason + "\"} "@ + number::decimal(
        count as int,
    ) + "\n"@
}

proof fn lemma_shown(models: RegistryView, i: int, series: Series)
    requires
        0 <= i < models.len(),
    ensures
        accounting::holds_text(
            metrics::spec_render(models),
            shown(series.spec_name(), models[i].0, series.spec_value(models[i].1)),
        ),
{
    accounting::law_every_series_rendered(models, i, series, FailureReason::Other);
}

proof fn lemma_shown_failures(models: RegistryView, i: int, reason: FailureReason)
    requires
        0 <= i < models.len(),
    ensures
        accounting::holds_text(
            metrics::spec_render(models),
            shown_failures(models[i].0, reason.spec_label(), models[i].1.failures(reason)),
        ),
{
    accounting::law_every_series_rendered(models, i, Series::Count, reason);
}

/// For each model the rendering shows each counter under the name of what it counts.
pub proof fn law_counters_shown(models: RegistryView, i: int)
    requires
        0 <= i < models.len(),
    ensures
        ({
            let all = metrics::spec_render(models);
            let (name, m) = models[i];
            &&& accounting::holds_text(
                all,
                shown("nv_inference_request_success"@, name, m.request_success),
            )
            &&& accounting::holds_text(all, shown("nv_inference_count"@, name, m.count))
            &&& accounting::holds_text(all, shown("nv_inference_exec_count"@, name, m.exec_count))
            &&& accounting::holds_text(
                all,
                shown("nv_inference_request_duration_us"@, name, m.request_duration_us),
            )
            &&& accounting::holds_text(
                all,
                shown("nv_inference_queue_duration_us"@, name, m.queue_duration_us),
            )
            &&& accounting::holds_text(
                all,
                shown(
                    "nv_inference_compute_input_duration_us"@,
                    name,
                    m.compute_input_duration_us,
                ),
            )
            &&& accounting::holds_text(
                all,
                shown(
                    "nv_inference_compute_infer_duration_us"@,
                    name,
                    m.compute_infer_duration_us,
                ),
            )
            &&& accounting::holds_text(
                all,
                shown(
                    "nv_inference_compute_output_duration_us"@,
                    name,
                    m.compute_output_duration_us,
                ),
            )
            &&& accounting::holds_text(
                all,
                shown("nv_inference_pending_request_count"@, name, m.pending_request_count),
            )
        }),
{
    lemma_shown(models, i, Series::RequestSuccess);
    lemma_shown(models, i, Series::Count);
    lemma_shown(models, i, Series::ExecCount);
    lemma_shown(models, i, Series::RequestDuration);
    lemma_shown(models, i, Series::QueueDuration);
    lemma_shown(models, i, Series::ComputeInputDuration);
    lemma_shown(models, i, Series::ComputeInferDuration);
    lemma_shown(models, i, Series::ComputeOutputDuration);
    lemma_shown(models, i, Series::PendingRequestCount);
}

/// For each model the rendering shows the count of each failure under its reason.
pub proof fn law_failures_shown(models: RegistryView, i: int)
    requires
        0 <= i < models.len(),
    ensures
        ({
            let all = metrics::spec_render(models);
            let (name, m) = models[i];
            &&& accounting::holds_text(all, shown_failures(name, "REJECTED"@, m.rejected))
            &&& accounting::holds_text(all, shown_failures(name, "CANCELED"@, m.canceled))
            &&& accounting::holds_text(all, shown_failures(name, "BACKEND"@, m.backend))
            &&& accounting::holds_text(all, shown_failures(name, "OTHER"@, m.other))
        }),
{
    lemma_shown_failures(models, i, FailureReason::Rejected);
    lemma_shown_failures(models, i, FailureReason::Canceled);
    lemma_shown_failures(models, i, FailureReason::Backend);
    lemma_shown_failures(models, i, FailureReason::Other);
}

} // verus!
