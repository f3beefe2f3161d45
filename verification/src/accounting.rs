//! What the request accounting of [`crate::metrics`] guarantees over the life of
//! a request, and what its rendering guarantees to whoever reads it.

use vstd::prelude::*;

use crate::metrics;
use crate::metrics::{FailureReason, ModelMetrics, RegistryView, Series, TimerView};
use crate::status::Code;

verus! {

/// What may be marked on a request between its begin and its end.
pub enum Mark {
    InputReady { now: u128 },
    Executed { queue: u128, infer: u128, batch: u64, now: u128 },
    BackendFailed,
}

/// How a request may end.
pub enum End {
    Succeed { now: u128 },
    Fail { code: Code },
    Cancel,
}

/// The timer after a mark.
pub open spec fn marked(timer: TimerView, mark: Mark) -> TimerView {
    match mark {
        Mark::InputReady { now } => timer.after_input(now),
        Mark::Executed { queue, infer, batch, now } => timer.after_execution(
            queue,
            infer,
            batch,
            now,
        ),
        Mark::BackendFailed => timer.after_backend_failure(),
    }
}

/// The model's counters after a mark.
pub open spec fn counted(counters: ModelMetrics, timer: TimerView, mark: Mark) -> ModelMetrics {
    match mark {
        Mark::Executed { .. } => counters.without_pending(timer.pending),
        _ => counters,
    }
}

/// The model's counters and the timer after the given marks.
pub open spec fn after_marks(counters: ModelMetrics, timer: TimerView, marks: Seq<Mark>) -> (
    ModelMetrics,
    TimerView,
)
    decreases marks.len(),
{
    if marks.len() == 0 {
        (counters, timer)
    } else {
        let (m, t) = after_marks(counters, timer, marks.drop_last());
        (counted(m, t, marks.last()), marked(t, marks.last()))
    }
}

/// The model's counters after the end of the request.
pub open spec fn ended(counters: ModelMetrics, timer: TimerView, end: End) -> ModelMetrics {
    match end {
        End::Succeed { now } => timer.committed(counters, now),
        End::Fail { code } => timer.failed(counters, timer.reason_for(code)),
        End::Cancel => timer.failed(counters, FailureReason::Canceled),
    }
}

/// The model's counters after a whole request, from its begin to its end.
pub open spec fn after_request(
    counters: ModelMetrics,
    model: int,
    begin: u128,
    marks: Seq<Mark>,
    end: End,
) -> ModelMetrics {
    let (m, t) = after_marks(counters.with_pending(), metrics::opened(model, begin), marks);
    ended(m, t, end)
}

/// The counters apart from the pending gauge.
spec fn apart_from_pending(m: ModelMetrics) -> ModelMetrics {
    ModelMetrics { pending_request_count: 0, ..m }
}

proof fn lemma_marks(counters: ModelMetrics, timer: TimerView, marks: Seq<Mark>)
    requires
        timer.pending,
    ensures
        ({
            let (m, t) = after_marks(counters, timer, marks);
            &&& apart_from_pending(m) == apart_from_pending(counters)
            &&& m.pending_request_count == if t.pending {
                counters.pending_request_count
            } else {
                counters.pending_request_count.wrapping_sub(1)
            }
        }),
    decreases marks.len(),
{
    if marks.len() > 0 {
        lemma_marks(counters, timer, marks.drop_last());
    }
}

/// A request is counted exactly once, as a success or as a failure for one
/// reason, and its pending slot is given back, whatever was marked on it and
/// however it ends.
pub proof fn law_counted_exactly_once(
    counters: ModelMetrics,
    model: int,
    begin: u128,
    marks: Seq<Mark>,
    end: End,
)
    ensures
        ({
            let after = after_request(counters, model, begin, marks, end);
            &&& after.pending_request_count == counters.pending_request_count
            &&& match end {
                End::Succeed { .. } => {
                    &&& after.request_success == counters.request_success.wrapping_add(1)
                    &&& forall|reason: FailureReason|
                        #[trigger] after.failures(reason) == counters.failures(reason)
                },
                _ => {
                    &&& after.request_success == counters.request_success
                    &&& exists|reason: FailureReason|
                        {
                            &&& #[trigger] after.failures(reason) == counters.failures(
                                reason,
                            ).wrapping_add(1)
                            &&& forall|other: FailureReason|
                                other != reason ==> #[trigger] after.failures(other)
                                    == counters.failures(other)
                        }
                },
            }
        }),
{
    let timer = metrics::opened(model, begin);
    lemma_marks(counters.with_pending(), timer, marks);
    let (m, t) = after_marks(counters.with_pending(), timer, marks);
    let after = after_request(counters, model, begin, marks, end);
    match end {
        End::Succeed { .. } => {},
        End::Fail { code } => {
            let reason = t.reason_for(code);
            assert(after.failures(reason) == counters.failures(reason).wrapping_add(1));
        },
        End::Cancel => {
            let reason = FailureReason::Canceled;
            assert(after.failures(reason) == counters.failures(reason).wrapping_add(1));
        },
    }
}

/// A request that fails adds nothing to the inference counts and durations:
/// those accumulate for successful requests only.
pub proof fn law_failures_commit_nothing(
    counters: ModelMetrics,
    model: int,
    begin: u128,
    marks: Seq<Mark>,
    end: End,
)
    requires
        !(end is Succeed),
    ensures
        ({
            let after = after_request(counters, model, begin, marks, end);
            &&& after.count == counters.count
            &&& after.exec_count == counters.exec_count
            &&& after.request_duration_us == counters.request_duration_us
            &&& after.queue_duration_us == counters.queue_duration_us
            &&& after.compute_input_duration_us == counters.compute_input_duration_us
            &&& after.compute_infer_duration_us == counters.compute_infer_duration_us
            &&& after.compute_output_duration_us == counters.compute_output_duration_us
        }),
{
    lemma_marks(counters.with_pending(), metrics::opened(model, begin), marks);
}

/// A reason pinned on the model wins over the code of the failure, but not over
/// a cancellation.
pub proof fn law_pinned_reason(timer: TimerView, code: Code, counters: ModelMetrics)
    ensures
        timer.after_backend_failure().reason_for(code) == FailureReason::Backend,
        ended(counters, timer.after_backend_failure(), End::Cancel) == timer.failed(
            counters,
            FailureReason::Canceled,
        ),
{
}

/// A successful request that ran once with a batch of `batch` adds that many
/// inferences, at least one, and one execution.
pub proof fn law_batch_counts(
    counters: ModelMetrics,
    model: int,
    begin: u128,
    input: u128,
    queue: u128,
    infer: u128,
    batch: u64,
    ran: u128,
    end: u128,
)
    ensures
        ({
            let marks = seq![
                Mark::InputReady { now: input },
                Mark::Executed { queue, infer, batch, now: ran },
            ];
            let after = after_request(counters, model, begin, marks, End::Succeed { now: end });
            &&& after.count == counters.count.wrapping_add(
                if batch > 1 {
                    batch
                } else {
                    1
                },
            )
            &&& after.exec_count == counters.exec_count.wrapping_add(1)
        }),
{
    reveal_with_fuel(after_marks, 3);
    let marks = seq![
        Mark::InputReady { now: input },
        Mark::Executed { queue, infer, batch, now: ran },
    ];
    assert(marks.drop_last() =~= seq![Mark::InputReady { now: input }]);
    assert(marks.drop_last().drop_last() =~= Seq::<Mark>::empty());
}

/// Whether `part` stands somewhere in `whole`.
pub open spec fn holds_text(whole: Seq<char>, part: Seq<char>) -> bool {
    exists|before: Seq<char>, after: Seq<char>| whole == #[trigger] (before + part + after)
}

proof fn lemma_holds_left(a: Seq<char>, b: Seq<char>, part: Seq<char>)
    requires
        holds_text(a, part),
    ensures
        holds_text(a + b, part),
{
    let (before, after) = choose|before: Seq<char>, after: Seq<char>|
        a == #[trigger] (before + part + after);
    assert(a + b =~= before + part + (after + b));
}

proof fn lemma_holds_right(a: Seq<char>, b: Seq<char>, part: Seq<char>)
    requires
        holds_text(b, part),
    ensures
        holds_text(a + b, part),
{
    let (before, after) = choose|before: Seq<char>, after: Seq<char>|
        b == #[trigger] (before + part + after);
    assert(a + b =~= (a + before) + part + after);
}

proof fn lemma_holds_self(part: Seq<char>)
    ensures
        holds_text(part, part),
{
    assert(part =~= Seq::<char>::empty() + part + Seq::<char>::empty());
}

proof fn lemma_samples_hold(series: Series, models: RegistryView, i: int)
    requires
        0 <= i < models.len(),
    ensures
        holds_text(metrics::samples(series, models), metrics::sample(series, models[i])),
    decreases models.len(),
{
    let line = metrics::sample(series, models[i]);
    if i == models.len() - 1 {
        lemma_holds_self(line);
        lemma_holds_right(metrics::samples(series, models.drop_last()), line, line);
    } else {
        lemma_samples_hold(series, models.drop_last(), i);
        lemma_holds_left(
            metrics::samples(series, models.drop_last()),
            metrics::sample(series, models.last()),
            line,
        );
    }
}

proof fn lemma_failure_lines_hold(model: (Seq<char>, ModelMetrics), reason: FailureReason)
    ensures
        holds_text(metrics::failure_lines(model), metrics::failure_sample(reason, model)),
{
    let line = metrics::failure_sample(reason, model);
    let a = metrics::failure_sample(FailureReason::Rejected, model);
    let b = metrics::failure_sample(FailureReason::Canceled, model);
    let c = metrics::failure_sample(FailureReason::Backend, model);
    let d = metrics::failure_sample(FailureReason::Other, model);
    lemma_holds_self(line);
    match reason {
        FailureReason::Rejected => {
            lemma_holds_left(a, b, line);
            lemma_holds_left(a + b, c, line);
            lemma_holds_left(a + b + c, d, line);
        },
        FailureReason::Canceled => {
            lemma_holds_right(a, b, line);
            lemma_holds_left(a + b, c, line);
            lemma_holds_left(a + b + c, d, line);
        },
        FailureReason::Backend => {
            lemma_holds_right(a + b, c, line);
            lemma_holds_left(a + b + c, d, line);
        },
        FailureReason::Other => {
            lemma_holds_right(a + b + c, d, line);
        },
    }
}

proof fn lemma_failure_samples_hold(models: RegistryView, i: int, reason: FailureReason)
    requires
        0 <= i < models.len(),
    ensures
        holds_text(
            metrics::failure_samples(models),
            metrics::failure_sample(reason, models[i]),
        ),
    decreases models.len(),
{
    let line = metrics::failure_sample(reason, models[i]);
    if i == models.len() - 1 {
        lemma_failure_lines_hold(models.last(), reason);
        lemma_holds_right(
            metrics::failure_samples(models.drop_last()),
            metrics::failure_lines(models.last()),
            line,
        );
    } else {
        lemma_failure_samples_hold(models.drop_last(), i, reason);
        lemma_holds_left(
            metrics::failure_samples(models.drop_last()),
            metrics::failure_lines(models.last()),
            line,
        );
    }
}

proof fn lemma_family_in_render(models: RegistryView, series: Series, part: Seq<char>)
    requires
        holds_text(metrics::family_text(series, models), part),
    ensures
        holds_text(metrics::spec_render(models), part),
{
    let a = metrics::family_text(Series::RequestSuccess, models);
    let b = metrics::failure_family(models);
    let c = metrics::family_text(Series::Count, models);
    let d = metrics::family_text(Series::ExecCount, models);
    let e = metrics::family_text(Series::RequestDuration, models);
    let f = metrics::family_text(Series::QueueDuration, models);
    let g = metrics::family_text(Series::ComputeInputDuration, models);
    let h = metrics::family_text(Series::ComputeInferDuration, models);
    let i = metrics::family_text(Series::ComputeOutputDuration, models);
    let j = metrics::family_text(Series::PendingRequestCount, models);
    match series {
        Series::RequestSuccess => {
            lemma_holds_left(a, b, part);
        },
        Series::Count => {
            lemma_holds_right(a + b, c, part);
        },
        Series::ExecCount => {
            lemma_holds_right(a + b + c, d, part);
        },
        Series::RequestDuration => {
            lemma_holds_right(a + b + c + d, e, part);
        },
        Series::QueueDuration => {
            lemma_holds_right(a + b + c + d + e, f, part);
        },
        Series::ComputeInputDuration => {
            lemma_holds_right(a + b + c + d + e + f, g, part);
        },
        Series::ComputeInferDuration => {
            lemma_holds_right(a + b + c + d + e + f + g, h, part);
        },
        Series::ComputeOutputDuration => {
            lemma_holds_right(a + b + c + d + e + f + g + h, i, part);
        },
        Series::PendingRequestCount => {
            lemma_holds_right(a + b + c + d + e + f + g + h + i, j, part);
        },
    }
    if holds_text(a + b, part) {
        lemma_holds_left(a + b, c, part);
    }
    if holds_text(a + b + c, part) {
        lemma_holds_left(a + b + c, d, part);
    }
    if holds_text(a + b + c + d, part) {
        lemma_holds_left(a + b + c + d, e, part);
    }
    if holds_text(a + b + c + d + e, part) {
        lemma_holds_left(a + b + c + d + e, f, part);
    }
    if holds_text(a + b + c + d + e + f, part) {
        lemma_holds_left(a + b + c + d + e + f, g, part);
    }
    if holds_text(a + b + c + d + e + f + g, part) {
        lemma_holds_left(a + b + c + d + e + f + g, h, part);
    }
    if holds_text(a + b + c + d + e + f + g + h, part) {
        lemma_holds_left(a + b + c + d + e + f + g + h, i, part);
    }
    if holds_text(a + b + c + d + e + f + g + h + i, part) {
        lemma_holds_left(a + b + c + d + e + f + g + h + i, j, part);
    }
}

proof fn lemma_failures_in_render(models: RegistryView, part: Seq<char>)
    requires
        holds_text(metrics::failure_family(models), part),
    ensures
        holds_text(metrics::spec_render(models), part),
{
    let a = metrics::family_text(Series::RequestSuccess, models);
    let b = metrics::failure_family(models);
    let c = metrics::family_text(Series::Count, models);
    let d = metrics::family_text(Series::ExecCount, models);
    let e = metrics::family_text(Series::RequestDuration, models);
    let f = metrics::family_text(Series::QueueDuration, models);
    let g = metrics::family_text(Series::ComputeInputDuration, models);
    let h = metrics::family_text(Series::ComputeInferDuration, models);
    let i = metrics::family_text(Series::ComputeOutputDuration, models);
    let j = metrics::family_text(Series::PendingRequestCount, models);
    lemma_holds_right(a, b, part);
    lemma_holds_left(a + b, c, part);
    lemma_holds_left(a + b + c, d, part);
    lemma_holds_left(a + b + c + d, e, part);
    lemma_holds_left(a + b + c + d + e, f, part);
    lemma_holds_left(a + b + c + d + e + f, g, part);
    lemma_holds_left(a + b + c + d + e + f + g, h, part);
    lemma_holds_left(a + b + c + d + e + f + g + h, i, part);
    lemma_holds_left(a + b + c + d + e + f + g + h + i, j, part);
}

/// The rendering holds, for every registered model, a sample of every series
/// and of every failure reason, whether or not a request was ever made.
pub proof fn law_every_series_rendered(
    models: RegistryView,
    i: int,
    series: Series,
    reason: FailureReason,
)
    requires
        0 <= i < models.len(),
    ensures
        holds_text(metrics::spec_render(models), metrics::sample(series, models[i])),
        holds_text(metrics::spec_render(models), metrics::failure_sample(reason, models[i])),
{
    let head = metrics::family_head(series.spec_name(), series.spec_kind(), series.spec_help());
    lemma_samples_hold(series, models, i);
    lemma_holds_right(
        head,
        metrics::samples(series, models),
        metrics::sample(series, models[i]),
    );
    lemma_family_in_render(models, series, metrics::sample(series, models[i]));
    let failure_head = metrics::family_head(
        "nv_inference_request_failure"@,
        "counter"@,
        "Number of failed inference requests, all batch sizes"@,
    );
    lemma_failure_samples_hold(models, i, reason);
    lemma_holds_right(
        failure_head,
        metrics::failure_samples(models),
        metrics::failure_sample(reason, models[i]),
    );
    lemma_failures_in_render(models, metrics::failure_sample(reason, models[i]));
}

/// Where a reader of a label value that starts at the beginning of `s` finds the
/// quote that ends it: the first one that no backslash escapes.
pub open spec fn closing_quote(s: Seq<char>) -> nat
    decreases s.len(),
{
    if s.len() == 0 || s[0] == '"' {
        0
    } else if s[0] == '\\' && s.len() >= 2 {
        2 + closing_quote(s.skip(2))
    } else {
        1 + closing_quote(s.skip(1))
    }
}

/// What a reader makes of a label value: each escape stands for its character.
pub open spec fn unescaped(s: Seq<char>) -> Seq<char>
    decreases s.len(),
{
    if s.len() == 0 {
        Seq::empty()
    } else if s[0] == '\\' && s.len() >= 2 {
        seq![
            if s[1] == 'n' {
                '\n'
            } else {
                s[1]
            },
        ] + unescaped(s.skip(2))
    } else {
        seq![s[0]] + unescaped(s.skip(1))
    }
}

proof fn lemma_escaped_first(value: Seq<char>)
    requires
        value.len() > 0,
    ensures
        metrics::escaped(value) == metrics::escaped_char(value[0]) + metrics::escaped(
            value.skip(1),
        ),
    decreases value.len(),
{
    if value.len() == 1 {
        assert(value.drop_last() =~= Seq::<char>::empty());
        assert(value.skip(1) =~= Seq::<char>::empty());
        assert(metrics::escaped(value) =~= metrics::escaped_char(value[0]) + metrics::escaped(
            value.skip(1),
        ));
    } else {
        lemma_escaped_first(value.drop_last());
        assert(value.drop_last().skip(1) =~= value.skip(1).drop_last());
        assert(value.skip(1).last() == value.last());
        assert(metrics::escaped(value) =~= metrics::escaped_char(value[0]) + metrics::escaped(
            value.skip(1),
        ));
    }
}

/// A label value is read back as it was, whatever characters it holds, and ends
/// where its own closing quote stands: no model name corrupts the rendering.
/// The escaped value holds no line feed.
pub proof fn law_label_read_back(value: Seq<char>, rest: Seq<char>)
    ensures
        unescaped(metrics::escaped(value)) == value,
        closing_quote(metrics::escaped(value) + seq!['"'] + rest) == metrics::escaped(value).len(),
        !metrics::escaped(value).contains('\n'),
    decreases value.len(),
{
    let whole = metrics::escaped(value) + seq!['"'] + rest;
    if value.len() == 0 {
        assert(whole[0] == '"');
        assert(unescaped(metrics::escaped(value)) =~= value);
    } else {
        let tail = value.skip(1);
        let head = metrics::escaped_char(value[0]);
        law_label_read_back(tail, rest);
        lemma_escaped_first(value);
        let e = metrics::escaped(value);
        let n = head.len() as int;
        assert(e.skip(n) =~= metrics::escaped(tail));
        assert(whole.skip(n) =~= metrics::escaped(tail) + seq!['"'] + rest);
        assert(e[0] == head[0]);
        assert(unescaped(e) =~= seq![value[0]] + unescaped(metrics::escaped(tail)));
        assert(seq![value[0]] + tail =~= value);
        assert forall|k: int| 0 <= k < e.len() implies e[k] != '\n' by {
            if k >= n {
                assert(e[k] == metrics::escaped(tail)[k - n]);
                assert(metrics::escaped(tail).contains(metrics::escaped(tail)[k - n]));
            }
        }
    }
}

} // verus!
