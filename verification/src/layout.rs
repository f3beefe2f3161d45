//! The layout of the rendered metrics, line by line.

use vstd::prelude::*;

use crate::accounting;
use crate::metrics;
use crate::metrics::{FailureReason, ModelMetrics, RegistryView, Series};
use crate::number;
use crate::triton;

verus! {

/// The families in the order of the rendering; `None` stands for the failures.
pub open spec fn family_at(f: int) -> Option<Series> {
    if f == 0 {
        Some(Series::RequestSuccess)
    } else if f == 1 {
        None
    } else if f == 2 {
        Some(Series::Count)
    } else if f == 3 {
        Some(Series::ExecCount)
    } else if f == 4 {
        Some(Series::RequestDuration)
    } else if f == 5 {
        Some(Series::QueueDuration)
    } else if f == 6 {
        Some(Series::ComputeInputDuration)
    } else if f == 7 {
        Some(Series::ComputeInferDuration)
    } else if f == 8 {
        Some(Series::ComputeOutputDuration)
    } else {
        Some(Series::PendingRequestCount)
    }
}

/// The number of families.
pub open spec fn families() -> nat {
    10
}

/// The name of a family.
pub open spec fn family_name(f: int) -> Seq<char> {
    match family_at(f) {
        Some(series) => series.spec_name(),
        None => "nv_inference_request_failure"@,
    }
}

/// Whether a family is a counter or a gauge: only the pending requests are one.
pub open spec fn family_kind(f: int) -> Seq<char> {
    if family_at(f) == Some(Series::PendingRequestCount) {
        "gauge"@
    } else {
        "counter"@
    }
}

/// The help text of a family.
pub open spec fn family_help(f: int) -> Seq<char> {
    match family_at(f) {
        Some(series) => series.spec_help(),
        None => "Number of failed inference requests, all batch sizes"@,
    }
}

/// The reasons in the order of the rendering.
pub open spec fn reason_at(k: int) -> FailureReason {
    if k == 0 {
        FailureReason::Rejected
    } else if k == 1 {
        FailureReason::Canceled
    } else if k == 2 {
        FailureReason::Backend
    } else {
        FailureReason::Other
    }
}

/// A model's sample of a series, without the end of its line.
pub open spec fn sample_line(series: Series, model: (Seq<char>, ModelMetrics)) -> Seq<char> {
    series.spec_name() + "{model=\""@ + metrics::escaped(model.0) + "\",version=\""@
        + triton::MODEL_VERSION@ + "\"} "@ + number::decimal(series.spec_value(model.1) as int)
}

/// A model's failures of one reason, without the end of the line.
pub open spec fn failure_line(reason: FailureReason, model: (Seq<char>, ModelMetrics)) -> Seq<char> {
    "nv_inference_request_failure{model=\""@ + metrics::escaped(model.0) + "\",version=\""@
        + triton::MODEL_VERSION@ + "\",reason=\""@ + reason.spec_label() + "\"} "@
        + number::decimal(model.1.failures(reason) as int)
}

/// The sample lines of a family: model by model, for the failures with four lines
/// each.
pub open spec fn sample_lines(f: int, models: RegistryView) -> Seq<Seq<char>> {
    match family_at(f) {
        Some(series) => Seq::new(models.len(), |m: int| sample_line(series, models[m])),
        None => Seq::new(
            4 * models.len(),
            |k: int| failure_line(reason_at(k % 4), models[k / 4]),
        ),
    }
}

/// The lines of a family: two of comment, then its samples.
pub open spec fn family_lines(f: int, models: RegistryView) -> Seq<Seq<char>> {
    seq![
        "# HELP "@ + family_name(f) + " "@ + family_help(f),
        "# TYPE "@ + family_name(f) + " "@ + family_kind(f),
    ] + sample_lines(f, models)
}

/// The lines of the first `count` families.
pub open spec fn first_families(count: nat, models: RegistryView) -> Seq<Seq<char>>
    decreases count,
{
    if count == 0 {
        Seq::empty()
    } else {
        first_families((count - 1) as nat, models) + family_lines(count - 1, models)
    }
}

/// The lines of the rendering.
pub open spec fn rendered_lines(models: RegistryView) -> Seq<Seq<char>> {
    first_families(families(), models)
}

/// The text of lines that each end with a line feed.
pub open spec fn text_of(lines: Seq<Seq<char>>) -> Seq<char>
    decreases lines.len(),
{
    if lines.len() == 0 {
        Seq::empty()
    } else {
        text_of(lines.drop_last()) + lines.last() + "\n"@
    }
}

/// The place of the first line of a family, with so many models.
pub open spec fn family_start(f: int, models: int) -> int {
    2 * f + models * (if f <= 1 {
        f
    } else {
        f + 3
    })
}

proof fn lemma_text_concat(a: Seq<Seq<char>>, b: Seq<Seq<char>>)
    ensures
        text_of(a + b) == text_of(a) + text_of(b),
    decreases b.len(),
{
    if b.len() == 0 {
        assert(a + b =~= a);
        assert(text_of(a) + text_of(b) =~= text_of(a));
    } else {
        assert((a + b).drop_last() =~= a + b.drop_last());
        assert((a + b).last() == b.last());
        lemma_text_concat(a, b.drop_last());
        assert(text_of(a + b) =~= text_of(a) + text_of(b));
    }
}

proof fn lemma_samples_text(f: int, series: Series, models: RegistryView)
    requires
        family_at(f) == Some(series),
    ensures
        text_of(sample_lines(f, models)) == metrics::samples(series, models),
    decreases models.len(),
{
    let lines = sample_lines(f, models);
    if models.len() > 0 {
        let front = models.drop_last();
        lemma_samples_text(f, series, front);
        assert(lines.drop_last() =~= sample_lines(f, front)) by {
            assert forall|m: int| 0 <= m < front.len() implies #[trigger] lines.drop_last()[m]
                == sample_lines(f, front)[m] by {
                assert(models[m] == front[m]);
            }
        }
        assert(lines.last() == sample_line(series, models.last()));
        assert(metrics::sample(series, models.last()) =~= sample_line(series, models.last())
            + "\n"@);
        assert(text_of(lines) =~= metrics::samples(series, models));
    }
}

proof fn lemma_four_lines(model: (Seq<char>, ModelMetrics))
    ensures
        text_of(
            seq![
                failure_line(FailureReason::Rejected, model),
                failure_line(FailureReason::Canceled, model),
                failure_line(FailureReason::Backend, model),
                failure_line(FailureReason::Other, model),
            ],
        ) == metrics::failure_lines(model),
{
    reveal_with_fuel(text_of, 5);
    let a = failure_line(FailureReason::Rejected, model);
    let b = failure_line(FailureReason::Canceled, model);
    let c = failure_line(FailureReason::Backend, model);
    let d = failure_line(FailureReason::Other, model);
    let four = seq![a, b, c, d];
    assert(four.drop_last() =~= seq![a, b, c]);
    assert(seq![a, b, c].drop_last() =~= seq![a, b]);
    assert(seq![a, b].drop_last() =~= seq![a]);
    assert(seq![a].drop_last() =~= Seq::<Seq<char>>::empty());
    assert(metrics::failure_sample(FailureReason::Rejected, model) =~= a + "\n"@);
    assert(metrics::failure_sample(FailureReason::Canceled, model) =~= b + "\n"@);
    assert(metrics::failure_sample(FailureReason::Backend, model) =~= c + "\n"@);
    assert(metrics::failure_sample(FailureReason::Other, model) =~= d + "\n"@);
    assert(text_of(seq![a]) =~= a + "\n"@);
    assert(text_of(seq![a, b]) =~= (a + "\n"@) + (b + "\n"@));
    assert(text_of(seq![a, b, c]) =~= (a + "\n"@) + (b + "\n"@) + (c + "\n"@));
    assert(text_of(four) =~= metrics::failure_lines(model));
}

proof fn lemma_failures_text(models: RegistryView)
    ensures
        text_of(sample_lines(1, models)) == metrics::failure_samples(models),
    decreases models.len(),
{
    let lines = sample_lines(1, models);
    if models.len() > 0 {
        let front = models.drop_last();
        let last = models.last();
        let n = front.len();
        let four = seq![
            failure_line(FailureReason::Rejected, last),
            failure_line(FailureReason::Canceled, last),
            failure_line(FailureReason::Backend, last),
            failure_line(FailureReason::Other, last),
        ];
        lemma_failures_text(front);
        lemma_four_lines(last);
        assert(lines =~= sample_lines(1, front) + four) by {
            assert forall|k: int| 0 <= k < lines.len() implies #[trigger] lines[k] == (
            sample_lines(1, front) + four)[k] by {
                assert(lines[k] == failure_line(reason_at(k % 4), models[k / 4]));
                if k < 4 * n {
                    assert(k / 4 < n);
                    assert(models[k / 4] == front[k / 4]);
                    assert(sample_lines(1, front)[k] == failure_line(
                        reason_at(k % 4),
                        front[k / 4],
                    ));
                } else {
                    assert(k / 4 == n && k % 4 == k - 4 * n);
                    assert(models[k / 4] == last);
                }
            }
        }
        lemma_text_concat(sample_lines(1, front), four);
    }
}

proof fn lemma_family_text(f: int, models: RegistryView)
    requires
        0 <= f < families(),
    ensures
        text_of(family_lines(f, models)) == match family_at(f) {
            Some(series) => metrics::family_text(series, models),
            None => metrics::failure_family(models),
        },
{
    reveal_with_fuel(text_of, 3);
    let a = "# HELP "@ + family_name(f) + " "@ + family_help(f);
    let b = "# TYPE "@ + family_name(f) + " "@ + family_kind(f);
    let head = seq![a, b];
    assert(head.drop_last() =~= seq![a]);
    assert(seq![a].drop_last() =~= Seq::<Seq<char>>::empty());
    assert(text_of(seq![a]) =~= a + "\n"@);
    assert(text_of(head) =~= metrics::family_head(family_name(f), family_kind(f), family_help(f)));
    lemma_text_concat(head, sample_lines(f, models));
    match family_at(f) {
        Some(series) => {
            lemma_samples_text(f, series, models);
        },
        None => {
            lemma_failures_text(models);
        },
    }
}

proof fn lemma_rendered_text(models: RegistryView)
    ensures
        text_of(rendered_lines(models)) == metrics::spec_render(models),
{
    reveal_with_fuel(first_families, 11);
    lemma_first_text(0, models);
    lemma_first_text(1, models);
    lemma_first_text(2, models);
    lemma_first_text(3, models);
    lemma_first_text(4, models);
    lemma_first_text(5, models);
    lemma_first_text(6, models);
    lemma_first_text(7, models);
    lemma_first_text(8, models);
    lemma_first_text(9, models);
    let success = metrics::family_text(Series::RequestSuccess, models);
    assert(text_of(first_families(0, models)) + success =~= success);
}

proof fn lemma_first_text(f: nat, models: RegistryView)
    requires
        f < families(),
    ensures
        text_of(first_families(f + 1, models)) == text_of(first_families(f, models))
            + match family_at(f as int) {
            Some(series) => metrics::family_text(series, models),
            None => metrics::failure_family(models),
        },
{
    lemma_text_concat(first_families(f, models), family_lines(f as int, models));
    lemma_family_text(f as int, models);
}

proof fn lemma_start(count: nat, models: RegistryView)
    requires
        count <= families(),
    ensures
        first_families(count, models).len() == family_start(count as int, models.len() as int),
    decreases count,
{
    let n = models.len() as int;
    if count > 0 {
        lemma_start((count - 1) as nat, models);
        let f = count - 1;
        let before: int = if f <= 1 {
            f
        } else {
            f + 3
        };
        let after: int = if count <= 1 {
            count as int
        } else {
            (count + 3) as int
        };
        let step = after - before;
        assert(n * after == n * before + n * step) by (nonlinear_arith)
            requires
                step == after - before,
        ;
        if f == 1 {
            assert(n * step == 4 * n) by (nonlinear_arith)
                requires
                    step == 4,
            ;
        } else {
            assert(n * step == n) by (nonlinear_arith)
                requires
                    step == 1,
            ;
        }
    } else {
        assert(n * count == 0) by (nonlinear_arith)
            requires
                count == 0,
        ;
    }
}

proof fn lemma_place(f: int, count: nat, models: RegistryView, j: int)
    requires
        0 <= f < count <= families(),
        0 <= j < family_lines(f, models).len(),
    ensures
        family_start(f, models.len() as int) + j < first_families(count, models).len(),
        first_families(count, models)[family_start(f, models.len() as int) + j] == family_lines(
            f,
            models,
        )[j],
    decreases count,
{
    lemma_start(f as nat, models);
    let before = first_families((count - 1) as nat, models);
    if f < count - 1 {
        lemma_place(f, (count - 1) as nat, models, j);
    }
}

/// Whether the lines of a family stand where they belong: its help, its type, and
/// then its samples model by model in the order of the registry, for the failures
/// four for each model, one for each reason, and one for each model otherwise.
pub open spec fn laid_out(lines: Seq<Seq<char>>, f: int, models: RegistryView) -> bool {
    let start = family_start(f, models.len() as int);
    &&& lines[start] == "# HELP "@ + family_name(f) + " "@ + family_help(f)
    &&& lines[start + 1] == "# TYPE "@ + family_name(f) + " "@ + family_kind(f)
    &&& match family_at(f) {
        Some(series) => forall|m: int|
            0 <= m < models.len() ==> lines[start + 2 + m] == sample_line(
                series,
                #[trigger] models[m],
            ),
        None => forall|m: int, k: int|
            0 <= m < models.len() && 0 <= k < 4 ==> lines[start + 2 + 4 * m + k] == failure_line(
                #[trigger] reason_at(k),
                #[trigger] models[m],
            ),
    }
}

proof fn lemma_laid_out(f: int, models: RegistryView)
    requires
        0 <= f < families(),
    ensures
        laid_out(rendered_lines(models), f, models),
{
    let all = rendered_lines(models);
    let start = family_start(f, models.len() as int);
    lemma_place(f, families(), models, 0);
    lemma_place(f, families(), models, 1);
    match family_at(f) {
        Some(series) => {
            assert forall|m: int| 0 <= m < models.len() implies all[start + 2 + m] == sample_line(
                series,
                #[trigger] models[m],
            ) by {
                lemma_place(f, families(), models, 2 + m);
            }
        },
        None => {
            assert forall|m: int, k: int| 0 <= m < models.len() && 0 <= k < 4 implies all[start + 2
                + 4 * m + k] == failure_line(#[trigger] reason_at(k), #[trigger] models[m]) by {
                lemma_place(f, families(), models, 2 + 4 * m + k);
                assert((4 * m + k) % 4 == k && (4 * m + k) / 4 == m);
            }
        },
    }
}

/// The rendering is laid out in lines that each end with a line feed: twenty, and
/// thirteen more for each model. The ten families stand one behind the other in
/// their order, each laid out in the same way.
pub proof fn law_rendering_layout(models: RegistryView)
    ensures
        metrics::spec_render(models) == text_of(rendered_lines(models)),
        rendered_lines(models).len() == 20 + 13 * models.len(),
        forall|k: int|
            0 <= k < rendered_lines(models).len() ==> !(#[trigger] rendered_lines(
                models,
            )[k]).contains('\n'),
        forall|f: int|
            0 <= f < families() ==> #[trigger] laid_out(rendered_lines(models), f, models),
{
    lemma_rendered_text(models);
    lemma_start(families(), models);
    lemma_first_one_line(families(), models);
    assert forall|f: int| 0 <= f < families() implies #[trigger] laid_out(
        rendered_lines(models),
        f,
        models,
    ) by {
        lemma_laid_out(f, models);
    }
}

proof fn lemma_digits_one_line(n: nat)
    ensures
        !number::digits(n).contains('\n'),
    decreases n,
{
    if n >= 10 {
        lemma_digits_one_line(n / 10);
        let front = number::digits(n / 10);
        let whole = number::digits(n);
        assert forall|k: int| 0 <= k < whole.len() implies #[trigger] whole[k] != '\n' by {
            if k < front.len() {
                assert(front.contains(front[k]));
            }
        }
    }
}

proof fn lemma_one_line_concat(a: Seq<char>, b: Seq<char>)
    requires
        !a.contains('\n'),
        !b.contains('\n'),
    ensures
        !(a + b).contains('\n'),
{
    assert forall|k: int| 0 <= k < (a + b).len() implies #[trigger] (a + b)[k] != '\n' by {
        if k < a.len() {
            assert(a.contains(a[k]));
        } else {
            assert(b.contains(b[k - a.len()]));
        }
    }
}

proof fn lemma_name_one_line(series: Series)
    ensures
        !series.spec_name().contains('\n'),
{
    match series {
        Series::RequestSuccess => reveal_strlit("nv_inference_request_success"),
        Series::Count => reveal_strlit("nv_inference_count"),
        Series::ExecCount => reveal_strlit("nv_inference_exec_count"),
        Series::RequestDuration => reveal_strlit("nv_inference_request_duration_us"),
        Series::QueueDuration => reveal_strlit("nv_inference_queue_duration_us"),
        Series::ComputeInputDuration => reveal_strlit("nv_inference_compute_input_duration_us"),
        Series::ComputeInferDuration => reveal_strlit("nv_inference_compute_infer_duration_us"),
        Series::ComputeOutputDuration => reveal_strlit("nv_inference_compute_output_duration_us"),
        Series::PendingRequestCount => reveal_strlit("nv_inference_pending_request_count"),
    }
}

proof fn lemma_help_one_line(series: Series)
    ensures
        !series.spec_help().contains('\n'),
{
    match series {
        Series::RequestSuccess => {
            reveal_strlit("Number of successful inference requests, all batch sizes")
        },
        Series::Count => {
            reveal_strlit(
                "Number of inferences performed (a batch of \"n\" is counted as \"n\" inferences)",
            )
        },
        Series::ExecCount => reveal_strlit("Number of model executions performed"),
        Series::RequestDuration => {
            reveal_strlit("Cumulative inference request duration in microseconds")
        },
        Series::QueueDuration => {
            reveal_strlit("Cumulative inference queuing duration in microseconds")
        },
        Series::ComputeInputDuration => {
            reveal_strlit("Cumulative compute input duration in microseconds")
        },
        Series::ComputeInferDuration => {
            reveal_strlit("Cumulative compute inference duration in microseconds")
        },
        Series::ComputeOutputDuration => {
            reveal_strlit("Cumulative inference compute output duration in microseconds")
        },
        Series::PendingRequestCount => {
            reveal_strlit("Instantaneous number of pending requests awaiting execution per-model.")
        },
    }
}

proof fn lemma_head_one_line(f: int)
    ensures
        !("# HELP "@ + family_name(f) + " "@ + family_help(f)).contains('\n'),
        !("# TYPE "@ + family_name(f) + " "@ + family_kind(f)).contains('\n'),
{
    match family_at(f) {
        Some(series) => {
            lemma_name_one_line(series);
            lemma_help_one_line(series);
        },
        None => {
            reveal_strlit("nv_inference_request_failure");
            reveal_strlit("Number of failed inference requests, all batch sizes");
        },
    }
    reveal_strlit("# HELP ");
    reveal_strlit("# TYPE ");
    reveal_strlit(" ");
    reveal_strlit("gauge");
    reveal_strlit("counter");
    lemma_one_line_concat("# HELP "@, family_name(f));
    lemma_one_line_concat("# HELP "@ + family_name(f), " "@);
    lemma_one_line_concat("# HELP "@ + family_name(f) + " "@, family_help(f));
    lemma_one_line_concat("# TYPE "@, family_name(f));
    lemma_one_line_concat("# TYPE "@ + family_name(f), " "@);
    lemma_one_line_concat("# TYPE "@ + family_name(f) + " "@, family_kind(f));
}

proof fn lemma_sample_one_line(series: Series, model: (Seq<char>, ModelMetrics))
    ensures
        !sample_line(series, model).contains('\n'),
{
    let label = metrics::escaped(model.0);
    let value = number::decimal(series.spec_value(model.1) as int);
    lemma_name_one_line(series);
    accounting::law_label_read_back(model.0, Seq::empty());
    lemma_digits_one_line(series.spec_value(model.1) as nat);
    reveal_strlit("{model=\"");
    reveal_strlit("\",version=\"");
    reveal_strlit("1");
    reveal_strlit("\"} ");
    let a = series.spec_name() + "{model=\""@;
    let b = a + label;
    let c = b + "\",version=\""@;
    let d = c + triton::MODEL_VERSION@;
    let e = d + "\"} "@;
    lemma_one_line_concat(series.spec_name(), "{model=\""@);
    lemma_one_line_concat(a, label);
    lemma_one_line_concat(b, "\",version=\""@);
    lemma_one_line_concat(c, triton::MODEL_VERSION@);
    lemma_one_line_concat(d, "\"} "@);
    lemma_one_line_concat(e, value);
}

proof fn lemma_failure_one_line(reason: FailureReason, model: (Seq<char>, ModelMetrics))
    ensures
        !failure_line(reason, model).contains('\n'),
{
    let label = metrics::escaped(model.0);
    let value = number::decimal(model.1.failures(reason) as int);
    accounting::law_label_read_back(model.0, Seq::empty());
    lemma_digits_one_line(model.1.failures(reason) as nat);
    reveal_strlit("nv_inference_request_failure{model=\"");
    reveal_strlit("\",version=\"");
    reveal_strlit("1");
    reveal_strlit("\",reason=\"");
    reveal_strlit("\"} ");
    match reason {
        FailureReason::Rejected => reveal_strlit("REJECTED"),
        FailureReason::Canceled => reveal_strlit("CANCELED"),
        FailureReason::Backend => reveal_strlit("BACKEND"),
        FailureReason::Other => reveal_strlit("OTHER"),
    }
    let a = "nv_inference_request_failure{model=\""@ + label;
    let b = a + "\",version=\""@;
    let c = b + triton::MODEL_VERSION@;
    let d = c + "\",reason=\""@;
    let e = d + reason.spec_label();
    let f = e + "\"} "@;
    lemma_one_line_concat("nv_inference_request_failure{model=\""@, label);
    lemma_one_line_concat(a, "\",version=\""@);
    lemma_one_line_concat(b, triton::MODEL_VERSION@);
    lemma_one_line_concat(c, "\",reason=\""@);
    lemma_one_line_concat(d, reason.spec_label());
    lemma_one_line_concat(e, "\"} "@);
    lemma_one_line_concat(f, value);
}

proof fn lemma_family_one_line(f: int, models: RegistryView, j: int)
    requires
        0 <= j < family_lines(f, models).len(),
    ensures
        !family_lines(f, models)[j].contains('\n'),
{
    lemma_head_one_line(f);
    if j >= 2 {
        match family_at(f) {
            Some(series) => {
                lemma_sample_one_line(series, models[j - 2]);
            },
            None => {
                lemma_failure_one_line(reason_at((j - 2) % 4), models[(j - 2) / 4]);
            },
        }
    }
}

proof fn lemma_first_one_line(count: nat, models: RegistryView)
    ensures
        forall|k: int|
            0 <= k < first_families(count, models).len() ==> !(#[trigger] first_families(
                count,
                models,
            )[k]).contains('\n'),
    decreases count,
{
    if count > 0 {
        let before = first_families((count - 1) as nat, models);
        let all = first_families(count, models);
        lemma_first_one_line((count - 1) as nat, models);
        assert forall|k: int| 0 <= k < all.len() implies !(#[trigger] all[k]).contains('\n') by {
            if k < before.len() {
                assert(all[k] == before[k]);
            } else {
                lemma_family_one_line(count - 1, models, k - before.len());
            }
        }
    }
}

} // verus!
