use nereid_server::dtype::{canonical_to_kserve, kserve_fixed_width};
use nereid_server::metrics::{escape_label, micros, InferenceMetrics, TEXT_FORMAT};
use nereid_server::relay::StreamRecord;
use nereid_server::checkpoint::{done_response, text_response};
use nereid_server::status::Status;

fn registry(names: &[&str]) -> InferenceMetrics {
    InferenceMetrics::new(names.iter().map(|n| n.to_string()).collect())
}

/// The value of the series `name{labels}` in rendered text.
fn series(text: &str, name: &str, labels: &str) -> Option<u64> {
    let prefix = format!("{name}{{{labels}}} ");
    text.lines()
        .find_map(|line| line.strip_prefix(&prefix))
        .map(|v| v.parse().expect("integer sample"))
}

const M3: &str = "model=\"model3\",version=\"1\"";

fn failure(metrics: &InferenceMetrics, reason: &str) -> Option<u64> {
    series(
        &metrics.render(),
        "nv_inference_request_failure",
        &format!("{M3},reason=\"{reason}\""),
    )
}

#[test]
fn kserve_and_canonical_round_trip() {
    for dt in [
        "BOOL", "UINT8", "UINT16", "UINT32", "UINT64", "INT8", "INT16", "INT32", "INT64", "FP16",
        "FP32", "FP64", "BF16",
    ] {
        let (size, canonical) = kserve_fixed_width(dt).expect("known datatype");
        let (back, size2) = canonical_to_kserve(canonical).expect("known canonical");
        assert_eq!(back, dt, "round trip for {dt}");
        assert_eq!(size, size2, "size agreement for {dt}");
    }
}

#[test]
fn unknown_and_variable_are_rejected() {
    assert_eq!(
        kserve_fixed_width("BYTES"),
        None,
        "BYTES is variable-length"
    );
    assert_eq!(kserve_fixed_width("NOPE"), None);
    assert_eq!(canonical_to_kserve("string"), None);
}

#[test]
fn widths_of_datatypes() {
    assert_eq!(kserve_fixed_width("FP64"), Some((8, "float64")));
    assert_eq!(kserve_fixed_width("BF16"), Some((2, "bfloat16")));
    assert_eq!(canonical_to_kserve("uint32"), Some(("UINT32", 4)));
    assert_eq!(canonical_to_kserve("bool"), Some(("BOOL", 1)));
}

#[test]
fn renders_every_series_at_zero_for_each_model() {
    let metrics = registry(&["model3", "pymul"]);
    let text = metrics.render();
    for name in [
        "nv_inference_request_success",
        "nv_inference_count",
        "nv_inference_exec_count",
        "nv_inference_request_duration_us",
        "nv_inference_queue_duration_us",
        "nv_inference_compute_input_duration_us",
        "nv_inference_compute_infer_duration_us",
        "nv_inference_compute_output_duration_us",
        "nv_inference_pending_request_count",
    ] {
        assert!(
            text.contains(&format!("# TYPE {name} ")),
            "missing TYPE line for {name}"
        );
        assert_eq!(series(&text, name, M3), Some(0), "{name} for model3");
        assert_eq!(
            series(&text, name, "model=\"pymul\",version=\"1\""),
            Some(0),
            "{name} for pymul"
        );
    }
    assert!(text.contains("# TYPE nv_inference_request_failure counter"));
    for reason in ["REJECTED", "CANCELED", "BACKEND", "OTHER"] {
        assert_eq!(
            series(
                &text,
                "nv_inference_request_failure",
                &format!("{M3},reason=\"{reason}\"")
            ),
            Some(0),
            "failure reason {reason} must be pre-registered"
        );
    }
    assert!(text.contains("# TYPE nv_inference_pending_request_count gauge"));
}

#[test]
fn success_commits_counts_and_durations() {
    let mut metrics = registry(&["model3"]);
    let mut timer = metrics.begin("model3", 0).expect("registered model");
    assert_eq!(
        series(&metrics.render(), "nv_inference_pending_request_count", M3),
        Some(1),
        "pending while in flight"
    );
    timer.input_ready(2_000);
    timer.executed(&mut metrics, 7_000, 1_500_000, 4, 1_509_000);
    assert_eq!(
        series(&metrics.render(), "nv_inference_pending_request_count", M3),
        Some(0),
        "no longer pending once executing"
    );
    timer.succeed(&mut metrics, 1_512_000);

    let text = metrics.render();
    assert_eq!(series(&text, "nv_inference_request_success", M3), Some(1));
    assert_eq!(
        series(&text, "nv_inference_count", M3),
        Some(4),
        "batch of 4"
    );
    assert_eq!(series(&text, "nv_inference_exec_count", M3), Some(1));
    assert_eq!(series(&text, "nv_inference_queue_duration_us", M3), Some(7));
    assert_eq!(
        series(&text, "nv_inference_compute_infer_duration_us", M3),
        Some(1500)
    );
    assert!(
        series(&text, "nv_inference_compute_output_duration_us", M3).is_some(),
        "output phase is recorded"
    );
    for reason in ["REJECTED", "CANCELED", "BACKEND", "OTHER"] {
        assert_eq!(
            series(
                &text,
                "nv_inference_request_failure",
                &format!("{M3},reason=\"{reason}\"")
            ),
            Some(0)
        );
    }
    assert_eq!(
        series(&text, "nv_inference_compute_input_duration_us", M3),
        Some(2)
    );
    assert_eq!(
        series(&text, "nv_inference_compute_output_duration_us", M3),
        Some(3)
    );
    assert_eq!(
        series(&text, "nv_inference_request_duration_us", M3),
        Some(1512)
    );
}

#[test]
fn failures_are_classified_by_reason() {
    let mut metrics = registry(&["model3"]);

    let timer = metrics.begin("model3", 0).unwrap();
    timer.fail(&mut metrics, &Status::invalid_argument("bad shape".to_string()));
    assert_eq!(failure(&metrics, "OTHER"), Some(1));

    let timer = metrics.begin("model3", 0).unwrap();
    timer.fail(
        &mut metrics,
        &Status::resource_exhausted("queue full".to_string()),
    );
    assert_eq!(failure(&metrics, "REJECTED"), Some(1));

    let timer = metrics.begin("model3", 0).unwrap();
    timer.fail(
        &mut metrics,
        &Status::internal("model returned 2 outputs".to_string()),
    );
    assert_eq!(failure(&metrics, "BACKEND"), Some(1));

    // A pinned reason wins over the status code.
    let mut timer = metrics.begin("model3", 0).unwrap();
    timer.backend_failed();
    timer.fail(
        &mut metrics,
        &Status::invalid_argument("backend rejected dtype".to_string()),
    );
    assert_eq!(failure(&metrics, "BACKEND"), Some(2));

    // Giving up an unfinished request is a cancellation, even when a reason was
    // pinned: the pin only takes effect through an explicit `fail`.
    let dropped = metrics.begin("model3", 0).unwrap();
    dropped.cancel(&mut metrics);
    assert_eq!(failure(&metrics, "CANCELED"), Some(1));
    let mut pinned_then_dropped = metrics.begin("model3", 0).unwrap();
    pinned_then_dropped.backend_failed();
    pinned_then_dropped.cancel(&mut metrics);
    assert_eq!(failure(&metrics, "CANCELED"), Some(2));
    assert_eq!(failure(&metrics, "BACKEND"), Some(2), "the pin was not committed");

    let text = metrics.render();
    assert_eq!(series(&text, "nv_inference_request_success", M3), Some(0));
    assert_eq!(series(&text, "nv_inference_count", M3), Some(0));
    assert_eq!(
        series(&text, "nv_inference_pending_request_count", M3),
        Some(0),
        "every failure path must release its pending slot"
    );
}

#[test]
fn unknown_model_has_no_timer() {
    let mut metrics = registry(&["model3"]);
    assert!(metrics.begin("ghost", 0).is_none());
}

#[test]
fn label_values_are_escaped() {
    let metrics = registry(&["we\"ird\\name"]);
    let text = metrics.render();
    assert!(
        text.contains("nv_inference_request_success{model=\"we\\\"ird\\\\name\",version=\"1\"} 0"),
        "{text}"
    );
}

#[test]
fn labels_keep_their_value() {
    assert_eq!(escape_label("a\nb"), "a\\nb");
    assert_eq!(escape_label("plain"), "plain");
    assert_eq!(TEXT_FORMAT, "text/plain; version=0.0.4; charset=utf-8");
}

#[test]
fn microseconds_are_whole_and_bounded() {
    assert_eq!(micros(1_999), 1);
    assert_eq!(micros(0), 0);
}

#[test]
fn a_request_without_a_batch_counts_one_inference() {
    let mut metrics = registry(&["model3"]);
    let mut timer = metrics.begin("model3", 0).unwrap();
    timer.executed(&mut metrics, 0, 0, 0, 0);
    timer.succeed(&mut metrics, 0);
    assert_eq!(
        series(&metrics.render(), "nv_inference_count", M3),
        Some(1)
    );
}

#[test]
fn a_relayed_stream_is_recorded_once() {
    let mut metrics = registry(&["model3"]);

    // A done with exit code 0 is a success, and its whole span is the model's.
    let timer = metrics.begin("model3", 1_000).unwrap();
    let mut record = StreamRecord::new();
    record.saw(&Ok(text_response("line".to_string())));
    record.saw(&Ok(done_response(0)));
    record.settle(timer, &mut metrics, 2, 6_000);
    let text = metrics.render();
    assert_eq!(series(&text, "nv_inference_request_success", M3), Some(1));
    assert_eq!(series(&text, "nv_inference_count", M3), Some(2));
    assert_eq!(
        series(&text, "nv_inference_compute_infer_duration_us", M3),
        Some(5)
    );

    // A non-zero exit and an error status are the model's failures.
    let timer = metrics.begin("model3", 0).unwrap();
    let mut record = StreamRecord::new();
    record.saw(&Ok(done_response(3)));
    record.settle(timer, &mut metrics, 1, 0);
    assert_eq!(failure(&metrics, "BACKEND"), Some(1));
    let timer = metrics.begin("model3", 0).unwrap();
    let mut record = StreamRecord::new();
    record.saw(&Err(Status::failed_precondition("no tensor".to_string())));
    record.settle(timer, &mut metrics, 1, 0);
    assert_eq!(failure(&metrics, "BACKEND"), Some(2));

    // A client that stops reading cancels, and so an unfinished stream fails.
    let timer = metrics.begin("model3", 0).unwrap();
    let mut record = StreamRecord::new();
    record.saw(&Ok(done_response(0)));
    record.client_left();
    record.settle(timer, &mut metrics, 1, 0);
    assert_eq!(failure(&metrics, "CANCELED"), Some(1));
    let timer = metrics.begin("model3", 0).unwrap();
    StreamRecord::new().settle(timer, &mut metrics, 1, 0);
    assert_eq!(failure(&metrics, "BACKEND"), Some(3));
    assert_eq!(
        series(&metrics.render(), "nv_inference_pending_request_count", M3),
        Some(0)
    );
}

#[test]
fn the_rendering_is_laid_out_family_by_family() {
    let mut metrics = registry(&["a", "two\nlines"]);
    metrics.begin("a", 0).unwrap().fail(&mut metrics, &Status::internal("x".to_string()));
    let text = metrics.render();
    assert_eq!(text.matches('\n').count(), 20 + 13 * 2);
    assert!(text.ends_with('\n'));
    let lines: Vec<&str> = text.lines().collect();
    assert_eq!(lines[0], "# HELP nv_inference_request_success Number of successful inference requests, all batch sizes");
    assert_eq!(lines[1], "# TYPE nv_inference_request_success counter");
    assert_eq!(lines[3], "nv_inference_request_success{model=\"two\\nlines\",version=\"1\"} 0");
    assert_eq!(lines[4], "# HELP nv_inference_request_failure Number of failed inference requests, all batch sizes");
    let reasons = ["REJECTED", "CANCELED", "BACKEND", "OTHER"];
    for (k, reason) in reasons.iter().enumerate() {
        let count = u64::from(*reason == "BACKEND");
        let labels = format!("{{model=\"a\",version=\"1\",reason=\"{reason}\"}} {count}");
        assert_eq!(lines[6 + k], format!("nv_inference_request_failure{labels}"));
    }
    let kinds: Vec<&str> = lines.iter().filter(|l| l.starts_with("# TYPE ")).copied().collect();
    assert_eq!(kinds.len(), 10);
    assert_eq!(kinds.iter().filter(|l| l.ends_with(" gauge")).count(), 1);
    assert_eq!(kinds[9], "# TYPE nv_inference_pending_request_count gauge");
    assert_eq!(registry(&[]).render().matches('\n').count(), 20);
}

#[test]
fn requests_that_are_open_at_once_are_each_counted_once() {
    let mut metrics = registry(&["model3", "other"]);
    let pending = |metrics: &InferenceMetrics| {
        series(&metrics.render(), "nv_inference_pending_request_count", M3)
    };
    let mut first = metrics.begin("model3", 0).unwrap();
    let second = metrics.begin("model3", 1).unwrap();
    let mut third = metrics.begin("model3", 2).unwrap();
    let fourth = metrics.begin("other", 3).unwrap();
    assert_eq!(pending(&metrics), Some(3));
    third.executed(&mut metrics, 0, 5, 1, 6);
    third.executed(&mut metrics, 0, 5, 1, 7);
    assert_eq!(pending(&metrics), Some(2));
    first.executed(&mut metrics, 0, 5, 2, 8);
    first.succeed(&mut metrics, 9);
    fourth.cancel(&mut metrics);
    second.fail(&mut metrics, &Status::invalid_argument("bad".to_string()));
    assert_eq!(pending(&metrics), Some(0));
    assert_eq!(series(&metrics.render(), "nv_inference_request_success", M3), Some(1));
    assert_eq!(failure(&metrics, "OTHER"), Some(1));
    third.cancel(&mut metrics);
    assert_eq!(failure(&metrics, "CANCELED"), Some(1));
    assert_eq!(failure(&metrics, "BACKEND"), Some(0));
    assert_eq!(failure(&metrics, "REJECTED"), Some(0));
    let other = "model=\"other\",version=\"1\"";
    let canceled = format!("{other},reason=\"CANCELED\"");
    assert_eq!(series(&metrics.render(), "nv_inference_request_failure", &canceled), Some(1));
    assert_eq!(series(&metrics.render(), "nv_inference_pending_request_count", other), Some(0));
}
