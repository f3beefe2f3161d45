use nereid_server::checkpoint::{
    chunk_tensor, collect_input_tensor, stream_outputs, CheckpointResponse, Payload, TensorChunk,
    OUTPUT_CHUNK_BYTES,
};
use nereid_server::child::{plan_child, TensorInput};
use nereid_server::contract::Contract;
use nereid_server::manager::{Execution, LoadedModel, ModelManager, Permit};
use nereid_server::metrics::RequestTimer;
use nereid_server::python::{
    finish_script, python_command, script_batch, stream_line, ScriptEnd,
};
use nereid_server::relay::StreamRecord;
use nereid_server::service::{health_status, open_checkpoint, unread_status};
use nereid_server::status::{Code, Status};
use nereid_server::tensor::Tensor;
use nereid_server::textproto::TextFile;

fn contract(contents: &str) -> Contract {
    Contract::parse(&TextFile {
        path: "m/model_inference.textproto".to_string(),
        contents: Ok(contents.to_string()),
    })
    .expect("contract")
}

fn serve(name: &str, contents: &str) -> ModelManager {
    ModelManager::new(vec![LoadedModel {
        name: name.to_string(),
        contract: contract(contents),
        platform: "test".to_string(),
        queue_capacity: 4,
    }])
}

const MODEL3: &str = "input_shape: [16]\nmax_batch_size: 10\n";
const STDIN: &str = "input_shape: [16]\nmax_batch_size: 10\noutput_shape: [1]\n";

fn meta(model_name: &str) -> Option<Payload> {
    Some(Payload::Meta {
        model_name: model_name.to_string(),
    })
}

fn tensor_chunk(shape: Vec<i64>, data: Vec<u8>, end_of_tensor: bool) -> Option<Payload> {
    Some(Payload::Chunk(TensorChunk {
        tensor_name: "input".to_string(),
        shape,
        data,
        chunk_index: 0,
        end_of_tensor,
    }))
}

fn f32_le_bytes(values: &[f32]) -> Vec<u8> {
    values.iter().flat_map(|v| v.to_le_bytes()).collect()
}

fn f32_values(bytes: &[u8]) -> Vec<f32> {
    bytes
        .chunks_exact(4)
        .map(|c| f32::from_le_bytes([c[0], c[1], c[2], c[3]]))
        .collect()
}

/// The full response of a checkpoint call, flattened across the stream.
#[derive(Debug, Default)]
struct Collected {
    lines: Vec<String>,
    output_bytes: Vec<u8>,
    output_shape: Option<Vec<i64>>,
    saw_output_chunk: bool,
    saw_done: bool,
    exit_code: i32,
}

fn collect(messages: Vec<CheckpointResponse>) -> Collected {
    let mut collected = Collected::default();
    for resp in messages {
        if !resp.chunk.is_empty() {
            collected.lines.push(resp.chunk);
        }
        if let Some(chunk) = resp.output_chunk {
            collected.saw_output_chunk = true;
            collected.output_shape = Some(chunk.shape);
            collected.output_bytes.extend_from_slice(&chunk.data);
        }
        if resp.done {
            collected.saw_done = true;
            collected.exit_code = resp.exit_code;
        }
    }
    collected
}

/// Receives the messages of a request.
fn receive(
    manager: &mut ModelManager,
    messages: Vec<Option<Payload>>,
) -> Result<(String, Option<Tensor>, RequestTimer, Permit), Status> {
    let mut stream = messages.into_iter();
    let mut opened = open_checkpoint(manager, stream.next(), 0)?;
    if opened.wants_input() {
        for message in stream {
            opened = opened.accept(manager, &message)?;
        }
    }
    opened.received(manager, 1_000)
}

/// Runs a request whose model streams only its output tensor.
fn run_checkpoint(
    manager: &mut ModelManager,
    messages: Vec<Option<Payload>>,
    model: &dyn Fn(&Tensor) -> Tensor,
) -> Result<Collected, Status> {
    let (name, input, timer, permit) = receive(manager, messages)?;
    let execution = Ok(Execution {
        queued: 0,
        ran: 5_000,
        result: Ok(vec![model(&input.expect("input"))]),
    });
    let (timer, answer) = manager.complete_checkpoint(&name, permit, timer, execution, 6_000)?;
    manager.settle_checkpoint(timer, true, 7_000);
    Ok(collect(answer))
}

/// A model that gives the halves of the values.
fn halve(t: &Tensor) -> Tensor {
    let values: Vec<f32> = f32_values(&t.data).iter().map(|v| v / 2.0).collect();
    Tensor {
        name: "output".to_string(),
        shape: t.shape.clone(),
        dtype: "float32".to_string(),
        data: f32_le_bytes(&values),
    }
}

/// Runs a request whose model is a script, given by the lines that it writes, its
/// exit code and its output file.
fn run_script(
    manager: &mut ModelManager,
    model: &Contract,
    messages: Vec<Option<Payload>>,
    lines: &[(&str, bool)],
    code: i32,
    output: Result<Vec<u8>, String>,
) -> Result<Collected, Status> {
    let (name, input, timer, permit) = receive(manager, messages)?;
    let mut record = StreamRecord::new();
    let mut sent = Vec::new();
    for (line, is_stderr) in lines {
        let message = stream_line(Ok(line.to_string()), *is_stderr);
        record.saw(&message);
        sent.push(message?);
    }
    let end = ScriptEnd::Exited {
        success: code == 0,
        code: Some(code),
        output,
    };
    let expected_batch = script_batch(model, &input);
    match finish_script(&name, model, expected_batch, &end) {
        Ok(last) => {
            for message in last {
                let item = Ok(message);
                record.saw(&item);
                sent.push(item?);
            }
            manager.settle_stream(record, permit, timer, 9_000);
            Ok(collect(sent))
        }
        Err(status) => {
            let item = Err(status.clone());
            record.saw(&item);
            manager.settle_stream(record, permit, timer, 9_000);
            Err(status)
        }
    }
}

fn unit_tensor() -> Result<Vec<u8>, String> {
    let mut raw = b"float32 1\n".to_vec();
    raw.extend(f32_le_bytes(&[42.0]));
    Ok(raw)
}

#[test]
fn rust_backend_output_matches_direct_forward_pass() {
    let mut manager = serve("model3", MODEL3);
    let input_values: Vec<f32> = (0..16).map(|v| v as f32).collect();
    let expected: Vec<f32> = input_values.iter().map(|v| v / 2.0).collect();
    let collected = run_checkpoint(
        &mut manager,
        vec![meta("model3"), tensor_chunk(vec![1, 16], f32_le_bytes(&input_values), true)],
        &halve,
    )
    .expect("checkpoint should succeed");

    assert!(collected.saw_done, "stream must end with done=true");
    assert_eq!(collected.exit_code, 0, "Rust backend exit code");
    assert!(collected.saw_output_chunk, "expected an output tensor chunk");
    assert_eq!(collected.output_shape, Some(vec![1, 16]));
    assert_eq!(collected.output_bytes, f32_le_bytes(&expected));
    assert_eq!(collected.lines, vec!["inference completed for model 'model3'"]);
}

#[test]
fn rust_backend_chunked_input_matches_single_chunk() {
    let mut manager = serve("model3", MODEL3);
    let input_values: Vec<f32> = (0..16).map(|v| v as f32).collect();
    let all_bytes = f32_le_bytes(&input_values);
    let (first_half, second_half) = all_bytes.split_at(all_bytes.len() / 2);
    let single = run_checkpoint(
        &mut manager,
        vec![meta("model3"), tensor_chunk(vec![1, 16], all_bytes.clone(), true)],
        &halve,
    )
    .expect("single-chunk checkpoint should succeed");
    let chunked = run_checkpoint(
        &mut manager,
        vec![
            meta("model3"),
            tensor_chunk(vec![1, 16], first_half.to_vec(), false),
            tensor_chunk(vec![1, 16], second_half.to_vec(), true),
        ],
        &halve,
    )
    .expect("chunked checkpoint should succeed");

    assert!(chunked.saw_output_chunk, "expected output from chunked input");
    assert_eq!(chunked.output_shape, single.output_shape);
    assert_eq!(chunked.output_bytes, single.output_bytes);
}

#[test]
fn rust_backend_supports_batch_dimension() {
    let mut manager = serve("model3", MODEL3);
    let batch = 2i64;
    let values: Vec<f32> = (0..(batch * 16)).map(|v| v as f32).collect();
    let collected = run_checkpoint(
        &mut manager,
        vec![meta("model3"), tensor_chunk(vec![batch, 16], f32_le_bytes(&values), true)],
        &halve,
    )
    .expect("batched checkpoint should succeed");

    assert!(collected.saw_done, "batched stream must finish");
    let shape = collected.output_shape.expect("batched output shape");
    assert_eq!(shape.first().copied(), Some(batch));
    assert!(manager
        .metrics()
        .render()
        .contains("nv_inference_count{model=\"model3\",version=\"1\"} 2"));
}

#[test]
fn rust_backend_rejects_shape_mismatch() {
    let mut manager = serve("model3", MODEL3);
    let values: Vec<f32> = (0..15).map(|v| v as f32).collect();
    let status = run_checkpoint(
        &mut manager,
        vec![meta("model3"), tensor_chunk(vec![1, 15], f32_le_bytes(&values), true)],
        &halve,
    )
    .expect_err("shape mismatch must be rejected");
    assert_eq!(status.code(), Code::InvalidArgument, "{status:?}");
    assert!(manager.metrics().render().contains("reason=\"OTHER\"} 1"));
}

#[test]
fn rust_backend_rejects_rank_mismatch() {
    let mut manager = serve("model3", MODEL3);
    let values: Vec<f32> = (0..16).map(|v| v as f32).collect();
    let status = run_checkpoint(
        &mut manager,
        vec![meta("model3"), tensor_chunk(vec![1, 1, 16], f32_le_bytes(&values), true)],
        &halve,
    )
    .expect_err("rank mismatch must be rejected");
    assert_eq!(status.code(), Code::InvalidArgument, "{status:?}");
}

#[test]
fn rust_backend_expands_missing_batch_dim() {
    let mut manager = serve("model3", MODEL3);
    let values: Vec<f32> = (0..16).map(|v| v as f32).collect();
    let explicit = run_checkpoint(
        &mut manager,
        vec![meta("model3"), tensor_chunk(vec![1, 16], f32_le_bytes(&values), true)],
        &halve,
    )
    .expect("explicit [1, 16] checkpoint should succeed");
    let expanded = run_checkpoint(
        &mut manager,
        vec![meta("model3"), tensor_chunk(vec![16], f32_le_bytes(&values), true)],
        &halve,
    )
    .expect("bare [16] checkpoint should be auto-expanded and succeed");

    assert!(expanded.saw_output_chunk, "expected an output tensor chunk");
    let shape = expanded.output_shape.clone().expect("expanded output shape");
    assert_eq!(shape.first().copied(), Some(1));
    assert_eq!(expanded.output_shape, explicit.output_shape);
    assert_eq!(expanded.output_bytes, explicit.output_bytes);
}

#[test]
fn rust_backend_rejects_batch_over_max() {
    let mut manager = serve("model3", MODEL3);
    let batch = 11i64;
    let values: Vec<f32> = (0..(batch * 16)).map(|v| v as f32).collect();
    let status = run_checkpoint(
        &mut manager,
        vec![meta("model3"), tensor_chunk(vec![batch, 16], f32_le_bytes(&values), true)],
        &halve,
    )
    .expect_err("over-max batch must be rejected");
    assert_eq!(status.code(), Code::InvalidArgument, "{status:?}");
}

#[test]
fn python_backend_streams_stdout_and_exit_zero() {
    let mut manager = serve("m", "output_shape: [1]\n");
    let collected = run_script(
        &mut manager,
        &contract("output_shape: [1]\n"),
        vec![meta("m")],
        &[("line one", false), ("line two", false), ("line three", false)],
        0,
        unit_tensor(),
    )
    .expect("python checkpoint should succeed");

    assert!(collected.saw_done, "stream must end with done=true");
    assert_eq!(collected.exit_code, 0, "successful main.py exits 0");
    assert_eq!(collected.lines, vec!["line one", "line two", "line three"]);
}

#[test]
fn python_backend_captures_stderr() {
    let mut manager = serve("m", "output_shape: [1]\n");
    let collected = run_script(
        &mut manager,
        &contract("output_shape: [1]\n"),
        vec![meta("m")],
        &[("to stdout", false), ("to stderr", true)],
        0,
        unit_tensor(),
    )
    .expect("python checkpoint should succeed");

    assert!(collected.saw_done, "stream must end with done=true");
    assert!(collected.lines.iter().any(|l| l == "to stdout"));
    assert!(collected.lines.iter().any(|l| l == "stderr: to stderr"));
}

#[test]
fn python_backend_propagates_nonzero_exit() {
    let mut manager = serve("m", "output_shape: [1]\n");
    let collected = run_script(
        &mut manager,
        &contract("output_shape: [1]\n"),
        vec![meta("m")],
        &[("about to fail", false)],
        3,
        Err("No such file".to_string()),
    )
    .expect("python checkpoint stream should complete even on failure");

    assert!(collected.saw_done, "stream must end with done=true");
    assert_eq!(collected.exit_code, 3, "non-zero exit code must be propagated");
    assert!(collected.lines.iter().any(|l| l == "about to fail"));
    assert!(manager.metrics().render().contains("reason=\"BACKEND\"} 1"));
}

#[test]
fn python_backend_receives_validated_tensor_on_stdin() {
    let mut manager = serve("m", STDIN);
    let values: Vec<f32> = (0..16).map(|v| v as f32).collect();
    let (_, input, timer, permit) = receive(
        &mut manager,
        vec![meta("m"), tensor_chunk(vec![1, 16], f32_le_bytes(&values), true)],
    )
    .expect("received");
    manager.release(permit);
    manager.cancel_request(timer);
    let fed = Some(TensorInput::of(&input.expect("input")));
    let plan = plan_child("/tmp/out.bin", "float32", &fed);
    assert!(plan
        .env
        .contains(&("NEREID_INPUT_SHAPE".to_string(), "1,16".to_string())));
    assert!(plan
        .env
        .contains(&("NEREID_INPUT_DTYPE".to_string(), "float32".to_string())));
    let read = f32_values(&plan.stdin.expect("stdin"));
    assert_eq!(read.len(), 16);
    assert_eq!(read.iter().sum::<f32>(), 120.0);
}

#[test]
fn python_backend_streams_computed_output_tensor() {
    let mut manager = serve("m", STDIN);
    let values: Vec<f32> = (0..16).map(|v| v as f32).collect();
    let total: f32 = values.iter().sum();
    let mut raw = b"float32 1\n".to_vec();
    raw.extend(f32_le_bytes(&[total]));
    let collected = run_script(
        &mut manager,
        &contract(STDIN),
        vec![meta("m"), tensor_chunk(vec![1, 16], f32_le_bytes(&values), true)],
        &[],
        0,
        Ok(raw),
    )
    .expect("python checkpoint with computed output should succeed");

    assert!(collected.saw_done, "stream must end with done=true");
    assert_eq!(collected.exit_code, 0);
    assert!(collected.saw_output_chunk);
    assert_eq!(collected.output_shape.as_deref(), Some([1].as_slice()), "output tensor shape");
    assert_eq!(
        f32_values(&collected.output_bytes),
        vec![120.0],
        "output tensor must equal the input sum"
    );
}

#[test]
fn python_backend_rejects_non_float32_output() {
    let mut manager = serve("m", "output_shape: [2]\n");
    let mut raw = b"int32 2\n".to_vec();
    raw.extend([3i32, 4].iter().flat_map(|v| v.to_le_bytes()));
    let status = run_script(
        &mut manager,
        &contract("output_shape: [2]\n"),
        vec![meta("m")],
        &[],
        0,
        Ok(raw),
    )
    .expect_err("non-float32 Checkpoint output must be rejected");
    assert_eq!(status.code(), Code::FailedPrecondition, "{status:?}");
    assert_eq!(
        status.message(),
        "Python model 'm' wrote a 'int32' output tensor, but the Checkpoint path only supports float32"
    );
}

#[test]
fn python_backend_rejects_shape_mismatch() {
    let mut manager = serve("m", STDIN);
    // Contract expects a trailing dim of 16; send 15.
    let values: Vec<f32> = (0..15).map(|v| v as f32).collect();
    let status = receive(
        &mut manager,
        vec![meta("m"), tensor_chunk(vec![1, 15], f32_le_bytes(&values), true)],
    )
    .expect_err("shape mismatch must be rejected");
    assert_eq!(status.code(), Code::InvalidArgument, "{status:?}");
}

#[test]
fn python_backend_expands_missing_batch_dim() {
    let mut manager = serve("m", STDIN);
    let values: Vec<f32> = (0..16).map(|v| v as f32).collect();
    let (_, input, timer, permit) = receive(
        &mut manager,
        vec![meta("m"), tensor_chunk(vec![16], f32_le_bytes(&values), true)],
    )
    .expect("bare [16] python checkpoint should be auto-expanded and succeed");
    manager.release(permit);
    manager.cancel_request(timer);
    let fed = Some(TensorInput::of(&input.expect("input")));
    let plan = plan_child("/tmp/out.bin", "float32", &fed);
    assert!(plan
        .env
        .contains(&("NEREID_INPUT_SHAPE".to_string(), "1,16".to_string())));
    let sum: f32 = f32_values(&plan.stdin.expect("stdin")).iter().sum();
    assert_eq!(sum, 120.0);
}

#[test]
fn view_models_and_health_check() {
    let manager = serve("model3", MODEL3);
    assert_eq!(health_status(), "ok");
    assert_eq!(manager.configured_models(), vec!["model3".to_string()]);
}

#[test]
fn unknown_model_returns_not_found() {
    let mut manager = serve("model3", MODEL3);
    let values: Vec<f32> = (0..16).map(|v| v as f32).collect();
    let status = run_checkpoint(
        &mut manager,
        vec![
            meta("does_not_exist"),
            tensor_chunk(vec![1, 16], f32_le_bytes(&values), true),
        ],
        &halve,
    )
    .expect_err("unknown model must be rejected");
    assert_eq!(status.code(), Code::NotFound, "{status:?}");
}

#[test]
fn first_message_must_be_metadata() {
    let mut manager = serve("model3", MODEL3);
    let values: Vec<f32> = (0..16).map(|v| v as f32).collect();
    let status = run_checkpoint(
        &mut manager,
        vec![tensor_chunk(vec![1, 16], f32_le_bytes(&values), true)],
        &halve,
    )
    .expect_err("leading chunk must be rejected");
    assert_eq!(status.code(), Code::InvalidArgument, "{status:?}");
}

#[test]
fn empty_stream_is_rejected() {
    let mut manager = serve("model3", MODEL3);
    let status =
        run_checkpoint(&mut manager, vec![], &halve).expect_err("empty stream must be rejected");
    assert_eq!(status.code(), Code::InvalidArgument, "{status:?}");
}

#[test]
fn messages_after_the_first_are_checked() {
    let c = contract(MODEL3);
    let message = |messages: Vec<Option<Payload>>| {
        collect_input_tensor(&messages, &c, "m")
            .expect_err("refused")
            .message()
            .to_string()
    };
    let chunk = |end: bool| tensor_chunk(vec![1, 16], vec![0; 64], end);
    assert_eq!(message(vec![]), "no tensor chunks provided");
    assert_eq!(message(vec![None]), "checkpoint stream message has no payload");
    assert_eq!(
        message(vec![meta("m")]),
        "metadata can only be sent as the first checkpoint stream message"
    );
    assert_eq!(
        message(vec![chunk(true), chunk(true)]),
        "received tensor chunk after end_of_tensor=true"
    );
    assert_eq!(
        message(vec![tensor_chunk(vec![], vec![], true)]),
        "tensor chunk shape is required"
    );
    assert_eq!(
        message(vec![chunk(false), tensor_chunk(vec![2, 16], vec![], true)]),
        "tensor chunk shape changed within one checkpoint request"
    );
    let whole = collect_input_tensor(&vec![chunk(false), chunk(true)], &c, "m").unwrap();
    assert_eq!(whole.name, "input");
    assert_eq!(whole.dtype, "float32");
    assert_eq!(whole.data.len(), 128);
}

#[test]
fn first_messages_are_checked() {
    let mut manager = serve("model3", MODEL3);
    let mut message = |first: Option<Option<Payload>>| {
        open_checkpoint(&mut manager, first, 0)
            .expect_err("refused")
            .message()
            .to_string()
    };
    assert_eq!(
        message(None),
        "checkpoint stream is empty; first message must include metadata"
    );
    assert_eq!(message(Some(None)), "first checkpoint stream message has no payload");
    assert_eq!(message(Some(meta("  "))), "model_name is required");
    assert_eq!(
        message(Some(meta(" ghost "))),
        "model 'ghost' is not configured in nereid.yaml"
    );
}

#[test]
fn a_client_that_leaves_is_counted_as_canceled() {
    let mut manager = serve("model3", MODEL3);
    let opened = open_checkpoint(&mut manager, Some(meta("model3")), 0).unwrap();
    let status = opened.interrupted(&mut manager, "reset");
    assert_eq!(status.code(), Code::Internal);
    assert_eq!(status.message(), "failed reading checkpoint stream message: reset");
    assert_eq!(
        unread_status(true, "reset").message(),
        "failed to read first checkpoint stream message: reset"
    );
    let (name, _, timer, permit) = receive(
        &mut manager,
        vec![meta("model3"), tensor_chunk(vec![16], vec![0; 64], true)],
    )
    .unwrap();
    let execution = Ok(Execution { queued: 0, ran: 0, result: Ok(Vec::new()) });
    let (timer, _) = manager
        .complete_checkpoint(&name, permit, timer, execution, 0)
        .unwrap();
    manager.settle_checkpoint(timer, false, 0);
    let text = manager.metrics().render();
    assert!(text.contains("reason=\"CANCELED\"} 2"), "{text}");
    assert!(text.contains("nv_inference_request_success{model=\"model3\",version=\"1\"} 0"));
}

#[test]
fn a_checkpoint_request_is_counted_once() {
    let success = |manager: &ModelManager, count: u64| {
        let line = format!("nv_inference_request_success{{model=\"m\",version=\"1\"}} {count}\n");
        assert!(manager.metrics().render().contains(&line), "{}", manager.metrics().render());
    };
    let failure = |manager: &ModelManager, reason: &str, count: u64| {
        let line = format!("reason=\"{reason}\"}} {count}\n");
        assert!(manager.metrics().render().contains(&line), "{}", manager.metrics().render());
    };
    let idle = |manager: &ModelManager| {
        let line = "nv_inference_pending_request_count{model=\"m\",version=\"1\"} 0\n";
        assert!(manager.metrics().render().contains(line), "{}", manager.metrics().render());
    };
    let text = "input_shape: [2]\noutput_shape: [2]\n";
    let chunk = || tensor_chunk(vec![2], f32_le_bytes(&[1.0, 2.0]), true);

    // Refused for its input.
    let mut manager = serve("m", text);
    assert!(receive(&mut manager, vec![meta("m"), tensor_chunk(vec![3], vec![0; 12], true)]).is_err());
    success(&manager, 0);
    failure(&manager, "OTHER", 1);
    idle(&manager);

    // Run and read to its end.
    let mut manager = serve("m", text);
    assert!(run_checkpoint(&mut manager, vec![meta("m"), chunk()], &halve).is_ok());
    success(&manager, 1);
    failure(&manager, "OTHER", 0);
    failure(&manager, "BACKEND", 0);
    idle(&manager);

    // Run in vain.
    let (name, _, timer, permit) = receive(&mut manager, vec![meta("m"), chunk()]).unwrap();
    let failed = Err(Status::internal("broken".to_string()));
    assert!(manager.complete_checkpoint(&name, permit, timer, failed, 6_000).is_err());
    success(&manager, 1);
    failure(&manager, "BACKEND", 1);
    idle(&manager);

    // Relayed, to an exit code of zero and to another.
    let mut manager = serve("m", "output_shape: [1]\n");
    let model = contract("output_shape: [1]\n");
    assert!(run_script(&mut manager, &model, vec![meta("m")], &[], 0, unit_tensor()).is_ok());
    success(&manager, 1);
    failure(&manager, "BACKEND", 0);
    idle(&manager);
    assert!(run_script(&mut manager, &model, vec![meta("m")], &[], 3, Err(String::new())).is_ok());
    success(&manager, 1);
    failure(&manager, "BACKEND", 1);
    idle(&manager);
}

#[test]
fn a_full_queue_ends_a_checkpoint_request() {
    let mut manager = ModelManager::new(vec![LoadedModel {
        name: "m".to_string(),
        contract: contract("output_shape: [1]\n"),
        platform: "test".to_string(),
        queue_capacity: 1,
    }]);
    let first = manager.begin_request("m", 0).unwrap();
    let (first, permit) = manager.checkpoint("m", &None, first).unwrap();
    let second = manager.begin_request("m", 0).unwrap();
    let e = manager.checkpoint("m", &None, second).unwrap_err();
    assert_eq!(e.code(), Code::ResourceExhausted);
    assert_eq!(e.message(), "model queue full, retry later");
    manager.release(permit);
    manager.cancel_request(first);
    let third = manager.begin_request("m", 0).unwrap();
    assert!(manager.checkpoint("m", &None, third).is_ok());
    assert!(manager.metrics().render().contains("reason=\"REJECTED\"} 1"));
}

#[test]
fn permits_bound_the_streams_of_a_backend() {
    let mut manager = ModelManager::new(vec![LoadedModel {
        name: "m".to_string(),
        contract: contract("output_shape: [1]\n"),
        platform: "test".to_string(),
        queue_capacity: 2,
    }]);
    let model = contract("output_shape: [1]\n");
    let first = receive(&mut manager, vec![meta("m")]).expect("first");
    let second = receive(&mut manager, vec![meta("m")]).expect("second");
    let e = run_script(&mut manager, &model, vec![meta("m")], &[], 0, unit_tensor()).unwrap_err();
    assert_eq!(e.code(), Code::ResourceExhausted);
    assert!(manager.metrics().render().contains("reason=\"REJECTED\"} 1\n"));

    // A stream that has ended makes room for another.
    let (_, _, timer, permit) = first;
    let mut record = StreamRecord::new();
    record.client_left();
    manager.settle_stream(record, permit, timer, 2_000);
    assert!(run_script(&mut manager, &model, vec![meta("m")], &[], 0, unit_tensor()).is_ok());
    assert!(run_script(&mut manager, &model, vec![meta("m")], &[], 1, unit_tensor()).is_ok());
    let (_, _, timer, permit) = second;
    manager.settle_stream(StreamRecord::new(), permit, timer, 3_000);
    let text = manager.metrics().render();
    assert!(text.contains("nv_inference_request_success{model=\"m\",version=\"1\"} 1\n"), "{text}");
    assert!(text.contains("reason=\"CANCELED\"} 1\n"), "{text}");
    assert!(text.contains("reason=\"BACKEND\"} 2\n"), "{text}");
    assert!(text.contains("reason=\"OTHER\"} 0\n"), "{text}");
}

#[test]
fn outputs_are_cut_into_chunks() {
    let data: Vec<u8> = (0..OUTPUT_CHUNK_BYTES * 2 + 5).map(|i| (i % 251) as u8).collect();
    let chunks = chunk_tensor("y", &[3], &data);
    assert_eq!(chunks.len(), 3);
    let parts: Vec<&TensorChunk> = chunks.iter().map(|c| c.output_chunk.as_ref().unwrap()).collect();
    assert_eq!(parts[0].data.len(), OUTPUT_CHUNK_BYTES);
    assert_eq!(parts[2].data.len(), 5);
    assert!(!parts[1].end_of_tensor && parts[2].end_of_tensor);
    assert_eq!(parts[2].chunk_index, 2);
    let whole: Vec<u8> = parts.iter().flat_map(|p| p.data.clone()).collect();
    assert_eq!(whole, data);

    // An empty tensor is one empty chunk.
    let empty = chunk_tensor("y", &[1], &[]);
    assert_eq!(empty.len(), 1);
    assert!(empty[0].output_chunk.as_ref().unwrap().end_of_tensor);
    assert_eq!(stream_outputs("m", &Vec::new()).len(), 2);
}

#[test]
fn scripts_end_as_they_ended() {
    let c = contract("output_shape: [1]\n");
    let message = |end: ScriptEnd| {
        finish_script("m", &c, None, &end)
            .expect_err("failed")
            .message()
            .to_string()
    };
    assert_eq!(message(ScriptEnd::NotStarted("denied".to_string())), "failed to run main.py: denied");
    assert_eq!(
        message(ScriptEnd::NotCaptured { is_stderr: false }),
        "failed to capture stdout from main.py process"
    );
    assert_eq!(
        message(ScriptEnd::NotCaptured { is_stderr: true }),
        "failed to capture stderr from main.py process"
    );
    assert_eq!(
        message(ScriptEnd::NotAwaited("gone".to_string())),
        "failed waiting on main.py process for model 'm': gone"
    );
    assert_eq!(
        message(ScriptEnd::Exited {
            success: true,
            code: Some(0),
            output: Err("No such file".to_string())
        }),
        "Python model 'm' exited 0 but wrote no readable output tensor to NEREID_OUTPUT_PATH: No such file"
    );
    assert_eq!(
        message(ScriptEnd::Exited {
            success: true,
            code: Some(0),
            output: Ok(b"float32 2\n00000000".to_vec())
        }),
        "model 'm' output shape mismatch at dimension 0: declared 1, got 2"
    );
    let killed = finish_script(
        "m",
        &c,
        None,
        &ScriptEnd::Exited { success: false, code: None, output: Err(String::new()) },
    )
    .unwrap();
    assert_eq!(killed[0].exit_code, -1);
    let e = stream_line(Err("broken".to_string()), true).unwrap_err();
    assert_eq!(e.message(), "failed reading output: broken");
}

#[test]
fn a_script_needs_its_files() {
    assert_eq!(python_command("m", true, true).unwrap(), vec!["-u", "main.py"]);
    let e = python_command("m", false, false).unwrap_err();
    assert_eq!(e.code(), Code::NotFound);
    assert_eq!(e.message(), "main.py not found for model 'm'");
    assert_eq!(
        python_command("m", true, false).unwrap_err().message(),
        "venv python not found for model 'm'"
    );
}
