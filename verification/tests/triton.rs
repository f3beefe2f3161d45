use nereid_server::contract::Contract;
use nereid_server::cxx::{create, model_exists, CxxBackend, CxxModel};
use nereid_server::backend::Backend;
use nereid_server::child::{infer_by_child, ChildEnd, Runner};
use nereid_server::manager::{join_failure_status, Execution, LoadedModel, ModelManager};
use nereid_server::service::{
    abandon_infer, admit_infer, answer_infer, model_metadata, model_ready, open_infer, readiness,
    settle_infer, stream_answer, StartedInfer,
};
use nereid_server::status::{Code, Status};
use nereid_server::tensor::Tensor;
use nereid_server::textproto::TextFile;
use nereid_server::torch::{Forward, Kind, RawTensor, TorchBackend, TupleItem};
use nereid_server::triton::{InferInputTensor, ModelInferRequest, ModelInferResponse};

const FP32: &str = "FP32";

fn textproto(contents: &str) -> TextFile {
    TextFile {
        path: "m/model_inference.textproto".to_string(),
        contents: Ok(contents.to_string()),
    }
}

fn contract(contents: &str) -> Contract {
    Contract::parse(&textproto(contents)).expect("contract")
}

fn serve_with(name: &str, platform: &str, contents: &str, queue_capacity: usize) -> ModelManager {
    ModelManager::new(vec![LoadedModel {
        name: name.to_string(),
        contract: contract(contents),
        platform: platform.to_string(),
        queue_capacity,
    }])
}

fn serve(name: &str, platform: &str, contents: &str) -> ModelManager {
    serve_with(name, platform, contents, 4)
}

const MODEL3: &str = "input_shape: [16]\nmax_batch_size: 10\n";
const PYMUL: &str = "input_shape: [4]\nmax_batch_size: 4\noutput_shape: [4]\n";
const PYADDINT: &str =
    "input_shape: [4]\nmax_batch_size: 4\noutput_shape: [4]\ndata_type: INT32\n";
const MULTI: &str = "max_batch_size: 4\n\
    input {\n  name: \"a\"\n  data_type: \"FP32\"\n  dims: [4]\n}\n\
    input {\n  name: \"b\"\n  data_type: \"FP32\"\n  dims: [4]\n}\n\
    output {\n  name: \"sum\"\n  data_type: \"FP32\"\n  dims: [4]\n}\n\
    output {\n  name: \"prod\"\n  data_type: \"FP32\"\n  dims: [4]\n}\n";

fn f32_le_bytes(values: &[f32]) -> Vec<u8> {
    values.iter().flat_map(|v| v.to_le_bytes()).collect()
}

fn f32_values(bytes: &[u8]) -> Vec<f32> {
    bytes
        .chunks_exact(4)
        .map(|c| f32::from_le_bytes([c[0], c[1], c[2], c[3]]))
        .collect()
}

fn input(name: &str, datatype: &str, shape: Vec<i64>) -> InferInputTensor {
    InferInputTensor {
        name: name.to_string(),
        datatype: datatype.to_string(),
        shape,
        contents: None,
    }
}

fn request(
    model: &str,
    inputs: Vec<InferInputTensor>,
    raw_input_contents: Vec<Vec<u8>>,
) -> ModelInferRequest {
    ModelInferRequest {
        model_name: model.to_string(),
        model_version: String::new(),
        id: String::new(),
        inputs,
        outputs: Vec::new(),
        raw_input_contents,
    }
}

fn infer_request(model: &str, shape: Vec<i64>, bytes: Vec<u8>) -> ModelInferRequest {
    request(model, vec![input("input", FP32, shape)], vec![bytes])
}

/// Opens a request and takes a permit for it.
fn start_infer(
    manager: &mut ModelManager,
    request: &ModelInferRequest,
    now: u128,
    ready: u128,
) -> Result<(StartedInfer, Vec<Tensor>), Status> {
    let (opened, inputs) = open_infer(manager, request, now)?;
    let started = admit_infer(manager, opened, &inputs, ready)?;
    Ok((started, inputs))
}

/// Answers a request whose backend ran, and ends it.
fn finish_infer(
    manager: &mut ModelManager,
    started: StartedInfer,
    request: &ModelInferRequest,
    execution: Result<Execution, Status>,
    ran: u128,
    now: u128,
) -> Result<ModelInferResponse, Status> {
    let (answered, response) = answer_infer(manager, started, request, execution, ran)?;
    settle_infer(manager, answered, now);
    Ok(response)
}

/// Runs one request through the service, with the given model as its backend.
fn run(
    manager: &mut ModelManager,
    request: &ModelInferRequest,
    backend: &dyn Fn(Vec<Tensor>) -> Result<Vec<Tensor>, Status>,
) -> Result<ModelInferResponse, Status> {
    let (started, inputs) = start_infer(manager, request, 0, 1_000)?;
    let execution = Ok(Execution {
        queued: 2_000,
        ran: 3_000,
        result: backend(inputs),
    });
    finish_infer(manager, started, request, execution, 6_000, 7_000)
}

/// A forward pass that maps each value of its only input.
fn map_f32(f: impl Fn(f32) -> f32) -> impl Fn(Vec<Tensor>) -> Result<Vec<Tensor>, Status> {
    move |inputs: Vec<Tensor>| {
        let t = &inputs[0];
        let values: Vec<f32> = f32_values(&t.data).into_iter().map(&f).collect();
        Ok(vec![Tensor {
            name: "output".to_string(),
            shape: t.shape.clone(),
            dtype: t.dtype.clone(),
            data: f32_le_bytes(&values),
        }])
    }
}

/// A Python model that computes `input * 2 + 1` and frames what it writes.
fn pymul(inputs: Vec<Tensor>) -> Result<Vec<Tensor>, Status> {
    let t = &inputs[0];
    let shape: Vec<String> = t.shape.iter().map(|d| d.to_string()).collect();
    let mut raw = format!("{} {}\n", t.dtype, shape.join(",")).into_bytes();
    let values: Vec<f32> = f32_values(&t.data).iter().map(|v| v * 2.0 + 1.0).collect();
    raw.extend(f32_le_bytes(&values));
    infer_by_child(
        Runner::Script,
        "pymul",
        &ChildEnd::Exited {
            success: true,
            code: Some(0),
            stderr: Vec::new(),
            output: Ok(raw),
        },
    )
}

/// The two-input, two-output model `(sum, prod) = (a + b, a * b)`.
fn multi(inputs: Vec<Tensor>) -> Result<Vec<Tensor>, Status> {
    let (a, b) = (f32_values(&inputs[0].data), f32_values(&inputs[1].data));
    let (backend, _) = TorchBackend::load("multi", &textproto(MULTI)).expect("multi");
    let item = |values: Vec<f32>| {
        TupleItem::Tensor(RawTensor {
            shape: vec![1, 4],
            bytes: f32_le_bytes(&values),
            kind: Some(Kind::Float),
            kind_text: "Float".to_string(),
        })
    };
    backend.outputs(Forward::Tuple(vec![
        item(a.iter().zip(&b).map(|(x, y)| x + y).collect()),
        item(a.iter().zip(&b).map(|(x, y)| x * y).collect()),
    ]))
}

fn code_of(r: Result<ModelInferResponse, Status>) -> Code {
    r.expect_err("must be rejected").code()
}

#[test]
fn model_infer_matches_direct_forward_pass() {
    let mut manager = serve("model3", "pytorch_libtorch", MODEL3);
    let input_values: Vec<f32> = (0..16).map(|v| v as f32).collect();
    let expected: Vec<f32> = input_values.iter().map(|v| v / 2.0).collect();
    let mut req = infer_request("model3", vec![1, 16], f32_le_bytes(&input_values));
    req.id = "req-1".to_string();
    let response = run(&mut manager, &req, &map_f32(|v| v / 2.0)).expect("should succeed");

    assert_eq!(response.id, "req-1", "request id must be echoed");
    assert_eq!(response.outputs.len(), 1, "expected one output tensor");
    assert_eq!(response.outputs[0].datatype, FP32);
    assert_eq!(response.outputs[0].shape, vec![1, 16], "output shape must match");
    assert_eq!(
        response.raw_output_contents,
        vec![f32_le_bytes(&expected)],
        "raw output bytes must match direct forward pass byte-for-byte"
    );
}

#[test]
fn model_infer_accepts_typed_contents() {
    let mut manager = serve("model3", "pytorch_libtorch", MODEL3);
    let input_values: Vec<f32> = (0..16).map(|v| v as f32).collect();
    let mut typed = input("input", FP32, vec![1, 16]);
    typed.contents = Some(input_values.iter().map(|v| v.to_bits()).collect());
    let response = run(
        &mut manager,
        &request("model3", vec![typed], Vec::new()),
        &map_f32(|v| v),
    )
    .expect("typed-contents model_infer should succeed");

    assert_eq!(response.outputs.len(), 1);
    assert!(!response.raw_output_contents.is_empty(), "expected raw output bytes");
    assert_eq!(response.raw_output_contents[0], f32_le_bytes(&input_values));
}

#[test]
fn health_and_metadata() {
    let manager = serve("model3", "pytorch_libtorch", MODEL3);
    assert!(model_ready(&manager, "model3", ""));
    assert!(!model_ready(&manager, "nope", ""), "unknown model must not be ready");

    let meta = model_metadata(&manager, "model3", "").expect("model_metadata");
    assert_eq!(meta.name, "model3");
    assert_eq!(meta.platform, "pytorch_libtorch");
    assert_eq!(meta.inputs.len(), 1);
    assert_eq!(meta.inputs[0].datatype, FP32);
    // model3's contract is input_shape [16], max_batch 10 -> advertised
    // shape carries a leading -1 batch dimension.
    assert_eq!(meta.inputs[0].shape, vec![-1, 16]);
    assert_eq!(meta.versions, vec!["1"]);
}

#[test]
fn kserve_health_endpoints() {
    let manager = serve("model3", "pytorch_libtorch", MODEL3);
    assert_eq!(readiness(&manager, "model3", ""), 200);
    assert_eq!(readiness(&manager, "model3", "1"), 200);
    assert_eq!(readiness(&manager, "ghost", ""), 400);
    assert_eq!(readiness(&manager, "model3", "2"), 400);
}

#[test]
fn metrics_endpoint_serves_prometheus_text() {
    let mut manager = serve("model3", "pytorch_libtorch", MODEL3);
    let timer = manager.begin_request("model3", 0).unwrap();
    manager.succeed_request(timer, 0);
    let body = manager.metrics().render();
    assert!(
        body.contains("nv_inference_request_success{model=\"model3\",version=\"1\"} 1"),
        "{body}"
    );
}

#[test]
fn python_model_infer_returns_correct_tensor() {
    let mut manager = serve("pymul", "python", PYMUL);
    let input_values: Vec<f32> = vec![1.0, 2.0, 3.0, 4.0];
    let expected: Vec<f32> = input_values.iter().map(|v| v * 2.0 + 1.0).collect();
    let mut req = infer_request("pymul", vec![1, 4], f32_le_bytes(&input_values));
    req.id = "py-1".to_string();
    let response = run(&mut manager, &req, &pymul).expect("python model_infer should succeed");

    assert_eq!(response.id, "py-1");
    assert_eq!(response.outputs.len(), 1);
    assert_eq!(response.outputs[0].shape, vec![1, 4], "output shape");
    assert_eq!(
        f32_values(&response.raw_output_contents[0]),
        expected,
        "pymul must compute input * 2 + 1"
    );
}

struct AddOne;

impl CxxModel for AddOne {
    fn run(
        &self,
        dtype: &str,
        shape: &[i64],
        data: &[u8],
    ) -> Result<(Vec<i64>, String, Vec<u8>), String> {
        if dtype != "float32" {
            return Err(format!("no {dtype}"));
        }
        let values: Vec<f32> = f32_values(data).iter().map(|v| v + 1.0).collect();
        Ok((shape.to_vec(), dtype.to_string(), f32_le_bytes(&values)))
    }
}

#[test]
fn cxx_model_infer_returns_input_plus_one() {
    let (backend, _) = CxxBackend::load(
        vec![("cxxadd".to_string(), AddOne)],
        "cxxadd",
        &textproto(PYMUL),
    )
    .expect("cxx model should build");
    let mut manager = serve("cxxadd", backend.platform(), PYMUL);
    let input_values: Vec<f32> = vec![1.0, 2.0, 3.0, 4.0];
    let expected: Vec<f32> = input_values.iter().map(|v| v + 1.0).collect();

    let meta = model_metadata(&manager, "cxxadd", "").expect("model_metadata");
    assert_eq!(meta.platform, "nereid_cxx");

    let response = run(
        &mut manager,
        &infer_request("cxxadd", vec![1, 4], f32_le_bytes(&input_values)),
        &|inputs| backend.infer(inputs),
    )
    .expect("cxx model_infer should succeed");
    assert_eq!(response.outputs.len(), 1);
    assert_eq!(response.outputs[0].shape, vec![1, 4]);
    assert_eq!(
        f32_values(&response.raw_output_contents[0]),
        expected,
        "cxxadd must compute input + 1"
    );
}

#[test]
fn compiled_in_models_are_found_by_name() {
    let registry = || vec![("cxxadd".to_string(), AddOne)];
    assert!(model_exists(&registry(), "cxxadd"));
    assert!(!model_exists(&registry(), "other"));
    assert!(create(registry(), "cxxadd").is_some());
    assert!(create(registry(), "other").is_none());
    let refusal = |name: &str, contents: &str| match CxxBackend::load(
        registry(),
        name,
        &textproto(contents),
    ) {
        Ok(_) => panic!("must be refused"),
        Err(e) => e.message().to_string(),
    };
    assert_eq!(
        refusal("other", PYMUL),
        "no compiled-in C++ model named 'other'. Register it in the cxx-models crate and rebuild with `--features cxx`."
    );
    assert_eq!(
        refusal("cxxadd", "output_shape: [1]\n"),
        "C++ model 'cxxadd' must declare input_shape in model_inference.textproto"
    );
    let (backend, _) = CxxBackend::load(registry(), "cxxadd", &textproto(PYMUL)).unwrap();
    let e = backend.infer(Vec::new()).unwrap_err();
    assert_eq!(e.code(), Code::InvalidArgument);
    assert_eq!(e.message(), "cxx model expects exactly one input tensor");
    let e = backend
        .infer(vec![Tensor {
            name: "input".to_string(),
            shape: vec![1],
            dtype: "int8".to_string(),
            data: vec![1],
        }])
        .unwrap_err();
    assert_eq!(e.message(), "cxx model failed: no int8");
}

#[test]
fn model_infer_validates_requested_output_name() {
    let mut manager = serve("model3", "pytorch_libtorch", MODEL3);
    let values: Vec<f32> = (0..16).map(|v| v as f32).collect();
    let asking = |out: &str| {
        let mut req = infer_request("model3", vec![1, 16], f32_le_bytes(&values));
        req.outputs = vec![out.to_string()];
        req
    };

    // Requesting the real output name works and the tensor keeps that name.
    let ok = run(&mut manager, &asking("output"), &map_f32(|v| v))
        .expect("requesting 'output' should succeed");
    assert_eq!(ok.outputs[0].name, "output");

    // Requesting an unknown output name is rejected.
    let status = run(&mut manager, &asking("not_a_real_output"), &map_f32(|v| v))
        .expect_err("unknown requested output must be rejected");
    assert_eq!(status.code(), Code::InvalidArgument, "{status:?}");
}

#[test]
fn python_model_infer_rejects_wrong_output_shape() {
    let mut manager = serve("m", "python", PYMUL);
    let status = run(
        &mut manager,
        &infer_request("m", vec![1, 4], f32_le_bytes(&[1.0, 2.0, 3.0, 4.0])),
        &|_| {
            let mut raw = b"float32 1,5\n".to_vec();
            raw.extend(f32_le_bytes(&[1.0, 2.0, 3.0, 4.0, 5.0]));
            infer_by_child(
                Runner::Script,
                "m",
                &ChildEnd::Exited {
                    success: true,
                    code: Some(0),
                    stderr: Vec::new(),
                    output: Ok(raw),
                },
            )
        },
    )
    .expect_err("output-shape mismatch must be rejected");
    // A wrong-shaped model output is a model/config bug -> Internal.
    assert_eq!(status.code(), Code::Internal, "{status:?}");
}

#[test]
fn multi_tensor_model_infer() {
    let mut manager = serve("multi", "pytorch_libtorch", MULTI);
    let a = [1.0f32, 2.0, 3.0, 4.0];
    let b = [10.0f32, 20.0, 30.0, 40.0];
    // Deliberately out of contract order (b before a) to prove name-based
    // binding, not positional.
    let mut req = request(
        "multi",
        vec![input("b", FP32, vec![1, 4]), input("a", FP32, vec![1, 4])],
        vec![f32_le_bytes(&b), f32_le_bytes(&a)],
    );
    req.id = "m-1".to_string();
    let response = run(&mut manager, &req, &multi).expect("multi-tensor model_infer should succeed");

    assert_eq!(response.outputs.len(), 2, "two named outputs");
    assert_eq!(response.outputs[0].name, "sum");
    assert_eq!(response.outputs[1].name, "prod");
    assert_eq!(
        f32_values(&response.raw_output_contents[0]),
        vec![11.0, 22.0, 33.0, 44.0],
        "a + b"
    );
    assert_eq!(
        f32_values(&response.raw_output_contents[1]),
        vec![10.0, 40.0, 90.0, 160.0],
        "a * b"
    );

    // Only the requested outputs come back.
    req.outputs = vec!["prod".to_string()];
    let response = run(&mut manager, &req, &multi).expect("subset");
    assert_eq!(response.outputs.len(), 1);
    assert_eq!(response.outputs[0].name, "prod");
}

#[test]
fn multi_tensor_missing_input_rejected() {
    let mut manager = serve("multi", "pytorch_libtorch", MULTI);
    // Only "a"; "b" is missing.
    let req = request(
        "multi",
        vec![input("a", FP32, vec![1, 4])],
        vec![f32_le_bytes(&[1.0, 2.0, 3.0, 4.0])],
    );
    assert_eq!(code_of(run(&mut manager, &req, &multi)), Code::InvalidArgument);
}

#[test]
fn multi_tensor_metadata_lists_all_tensors() {
    let manager = serve("multi", "pytorch_libtorch", MULTI);
    let meta = model_metadata(&manager, "multi", "").expect("metadata");
    let names: Vec<&str> = meta.inputs.iter().map(|i| i.name.as_str()).collect();
    assert_eq!(names, vec!["a", "b"], "input names");
    let outs: Vec<&str> = meta.outputs.iter().map(|o| o.name.as_str()).collect();
    assert_eq!(outs, vec!["sum", "prod"], "output names");
}

#[test]
fn model_infer_unknown_model_not_found() {
    let mut manager = serve("model3", "pytorch_libtorch", MODEL3);
    let before = manager.metrics().render();
    let req = infer_request("ghost", vec![1, 16], f32_le_bytes(&[0.0; 16]));
    let status = run(&mut manager, &req, &map_f32(|v| v)).expect_err("unknown model");
    assert_eq!(status.code(), Code::NotFound, "{status:?}");
    assert_eq!(status.message(), "model 'ghost' is not configured in nereid.yaml");
    assert_eq!(manager.metrics().render(), before, "counted nowhere");
}

#[test]
fn rust_int64_model_infer() {
    let mut manager = serve(
        "rustint",
        "pytorch_libtorch",
        "input_shape: [4]\nmax_batch_size: 4\noutput_shape: [4]\ndata_type: INT64\n",
    );
    let bytes = |v: &[i64]| -> Vec<u8> { v.iter().flat_map(|x| x.to_le_bytes()).collect() };
    let req = request(
        "rustint",
        vec![input("input", "INT64", vec![1, 4])],
        vec![bytes(&[10, 20, 30, 40])],
    );
    let response = run(&mut manager, &req, &|inputs: Vec<Tensor>| {
        assert_eq!(inputs[0].dtype, "int64");
        let out: Vec<u8> = inputs[0]
            .data
            .chunks_exact(8)
            .flat_map(|c| (i64::from_le_bytes(c.try_into().unwrap()) + 1).to_le_bytes())
            .collect();
        Ok(vec![Tensor {
            name: "output".to_string(),
            shape: vec![1, 4],
            dtype: "int64".to_string(),
            data: out,
        }])
    })
    .expect("int64 rust model_infer should succeed");

    assert_eq!(response.outputs[0].datatype, "INT64", "output datatype");
    assert_eq!(response.outputs[0].shape, vec![1, 4]);
    assert_eq!(
        response.raw_output_contents[0],
        bytes(&[11, 21, 31, 41]),
        "rustint must compute input + 1 in int64"
    );
}

#[test]
fn python_model_infer_int32_datatype() {
    let mut manager = serve("pyaddint", "python", PYADDINT);
    let bytes = |v: &[i32]| -> Vec<u8> { v.iter().flat_map(|x| x.to_le_bytes()).collect() };
    let req = request(
        "pyaddint",
        vec![input("input", "INT32", vec![1, 4])],
        vec![bytes(&[10, 20, 30, 40])],
    );
    let response = run(&mut manager, &req, &|inputs: Vec<Tensor>| {
        let mut raw = format!("{} 1,4\n", inputs[0].dtype).into_bytes();
        raw.extend(inputs[0].data.chunks_exact(4).flat_map(|c| {
            (i32::from_le_bytes(c.try_into().unwrap()) + 1).to_le_bytes()
        }));
        infer_by_child(
            Runner::Script,
            "pyaddint",
            &ChildEnd::Exited {
                success: true,
                code: Some(0),
                stderr: Vec::new(),
                output: Ok(raw),
            },
        )
    })
    .expect("int32 model_infer should succeed");

    assert_eq!(response.outputs[0].datatype, "INT32", "output datatype");
    assert_eq!(response.outputs[0].shape, vec![1, 4]);
    assert_eq!(
        response.raw_output_contents[0],
        bytes(&[11, 21, 31, 41]),
        "pyaddint must compute input + 1 in int32"
    );
}

#[test]
fn python_output_only_model_infer() {
    let mut manager = serve("m", "python", "output_shape: [2]\n");

    // Metadata advertises no inputs, one output.
    let meta = model_metadata(&manager, "m", "").expect("metadata");
    assert!(meta.inputs.is_empty(), "output-only model has no inputs");
    assert_eq!(meta.outputs.len(), 1);

    // Infer with zero inputs returns the model's tensor.
    let model = |inputs: Vec<Tensor>| {
        assert!(inputs.is_empty());
        Ok(vec![Tensor {
            name: "output".to_string(),
            shape: vec![2],
            dtype: "float32".to_string(),
            data: f32_le_bytes(&[7.0, 8.0]),
        }])
    };
    let response = run(&mut manager, &request("m", Vec::new(), Vec::new()), &model)
        .expect("output-only model_infer should succeed");
    assert_eq!(response.outputs[0].shape, vec![2]);
    assert_eq!(f32_values(&response.raw_output_contents[0]), vec![7.0, 8.0]);

    // Sending an input to an output-only model is rejected.
    let req = infer_request("m", vec![1, 2], f32_le_bytes(&[1.0, 2.0]));
    assert_eq!(code_of(run(&mut manager, &req, &model)), Code::InvalidArgument);

    // Stray raw_input_contents (with zero declared inputs) is also rejected.
    let req = request("m", Vec::new(), vec![f32_le_bytes(&[1.0, 2.0])]);
    assert_eq!(code_of(run(&mut manager, &req, &model)), Code::InvalidArgument);
}

#[test]
fn multi_tensor_rejects_duplicate_input_names() {
    let mut manager = serve("multi", "pytorch_libtorch", MULTI);
    let req = request(
        "multi",
        vec![input("a", FP32, vec![1, 4]), input("a", FP32, vec![1, 4])],
        vec![
            f32_le_bytes(&[1.0, 2.0, 3.0, 4.0]),
            f32_le_bytes(&[5.0, 6.0, 7.0, 8.0]),
        ],
    );
    assert_eq!(code_of(run(&mut manager, &req, &multi)), Code::InvalidArgument);
}

#[test]
fn multi_tensor_rejects_unknown_input_name() {
    let mut manager = serve("multi", "pytorch_libtorch", MULTI);
    // Declared inputs are "a" and "b"; add a stray "c".
    let req = request(
        "multi",
        vec![
            input("a", FP32, vec![1, 4]),
            input("b", FP32, vec![1, 4]),
            input("c", FP32, vec![1, 4]),
        ],
        vec![
            f32_le_bytes(&[1.0, 2.0, 3.0, 4.0]),
            f32_le_bytes(&[5.0, 6.0, 7.0, 8.0]),
            f32_le_bytes(&[9.0, 9.0, 9.0, 9.0]),
        ],
    );
    assert_eq!(code_of(run(&mut manager, &req, &multi)), Code::InvalidArgument);
}

fn multi_request() -> ModelInferRequest {
    request(
        "multi",
        vec![input("a", FP32, vec![1, 4]), input("b", FP32, vec![1, 4])],
        vec![
            f32_le_bytes(&[1.0, 2.0, 3.0, 4.0]),
            f32_le_bytes(&[5.0, 6.0, 7.0, 8.0]),
        ],
    )
}

#[test]
fn multi_tensor_rejects_unknown_output_name() {
    let mut manager = serve("multi", "pytorch_libtorch", MULTI);
    let mut req = multi_request();
    // Declared outputs are "sum"/"prod"; request an unknown one.
    req.outputs = vec!["not_an_output".to_string()];
    assert_eq!(code_of(run(&mut manager, &req, &multi)), Code::InvalidArgument);
}

#[test]
fn multi_tensor_rejects_output_dtype_mismatch() {
    let mut manager = serve(
        "multi",
        "pytorch_libtorch",
        "max_batch_size: 4\n\
         input {\n  name: \"a\"\n  data_type: \"FP32\"\n  dims: [4]\n}\n\
         input {\n  name: \"b\"\n  data_type: \"FP32\"\n  dims: [4]\n}\n\
         output {\n  name: \"sum\"\n  data_type: \"INT32\"\n  dims: [4]\n}\n\
         output {\n  name: \"prod\"\n  data_type: \"FP32\"\n  dims: [4]\n}\n",
    );
    assert_eq!(code_of(run(&mut manager, &multi_request(), &multi)), Code::Internal);
}

#[test]
fn model_metadata_reports_declared_datatype() {
    let manager = serve("pyaddint", "python", PYADDINT);
    let meta = model_metadata(&manager, "pyaddint", "").expect("metadata");
    assert_eq!(meta.inputs[0].datatype, "INT32");
    assert_eq!(meta.outputs[0].datatype, "INT32");
}

#[test]
fn model_infer_rejects_datatype_mismatch() {
    let mut manager = serve("pyaddint", "python", PYADDINT);
    // pyaddint expects INT32; send FP32.
    let req = infer_request("pyaddint", vec![1, 4], f32_le_bytes(&[1.0, 2.0, 3.0, 4.0]));
    assert_eq!(code_of(run(&mut manager, &req, &pymul)), Code::InvalidArgument);
}

#[test]
fn model_infer_rejects_byte_length_mismatch() {
    let mut manager = serve("model3", "pytorch_libtorch", MODEL3);
    // shape says 16 floats (64 bytes) but only 8 floats are sent.
    let req = infer_request("model3", vec![1, 16], f32_le_bytes(&[0.0; 8]));
    assert_eq!(code_of(run(&mut manager, &req, &map_f32(|v| v))), Code::InvalidArgument);
}

#[test]
fn model_versioning_only_version_one() {
    let mut manager = serve("model3", "pytorch_libtorch", MODEL3);

    // ModelReady: "1" and "" ready; "2" not.
    for (ver, want) in [("", true), ("1", true), ("2", false)] {
        assert_eq!(model_ready(&manager, "model3", ver), want, "version {ver:?} readiness");
    }

    // Metadata for a bad version is NotFound.
    let status = model_metadata(&manager, "model3", "2").expect_err("bad version metadata");
    assert_eq!(status.code(), Code::NotFound, "{status:?}");
    assert_eq!(status.message(), "model 'model3' (version '2') is not available");

    // Infer for a bad version is NotFound.
    let values: Vec<f32> = (0..16).map(|v| v as f32).collect();
    let mut req = infer_request("model3", vec![1, 16], f32_le_bytes(&values));
    req.model_version = "2".to_string();
    let status = run(&mut manager, &req, &map_f32(|v| v)).expect_err("bad version infer");
    assert_eq!(status.code(), Code::NotFound, "{status:?}");
    assert_eq!(
        status.message(),
        "model 'model3' version '2' is not available; nereid serves version 1"
    );
}

#[test]
fn model_stream_infer_streams_results() {
    let mut manager = serve("pymul", "python", PYMUL);
    let batches = [
        [1.0f32, 2.0, 3.0, 4.0],
        [5.0, 6.0, 7.0, 8.0],
        [0.0, 0.0, 0.0, 0.0],
    ];
    for vals in &batches {
        let req = infer_request("pymul", vec![1, 4], f32_le_bytes(vals));
        let answer = stream_answer(run(&mut manager, &req, &pymul));
        assert!(answer.error_message.is_empty(), "unexpected error: {}", answer.error_message);
        let infer = answer.infer_response.expect("infer_response present");
        let expected: Vec<f32> = vals.iter().map(|v| v * 2.0 + 1.0).collect();
        assert_eq!(f32_values(&infer.raw_output_contents[0]), expected);
    }
}

#[test]
fn model_stream_infer_reports_per_request_error_and_continues() {
    let mut manager = serve("pymul", "python", PYMUL);
    let good = infer_request("pymul", vec![1, 4], f32_le_bytes(&[1.0, 2.0, 3.0, 4.0]));
    // Middle request has a bad shape (wrong trailing dim).
    let bad = infer_request("pymul", vec![1, 5], f32_le_bytes(&[1.0, 2.0, 3.0, 4.0, 5.0]));
    let mut oks = 0;
    let mut errs = 0;
    for req in [&good, &bad, &good] {
        let answer = stream_answer(run(&mut manager, req, &pymul));
        if answer.error_message.is_empty() {
            assert!(answer.infer_response.is_some());
            oks += 1;
        } else {
            assert!(answer.infer_response.is_none());
            errs += 1;
        }
    }
    assert_eq!(oks, 2, "two good requests should succeed");
    assert_eq!(errs, 1, "the bad request should surface one inline error");
}

#[test]
fn python_backpressure_rejects_when_full() {
    let mut manager = serve_with("m", "python", PYMUL, 1);
    let req = infer_request("m", vec![1, 4], f32_le_bytes(&[1.0, 2.0, 3.0, 4.0]));
    let (started, inputs) = start_infer(&mut manager, &req, 0, 0).expect("one holds the permit");
    let status = start_infer(&mut manager, &req, 0, 0).expect_err("the other is shed");
    assert_eq!(status.code(), Code::ResourceExhausted);
    assert_eq!(status.message(), "model queue full, retry later");
    let execution = Ok(Execution { queued: 0, ran: 0, result: pymul(inputs) });
    assert_eq!(started.model_name(), "m");
    finish_infer(&mut manager, started, &req, execution, 0, 0).expect("the first succeeds");

    // The permit is free again.
    run(&mut manager, &req, &pymul).expect("a later request succeeds");
    let text = manager.metrics().render();
    assert!(text.contains("nv_inference_request_success{model=\"m\",version=\"1\"} 2"));
    assert!(text.contains(
        "nv_inference_request_failure{model=\"m\",version=\"1\",reason=\"REJECTED\"} 1"
    ));
    assert!(text.contains("nv_inference_pending_request_count{model=\"m\",version=\"1\"} 0"));
}

#[test]
fn a_request_is_refused_with_what_is_wrong_with_it() {
    let mut manager = serve("multi", "pytorch_libtorch", MULTI);
    let mut message = |req: &ModelInferRequest| {
        start_infer(&mut manager, req, 0, 0)
            .expect_err("refused")
            .message()
            .to_string()
    };
    let four = || f32_le_bytes(&[1.0, 2.0, 3.0, 4.0]);
    let ab = || vec![input("a", FP32, vec![1, 4]), input("b", FP32, vec![1, 4])];
    assert_eq!(message(&request("  ", ab(), vec![four(), four()])), "model_name is required");
    assert_eq!(
        message(&request("multi", ab(), vec![four()])),
        "raw_input_contents length must equal the number of input tensors"
    );
    assert_eq!(
        message(&request(
            "multi",
            vec![input("a", FP32, vec![1, 4]), input("a", FP32, vec![1, 4])],
            vec![four(), four()]
        )),
        "duplicate input tensor name 'a' in request for model 'multi'"
    );
    assert_eq!(
        message(&request("multi", vec![input("z", FP32, vec![1, 4])], vec![four()])),
        "model 'multi' has no input 'z'"
    );
    assert_eq!(
        message(&request("multi", vec![input("a", FP32, vec![1, 4])], vec![four()])),
        "missing input tensor 'b' for model 'multi'"
    );
    assert_eq!(
        message(&request(
            "multi",
            vec![input("a", "INT8", vec![1, 4]), input("b", FP32, vec![1, 4])],
            vec![four(), four()]
        )),
        "datatype mismatch for input 'a' of model 'multi': expected FP32, got 'INT8'"
    );
    assert_eq!(
        message(&request("multi", ab(), Vec::new())),
        "input 'a' has neither raw_input_contents nor contents"
    );
    assert_eq!(
        message(&request("multi", ab(), vec![vec![0; 15], four()])),
        "input 'a' byte length 15 does not match shape [1, 4] \u{d7} 4 bytes (16) for model 'multi'"
    );
    assert_eq!(
        message(&request(
            "multi",
            vec![input("a", FP32, vec![1, 4]), input("b", FP32, vec![2, 4])],
            vec![four(), vec![0; 32]]
        )),
        "inconsistent batch sizes across input tensors"
    );
}

#[test]
fn a_failed_run_is_the_models_failure() {
    let mut manager = serve("pymul", "python", PYMUL);
    let req = infer_request("pymul", vec![3, 4], vec![0; 48]);
    // The backend's own error wins over its code.
    let status = run(&mut manager, &req, &|_| {
        Err(Status::invalid_argument("no such dtype".to_string()))
    })
    .expect_err("failed");
    assert_eq!(status.code(), Code::InvalidArgument);
    // A run that never came back.
    let (started, _) = start_infer(&mut manager, &req, 0, 0).unwrap();
    let status = finish_infer(
        &mut manager,
        started,
        &req,
        Err(join_failure_status("panicked")),
        0,
        0,
    )
    .expect_err("failed");
    assert_eq!(status.message(), "inference task failed to join: panicked");
    run(&mut manager, &req, &pymul).expect("goes on");
    let text = manager.metrics().render();
    assert!(text.contains("reason=\"BACKEND\"} 2"), "{text}");
    assert!(text.contains("nv_inference_count{model=\"pymul\",version=\"1\"} 3"), "{text}");
    assert!(text.contains("nv_inference_exec_count{model=\"pymul\",version=\"1\"} 1"));
    for (series, micros) in [
        ("request", 7),
        ("compute_input", 1),
        ("queue", 2),
        ("compute_infer", 3),
        ("compute_output", 1),
    ] {
        let line = format!(
            "nv_inference_{series}_duration_us{{model=\"pymul\",version=\"1\"}} {micros}\n"
        );
        assert!(text.contains(&line), "{line}{text}");
    }
    assert!(text.contains("nv_inference_pending_request_count{model=\"pymul\",version=\"1\"} 0"));
}

#[test]
fn a_single_tensor_model_gives_one_output() {
    let mut manager = serve("model3", "pytorch_libtorch", MODEL3);
    let req = infer_request("model3", vec![1, 16], vec![0; 64]);
    let out = |dtype: &str| Tensor {
        name: "output".to_string(),
        shape: vec![1, 1],
        dtype: dtype.to_string(),
        data: vec![0; 4],
    };
    let status = run(&mut manager, &req, &|_| Ok(vec![out("float32"), out("float32")]))
        .expect_err("two outputs");
    assert_eq!(
        status.message(),
        "single-tensor model 'model3' returned 2 outputs, expected 1"
    );
    let status =
        run(&mut manager, &req, &|_| Ok(vec![out("string")])).expect_err("unknown dtype");
    assert_eq!(
        status.message(),
        "model 'model3' returned unsupported output dtype 'string'"
    );
}

#[test]
fn an_abandoned_request_is_canceled_and_gives_its_permit_back() {
    let mut manager = serve_with("m", "python", PYMUL, 1);
    let req = infer_request("m", vec![1, 4], vec![0; 16]);
    let (started, _) = start_infer(&mut manager, &req, 0, 0).unwrap();
    abandon_infer(&mut manager, started);
    run(&mut manager, &req, &pymul).expect("the permit is free");
    let text = manager.metrics().render();
    assert!(text.contains("reason=\"CANCELED\"} 1"), "{text}");
    assert!(text.contains("nv_inference_pending_request_count{model=\"m\",version=\"1\"} 0"));
}
