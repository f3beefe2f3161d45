use nereid_server::config::{ModelConfig, ModelDevice};
use nereid_server::engine::{
    check_engine_input, check_input_count, engine_error, output_type, read_fed_contract,
    ElementType, Engine, EngineOutput,
};
use nereid_server::folder::{Folder, FolderEntry};
use nereid_server::inference::{
    run_forward_pass, run_multi_forward_pass, tensor_to_bytes, SingleForward,
};
use nereid_server::native::{
    load_native_model, names_or_signature_keys, NativeKind, NativeLoadSpec, NativeTensor,
};
use nereid_server::onnx::{require_output, OnnxBackend};
use nereid_server::order::sorted_names;
use nereid_server::status::{Code, Status};
use nereid_server::tensor::Tensor;
use nereid_server::tensorflow::{check_elements, gpu_visible_device_config, TensorflowBackend};
use nereid_server::textproto::TextFile;
use nereid_server::torch::{
    build_failure, canonical_from_kind, check_input_bytes, check_torch_input, check_torch_inputs,
    kind_from_canonical, load_failure, to_tch_device, Forward, Kind, RawTensor, TorchBackend, TupleItem,
};

const PAIR: &str = "input {\n  name: \"b\"\n  data_type: \"FP32\"\n  dims: [1]\n}\n\
    input {\n  name: \"a\"\n  data_type: \"FP32\"\n  dims: [1]\n}\n\
    output {\n  name: \"y\"\n  data_type: \"FP32\"\n  dims: [1]\n}\n";

fn declaring(contents: &str) -> TextFile {
    TextFile {
        path: "m/model_inference.textproto".to_string(),
        contents: Ok(contents.to_string()),
    }
}

fn tensor(dtype: &str, bytes: usize) -> Tensor {
    Tensor {
        name: "x".to_string(),
        shape: vec![1],
        dtype: dtype.to_string(),
        data: vec![0; bytes],
    }
}

fn names(list: &[&str]) -> Vec<String> {
    list.iter().map(|n| n.to_string()).collect()
}

fn with_files(files: &[&str]) -> Folder {
    Folder {
        files: names(files),
        dirs: Vec::new(),
        listing: Ok(files
            .iter()
            .map(|name| {
                Ok(FolderEntry {
                    name: name.to_string(),
                    path: format!("m/{name}"),
                    is_file: true,
                })
            })
            .collect()),
    }
}

#[test]
fn engines_need_an_input() {
    assert_eq!(
        read_fed_contract("ONNX", "m", &declaring("output_shape: [1]\n"))
            .unwrap_err()
            .message(),
        "ONNX model 'm' must declare input_shape in model_inference.textproto"
    );
    assert!(read_fed_contract("ONNX", "m", &declaring("input_shape: [1]\n")).is_ok());
}

#[test]
fn engines_take_fixed_width_types() {
    assert_eq!(check_engine_input(Engine::Onnx, &tensor("bfloat16", 6)).unwrap(), 3);
    assert_eq!(
        check_engine_input(Engine::Tensorflow, &tensor("bfloat16", 6))
            .unwrap_err()
            .message(),
        "TensorFlow backend: unsupported input dtype 'bfloat16'"
    );
    assert_eq!(
        check_engine_input(Engine::Onnx, &tensor("string", 6)).unwrap_err().message(),
        "ONNX backend: unsupported input dtype 'string'"
    );
    let e = check_engine_input(Engine::Onnx, &tensor("int64", 12)).unwrap_err();
    assert_eq!(e.code(), Code::InvalidArgument);
    assert_eq!(
        e.message(),
        "model 'x': input byte length 12 is not a multiple of element size 8"
    );
    assert_eq!(
        check_input_count(Engine::Onnx, 2, 1).unwrap_err().message(),
        "ONNX model expects 2 input(s), got 1"
    );
    assert_eq!(
        engine_error(Engine::Tensorflow, "run", "oom").message(),
        "TensorFlow backend: failed to run: oom"
    );
}

#[test]
fn outputs_of_engines_are_typed() {
    assert_eq!(output_type(Engine::Onnx, &Some(ElementType::Bfloat16)).unwrap(), "bfloat16");
    assert_eq!(output_type(Engine::Tensorflow, &Some(ElementType::Int32)).unwrap(), "int32");
    let message = |engine, element| output_type(engine, &element).unwrap_err().message().to_string();
    assert_eq!(message(Engine::Onnx, None), "ONNX output is not a tensor");
    assert_eq!(
        message(Engine::Onnx, Some(ElementType::Other("String".to_string()))),
        "ONNX backend: unsupported output element type String"
    );
    assert_eq!(
        message(Engine::Tensorflow, Some(ElementType::Other("String".to_string()))),
        "TensorFlow backend: unsupported output dtype String"
    );
    assert_eq!(
        message(Engine::Tensorflow, Some(ElementType::Bfloat16)),
        "TensorFlow backend: unsupported output dtype 'bfloat16'"
    );
}

#[test]
fn onnx_models_bind_by_the_graph() {
    let (path, contract) =
        OnnxBackend::locate("m", &with_files(&["a.onnx"]), &declaring(PAIR)).unwrap();
    assert_eq!(path, "m/a.onnx");
    let bound = OnnxBackend::load(names(&["in0", "in1"]), names(&["out0"]), &contract);
    assert_eq!(bound.input_names, names(&["in0", "in1"]));
    assert_eq!(bound.output_names, names(&["out0"]));
    assert_eq!(bound.platform(), "onnxruntime_onnx");
    assert_eq!(
        bound.feeds(vec![tensor("int8", 1)]).unwrap_err().message(),
        "ONNX model expects 2 input(s), got 1"
    );
    let feeds = bound.feeds(vec![tensor("int8", 1), tensor("int16", 2)]).unwrap();
    let fed: Vec<(&str, &str)> =
        feeds.iter().map(|(name, t)| (name.as_str(), t.dtype.as_str())).collect();
    assert_eq!(fed, vec![("in0", "int8"), ("in1", "int16")]);
    assert_eq!(
        bound.feeds(vec![tensor("int16", 3), tensor("string", 1)]).unwrap_err().message(),
        "model 'x': input byte length 3 is not a multiple of element size 2"
    );
    let declared = OnnxBackend::load(Vec::new(), Vec::new(), &contract);
    assert_eq!(declared.input_names, names(&["b", "a"]));
    assert_eq!(declared.output_names, names(&["y"]));
    assert_eq!(
        OnnxBackend::locate("m", &with_files(&[]), &declaring(PAIR)).unwrap_err().message(),
        "model must contain exactly one .onnx file; found none"
    );
    assert_eq!(require_output("y", Some(3)).unwrap(), 3);
    assert_eq!(
        require_output::<u8>("y", None).unwrap_err().message(),
        "ONNX output 'y' missing"
    );
}

#[test]
fn tensorflow_models_bind_by_the_signature() {
    let (backend, _) = TensorflowBackend::load("m", &declaring(PAIR)).unwrap();
    assert_eq!(backend.platform(), "tensorflow_savedmodel");
    let bound = backend.bind(&names(&["c", "a", "b"]), &names(&["z", "w"]));
    // The declared inputs are all known; the declared output is not.
    assert_eq!(bound.input_names, names(&["b", "a"]));
    assert_eq!(bound.output_names, names(&["w", "z"]));
    assert_eq!(
        bound.feeds(Vec::new()).unwrap_err().message(),
        "TensorFlow model expects 2 input(s), got 0"
    );
    assert_eq!(
        bound.feeds(vec![tensor("int8", 1), tensor("bfloat16", 2)]).unwrap_err().message(),
        "TensorFlow backend: unsupported input dtype 'bfloat16'"
    );
    let given = |element: ElementType, byte: u8| {
        Ok(EngineOutput { element: Some(element), shape: vec![1], data: vec![byte] })
    };
    let outputs = bound
        .outputs(vec![given(ElementType::Int8, 7), given(ElementType::Uint8, 9)])
        .unwrap();
    let fetched: Vec<(&str, &str, u8)> =
        outputs.iter().map(|t| (t.name.as_str(), t.dtype.as_str(), t.data[0])).collect();
    assert_eq!(fetched, vec![("w", "int8", 7), ("z", "uint8", 9)]);
    assert_eq!(
        bound
            .outputs(vec![given(ElementType::Bfloat16, 0), Err(Status::internal("late".to_string()))])
            .unwrap_err()
            .message(),
        "TensorFlow backend: unsupported output dtype 'bfloat16'"
    );
    assert_eq!(
        bound
            .outputs(vec![Err(Status::internal("first".to_string())), given(ElementType::Bfloat16, 0)])
            .unwrap_err()
            .message(),
        "first"
    );
    assert!(check_elements(&tensor("int8", 3), 3, 3).is_ok());
    assert_eq!(
        check_elements(&tensor("int8", 3), 3, 4).unwrap_err().message(),
        "TensorFlow backend: model 'x' input has 3 elements but shape implies 4"
    );
}

#[test]
fn a_device_is_pinned_by_its_index() {
    assert_eq!(gpu_visible_device_config(0), vec![0x32, 3, 0x2a, 1, b'0']);
    assert_eq!(gpu_visible_device_config(12), vec![0x32, 4, 0x2a, 2, b'1', b'2']);
}

#[test]
fn names_come_in_order() {
    assert_eq!(
        sorted_names(&names(&["b", "", "ab", "a", "b", "\u{e4}"])),
        names(&["", "a", "ab", "b", "b", "\u{e4}"])
    );
}

#[test]
fn torch_kinds_are_named() {
    for (name, kind, width) in [
        ("bool", Kind::Bool, 1),
        ("uint8", Kind::Uint8, 1),
        ("int8", Kind::Int8, 1),
        ("int16", Kind::Int16, 2),
        ("int32", Kind::Int, 4),
        ("int64", Kind::Int64, 8),
        ("float16", Kind::Half, 2),
        ("float32", Kind::Float, 4),
        ("float64", Kind::Double, 8),
        ("bfloat16", Kind::BFloat16, 2),
    ] {
        assert_eq!(kind_from_canonical(name), Some(kind));
        assert_eq!(canonical_from_kind(kind), name);
        assert_eq!(kind.width(), width);
    }
    assert_eq!(kind_from_canonical("uint32"), None);
    assert_eq!(
        check_torch_input(&tensor("uint32", 4)).unwrap_err().message(),
        "Torch backend does not support datatype 'uint32' (no libtorch kind)"
    );
    assert_eq!(
        check_torch_input(&tensor("int64", 4)).unwrap_err().message(),
        "input byte length 4 is not a multiple of element size 8 for model 'torch model'"
    );
    assert_eq!(check_torch_input(&tensor("int64", 8)).unwrap(), Kind::Int64);
    assert_eq!(
        check_torch_inputs(&vec![tensor("int64", 8), tensor("bool", 3)]).unwrap(),
        vec![Kind::Int64, Kind::Bool]
    );
    assert_eq!(check_torch_inputs(&Vec::new()).unwrap(), Vec::new());
    let e = check_torch_inputs(&vec![tensor("bool", 1), tensor("int64", 4), tensor("uint32", 4)]);
    assert_eq!(
        e.unwrap_err().message(),
        "input byte length 4 is not a multiple of element size 8 for model 'torch model'"
    );
}

#[test]
fn torch_runs_where_it_can() {
    assert_eq!(to_tch_device(ModelDevice::Cpu, false, 0).unwrap(), None);
    assert_eq!(to_tch_device(ModelDevice::Cuda(1), true, 2).unwrap(), Some(1));
    assert_eq!(
        to_tch_device(ModelDevice::Cuda(0), false, 2).unwrap_err().message(),
        "CUDA model configured but CUDA is not available"
    );
    assert_eq!(
        to_tch_device(ModelDevice::Cuda(2), true, 2).unwrap_err().message(),
        "cuda device index 2 is out of range; 2 CUDA device(s) available"
    );
    assert_eq!(
        build_failure("no memory").message(),
        "failed to build input tensor for model 'torch model': no memory"
    );
    assert_eq!(
        load_failure("m", "bad zip").message(),
        "failed to load .pt model for 'm': bad zip"
    );
}

#[test]
fn torch_outputs_are_tensors() {
    let (backend, _) = TorchBackend::load("m", &declaring(PAIR)).unwrap();
    assert_eq!(backend.platform(), "pytorch_libtorch");
    let raw = |kind: Option<Kind>| RawTensor {
        shape: vec![1],
        bytes: vec![1, 2],
        kind,
        kind_text: "ComplexHalf".to_string(),
    };
    let one = backend.outputs(Forward::Tensor(raw(Some(Kind::Half)))).unwrap();
    assert_eq!(one[0].name, "y");
    assert_eq!(one[0].dtype, "float16");
    assert_eq!(one[0].data, vec![1, 2]);
    // A tensor beyond the declared ones is called `output`.
    let two = backend
        .outputs(Forward::Tuple(vec![
            TupleItem::Tensor(raw(Some(Kind::Half))),
            TupleItem::Tensor(raw(Some(Kind::Int16))),
        ]))
        .unwrap();
    assert_eq!(two[1].name, "output");
    let message = |forward| {
        let e = backend.outputs(forward).unwrap_err();
        assert_eq!(e.code(), Code::Internal);
        e.message().to_string()
    };
    assert_eq!(message(Forward::Failed("boom".to_string())), "Torch inference failed: boom");
    assert_eq!(
        message(Forward::Other("Int(3)".to_string())),
        "Torch inference failed: Internal torch error: model output was neither tensor nor tuple: Int(3)"
    );
    assert_eq!(
        message(Forward::Tuple(vec![TupleItem::Other("Int(3)".to_string())])),
        "Torch inference failed: Internal torch error: model tuple output element is non-tensor: Int(3)"
    );
    assert_eq!(
        message(Forward::Tensor(raw(None))),
        "Torch inference failed: Internal torch error: unsupported output tensor kind ComplexHalf"
    );
}

#[test]
fn native_models_need_their_engine() {
    let (_, contract) = TensorflowBackend::load("m", &declaring(PAIR)).unwrap();
    let spec = |signature: Option<&str>, device: ModelDevice| {
        let model = ModelConfig {
            name: "m".to_string(),
            device,
            queue_capacity: 1,
            backend: None,
            signature: signature.map(|s| s.to_string()),
        };
        NativeLoadSpec::new("m/a.onnx".to_string(), &model, &contract)
    };
    let (engine, loads) =
        load_native_model(NativeKind::Onnx, spec(None, ModelDevice::Cuda(1)), true).unwrap();
    assert_eq!(engine, Engine::Onnx);
    assert_eq!(loads.path, "m/a.onnx");
    assert_eq!(loads.cuda_index, Some(1));
    assert_eq!(loads.input_names, names(&["b", "a"]));
    assert_eq!(loads.output_names, names(&["y"]));
    assert_eq!(loads.signature, "serving_default");
    assert_eq!(spec(Some("mine"), ModelDevice::Cpu).signature, "mine");
    assert_eq!(spec(None, ModelDevice::Cpu).cuda_index, None);
    assert_eq!(
        load_native_model(NativeKind::Tensorflow, spec(None, ModelDevice::Cpu), false)
            .unwrap_err()
            .message(),
        "model uses the TensorFlow backend, but this server was built without it. Rebuild with `--features tensorflow` (or `./build.sh --tensorflow`)."
    );
    assert_eq!(names_or_signature_keys(names(&["q"]), &names(&["b", "a"])), names(&["q"]));
    assert_eq!(names_or_signature_keys(Vec::new(), &names(&["b", "a"])), names(&["a", "b"]));
    let t = NativeTensor::from_tensor(tensor("int8", 2)).into_tensor();
    assert_eq!((t.name.as_str(), t.dtype.as_str(), t.data.len()), ("x", "int8", 2));
}

#[test]
fn tensor_bytes_round_trip_across_kinds() {
    let values = [1.0f64, 2.0, 3.0, 4.0];
    let halves: [u16; 4] = [0x3c00, 0x4000, 0x4200, 0x4400];
    let brains: [u16; 4] = [0x3f80, 0x4000, 0x4040, 0x4080];
    for (kind, canonical, elt) in [
        (Kind::Int16, "int16", 2usize),
        (Kind::Int, "int32", 4),
        (Kind::Int64, "int64", 8),
        (Kind::Int8, "int8", 1),
        (Kind::Half, "float16", 2),
        (Kind::BFloat16, "bfloat16", 2),
        (Kind::Double, "float64", 8),
    ] {
        let mut given: Vec<u8> = Vec::new();
        for i in 0..4 {
            match kind {
                Kind::Int16 => given.extend((values[i] as i16).to_le_bytes()),
                Kind::Int => given.extend((values[i] as i32).to_le_bytes()),
                Kind::Int64 => given.extend((values[i] as i64).to_le_bytes()),
                Kind::Int8 => given.extend((values[i] as i8).to_le_bytes()),
                Kind::Half => given.extend(halves[i].to_le_bytes()),
                Kind::BFloat16 => given.extend(brains[i].to_le_bytes()),
                _ => given.extend(values[i].to_le_bytes()),
            }
        }
        let tensor = |bytes: &[u8]| RawTensor {
            shape: vec![2, 2],
            bytes: bytes.to_vec(),
            kind: Some(kind),
            kind_text: format!("{kind:?}"),
        };
        let (shape, bytes, dtype) = tensor_to_bytes(tensor(&given)).expect("serialize");
        assert_eq!(dtype, canonical, "dtype label for {kind:?}");
        assert_eq!(shape, vec![2, 2]);
        assert_eq!(bytes.len(), 4 * elt, "byte width for {kind:?}");

        assert_eq!(kind_from_canonical(&dtype), Some(kind));
        assert_eq!(check_input_bytes(&bytes, kind, "m").expect("deserialize"), 4);
        let (_, bytes2, _) = tensor_to_bytes(tensor(&bytes)).expect("re-serialize");
        assert_eq!(bytes, bytes2, "round-trip bytes for {kind:?}");
    }
}

#[test]
fn forward_passes_are_serialized() {
    let raw = |kind: Option<Kind>| RawTensor {
        shape: vec![1],
        bytes: vec![1, 2],
        kind,
        kind_text: "ComplexHalf".to_string(),
    };
    let half = (vec![1], vec![1, 2], "float16".to_string());
    assert_eq!(tensor_to_bytes(raw(Some(Kind::Half))), Ok(half.clone()));
    assert_eq!(
        tensor_to_bytes(raw(None)),
        Err("Internal torch error: unsupported output tensor kind ComplexHalf".to_string())
    );
    assert_eq!(
        run_forward_pass(SingleForward::Tensor(raw(Some(Kind::Half)))),
        Ok(half.clone())
    );
    assert_eq!(
        run_forward_pass(SingleForward::Other("Int(3)".to_string())),
        Err("Internal torch error: model output was non-tensor: Int(3)".to_string())
    );
    assert_eq!(
        run_forward_pass(SingleForward::Failed("boom".to_string())),
        Err("boom".to_string())
    );
    assert_eq!(
        run_multi_forward_pass(Forward::Tuple(vec![
            TupleItem::Tensor(raw(Some(Kind::Half))),
            TupleItem::Tensor(raw(Some(Kind::Int16))),
        ])),
        Ok(vec![half.clone(), (vec![1], vec![1, 2], "int16".to_string())])
    );
    assert_eq!(
        run_multi_forward_pass(Forward::Tensor(raw(Some(Kind::Half)))),
        Ok(vec![half])
    );
    assert_eq!(
        run_multi_forward_pass(Forward::Tuple(vec![
            TupleItem::Tensor(raw(None)),
            TupleItem::Other("Int(3)".to_string()),
        ])),
        Err("Internal torch error: unsupported output tensor kind ComplexHalf".to_string())
    );
    assert_eq!(
        run_multi_forward_pass(Forward::Other("Int(3)".to_string())),
        Err("Internal torch error: model output was neither tensor nor tuple: Int(3)".to_string())
    );
}
