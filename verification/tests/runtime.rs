use nereid_server::config::{ModelConfig, ModelDevice, ServerConfig, ServerSection};
use nereid_server::folder::{Folder, FolderEntry};
use nereid_server::runtime::{
    detect_backend_kind, read_input_contract_from_textproto, tensor_failure,
    tensor_from_input_bytes, worker_failure, ConfiguredBackend, DetectedBackendKind, Handover, InputShapeContract, ModelHandle,
    ModelManager,
};
use nereid_server::status::Code;
use nereid_server::textproto::TextFile;
use nereid_server::torch::find_exactly_one_pt_model_file;

fn folder(files: &[&str]) -> Folder {
    Folder {
        files: files.iter().map(|f| f.to_string()).collect(),
        dirs: Vec::new(),
        listing: Ok(files
            .iter()
            .map(|name| {
                Ok(FolderEntry {
                    name: name.to_string(),
                    path: format!("models/{name}"),
                    is_file: true,
                })
            })
            .collect()),
    }
}

fn file(contents: &str) -> TextFile {
    TextFile {
        path: "m/model_inference.textproto".to_string(),
        contents: Ok(contents.to_string()),
    }
}

#[test]
fn model_runtime_find_exactly_one_pt_file_rejects_missing_and_multiple() {
    assert!(find_exactly_one_pt_model_file(&folder(&[])).is_err());
    assert!(find_exactly_one_pt_model_file(&folder(&["a.pt", "b.pt"])).is_err());
}

#[test]
fn model_runtime_model3_has_single_pt_file_in_fixture() {
    find_exactly_one_pt_model_file(&folder(&["mlp.pt", "model_inference.textproto"]))
        .expect("model3 should have one .pt file");
}

#[test]
fn input_contract_allows_variable_dims_and_max_batch_size() {
    let contract =
        read_input_contract_from_textproto(&file("input_shape: [-1, 16]\nmax_batch_size: 8\n"))
            .expect("parse contract");
    assert_eq!(
        contract,
        InputShapeContract {
            input_shape: Some(vec![-1, 16]),
            output_shape: None,
            max_batch_size: 8
        }
    );

    contract
        .validate_request_shape(&[4, 10, 16], "model")
        .expect("shape should match");
    assert!(contract
        .validate_request_shape(&[9, 10, 16], "model")
        .is_err());
    assert!(contract
        .validate_request_shape(&[4, 10, 15], "model")
        .is_err());
}

#[test]
fn input_contract_without_batch_uses_request_shape_directly() {
    let contract = InputShapeContract {
        input_shape: Some(vec![-1, 16]),
        output_shape: None,
        max_batch_size: 0,
    };

    contract
        .validate_request_shape(&[10, 16], "model")
        .expect("shape should match");
    assert!(contract
        .validate_request_shape(&[1, 10, 16], "model")
        .is_err());
}

#[test]
fn input_contract_auto_expands_missing_batch_dim() {
    let contract = InputShapeContract {
        input_shape: Some(vec![16]),
        output_shape: None,
        max_batch_size: 10,
    };

    // Bare shape (batch omitted) and explicit batch shape both validate.
    contract
        .validate_request_shape(&[16], "model")
        .expect("bare shape should be accepted");
    contract
        .validate_request_shape(&[2, 16], "model")
        .expect("explicit batch shape should be accepted");

    // The bare shape is expanded to a leading batch dimension of 1, while an
    // explicit batch shape is passed through untouched.
    assert_eq!(contract.normalize_request_shape(vec![16]), vec![1, 16]);
    assert_eq!(contract.normalize_request_shape(vec![2, 16]), vec![2, 16]);

    // A genuinely wrong rank is still rejected.
    assert!(contract
        .validate_request_shape(&[1, 1, 16], "model")
        .is_err());
}

#[test]
fn detect_backend_kind_recognizes_python_folder() {
    let base = folder(&["main.py", "requirements.txt"]);
    assert_eq!(
        detect_backend_kind(&base, "model", None).expect("should detect python"),
        DetectedBackendKind::Python
    );
}

#[test]
fn detect_backend_kind_recognizes_rust_folder() {
    let base = folder(&["model_inference.textproto", "model.pt"]);
    assert_eq!(
        detect_backend_kind(&base, "model", None).expect("should detect rust"),
        DetectedBackendKind::Rust
    );
}

#[test]
fn detect_backend_kind_rejects_ambiguous_folder() {
    let base = folder(&[
        "main.py",
        "requirements.txt",
        "model_inference.textproto",
        "model.pt",
    ]);

    // Auto-detection (no declared backend) is ambiguous and rejected...
    assert!(detect_backend_kind(&base, "model", None).is_err());
    // ...but an explicit backend disambiguates, allowing a `.pt` to live
    // alongside main.py (and vice versa).
    assert_eq!(
        detect_backend_kind(&base, "model", Some(ConfiguredBackend::Python))
            .expect("declared python resolves"),
        DetectedBackendKind::Python
    );
    assert_eq!(
        detect_backend_kind(&base, "model", Some(ConfiguredBackend::Rust))
            .expect("declared rust resolves"),
        DetectedBackendKind::Rust
    );
}

#[test]
fn detect_backend_kind_declared_backend_requires_its_files() {
    // A folder with only Python files but declaring backend "rust" fails.
    let base = folder(&["main.py", "requirements.txt"]);
    assert!(
        detect_backend_kind(&base, "model", Some(ConfiguredBackend::Rust)).is_err(),
        "declared rust without a .pt/textproto must fail"
    );
    assert_eq!(
        detect_backend_kind(&base, "model", Some(ConfiguredBackend::Python))
            .expect("declared python matches files"),
        DetectedBackendKind::Python
    );
}

#[test]
fn detect_backend_kind_rejects_empty_folder() {
    assert!(detect_backend_kind(&folder(&[]), "model", None).is_err());
}

#[test]
fn input_contract_allows_multiple_variable_dims() {
    let contract = InputShapeContract {
        input_shape: Some(vec![-1, -1, 16]),
        output_shape: None,
        max_batch_size: 4,
    };

    contract
        .validate_request_shape(&[2, 5, 7, 16], "model")
        .expect("shape should match");
    assert!(contract
        .validate_request_shape(&[2, 5, 7, 15], "model")
        .is_err());
}

#[test]
fn the_output_is_checked_where_it_is_declared() {
    let declared = read_input_contract_from_textproto(&file("output_shape: [4]\nmax_batch_size: 2\n"))
        .expect("parse");
    assert!(!declared.has_input());
    assert_eq!(declared.output_shape(), Some([4i64].as_slice()));
    assert_eq!(declared.max_batch_size(), 2);
    assert!(declared.validate_output_shape(&[2, 4], Some(2), "m").is_ok());
    assert!(declared.validate_output_shape(&[4], Some(2), "m").is_ok());
    let e = declared.validate_output_shape(&[1, 1, 4], None, "m").unwrap_err();
    assert_eq!(e.code(), Code::Internal);
    assert_eq!(e.message(), "model 'm' output rank mismatch: declared 1 dims, got 3");
    let e = declared.validate_request_shape(&[4], "m").unwrap_err();
    assert_eq!(e.message(), "model 'm' declares no input tensor");
    assert_eq!(declared.normalize_request_shape(vec![4]), vec![4]);
    let undeclared = InputShapeContract {
        input_shape: None,
        output_shape: None,
        max_batch_size: 0,
    };
    assert!(undeclared.validate_output_shape(&[9, 9], None, "m").is_ok());
}

#[test]
fn bytes_must_fill_the_shape() {
    let bytes: Vec<u8> = [1.5f32, -2.0, 0.0, 3.25]
        .iter()
        .flat_map(|v| v.to_le_bytes())
        .collect();
    let words = tensor_from_input_bytes(&bytes, &[2, 2], "m").unwrap();
    let values: Vec<f32> = words.into_iter().map(f32::from_bits).collect();
    assert_eq!(values, vec![1.5, -2.0, 0.0, 3.25]);
    assert_eq!(
        tensor_failure("no memory").message(),
        "failed to build input tensor from stream chunks: no memory"
    );
    let message = |bytes: &[u8], shape: &[i64]| {
        let e = tensor_from_input_bytes(bytes, shape, "m").unwrap_err();
        assert_eq!(e.code(), Code::InvalidArgument);
        e.message().to_string()
    };
    assert_eq!(
        message(&[], &[1]),
        "no tensor chunk data provided for Rust inference model"
    );
    assert_eq!(
        message(&[0; 3], &[1]),
        "tensor chunk bytes must be a multiple of 4 for float32"
    );
    assert_eq!(
        message(&[0; 8], &[3]),
        "input tensor size mismatch for model 'm': expected 3 values from request shape, got 2"
    );
    assert_eq!(
        message(&[0; 4], &[i64::MAX, 2]),
        "tensor shape overflow"
    );
}

fn two_models() -> ModelManager {
    let model = |name: &str| ModelConfig {
        name: name.to_string(),
        device: ModelDevice::Cpu,
        queue_capacity: 2,
        backend: None,
        signature: None,
    };
    let config = ServerConfig {
        server: ServerSection {
            bind_addr: "x".to_string(),
            ml_backends_path: "models".to_string(),
            http_addr: None,
        },
        models: vec![model("mlp"), model("script")],
    };
    let rust = ModelHandle::load_rust("mlp", 2, &file("input_shape: [16]\n")).unwrap();
    let python = ModelHandle::load_python(
        "script",
        "models/script",
        &folder(&["model_inference.textproto"]),
        &file("output_shape: [1]\n"),
    )
    .unwrap();
    ModelManager::from_config(&config, vec![rust, python])
}

#[test]
fn a_worker_counts_the_places_in_its_queue() {
    let mut manager = two_models();
    assert_eq!(manager.configured_models(), vec!["mlp", "script"]);
    let worker = manager.worker("mlp").unwrap();
    assert_eq!(manager.enqueue(worker, Handover::Taken).unwrap(), 1);
    assert_eq!(manager.enqueue(worker, Handover::Taken).unwrap(), 2);
    let full = manager.enqueue(worker, Handover::Full).unwrap_err();
    assert_eq!(full.code(), Code::ResourceExhausted);
    assert_eq!(full.message(), "model queue full, retry later");
    manager.job_done(worker);
    assert_eq!(manager.enqueue(worker, Handover::Taken).unwrap(), 2);
    let gone = manager.enqueue(worker, Handover::Closed).unwrap_err();
    assert_eq!(gone.message(), "worker for model 'mlp' is unavailable");
}

#[test]
fn only_a_worker_takes_jobs() {
    let manager = two_models();
    let e = manager.worker("script").unwrap_err();
    assert_eq!(e.code(), Code::FailedPrecondition);
    assert_eq!(
        e.message(),
        "model 'script' is a python backend and does not support tensor inference"
    );
    assert_eq!(manager.worker("ghost").unwrap_err().code(), Code::NotFound);
    assert_eq!(manager.python_model_dir("script"), Some("models/script".to_string()));
    assert_eq!(manager.python_model_dir("mlp"), None);
    assert!(manager.input_contract("mlp").unwrap().has_input());
    assert!(manager.input_contract("ghost").is_none());
    assert_eq!(
        worker_failure("mlp", "boom").message(),
        "Rust inference failed for 'mlp': boom"
    );
}

#[test]
fn models_declare_what_they_need() {
    let e = ModelHandle::load_rust("mlp", 2, &file("output_shape: [1]\n")).unwrap_err();
    assert_eq!(
        e.message(),
        "Rust model 'mlp' must declare input_shape in model_inference.textproto"
    );
    let e = ModelHandle::load_python("s", "d", &folder(&[]), &file("output_shape: [1]\n"))
        .unwrap_err();
    assert_eq!(
        e.message(),
        "Python model 's' must include a model_inference.textproto declaring output_shape"
    );
    let e = ModelHandle::load_python(
        "s",
        "d",
        &folder(&["model_inference.textproto"]),
        &file("input_shape: [1]\n"),
    )
    .unwrap_err();
    assert_eq!(
        e.message(),
        "Python model 's' must declare output_shape in model_inference.textproto (every reply is a typed tensor)"
    );
}
