use nereid_server::config::{
    validate_server_config, ModelConfig, ModelDevice, ServerConfig, ServerSection,
};

/// Reads a configuration field by field.
fn parse_config(raw: &str) -> Result<ServerConfig, String> {
    let root: serde_yaml::Value = serde_yaml::from_str(raw).map_err(|e| e.to_string())?;
    let text = |v: &serde_yaml::Value, key: &str| -> Result<String, String> {
        v.get(key)
            .and_then(|f| f.as_str())
            .map(|s| s.to_string())
            .ok_or(format!("missing field `{key}`"))
    };
    let server = root.get("server").ok_or("missing field `server`")?;
    let listed = root
        .get("models")
        .and_then(|m| m.as_sequence())
        .ok_or("missing field `models`")?;
    let mut models = Vec::new();
    for model in listed {
        models.push(ModelConfig {
            name: text(model, "name")?,
            device: ModelDevice::parse(&text(model, "device")?)?,
            queue_capacity: model
                .get("queue_capacity")
                .and_then(|q| q.as_u64())
                .ok_or("missing field `queue_capacity`")? as usize,
            backend: text(model, "backend").ok(),
            signature: text(model, "signature").ok(),
        });
    }
    Ok(ServerConfig {
        server: ServerSection {
            bind_addr: text(server, "bind_addr")?,
            ml_backends_path: text(server, "ml_backends_path")?,
            http_addr: text(server, "http_addr").ok(),
        },
        models,
    })
}

fn model(name: &str, queue_capacity: usize) -> ModelConfig {
    ModelConfig {
        name: name.to_string(),
        device: ModelDevice::Cpu,
        queue_capacity,
        backend: None,
        signature: None,
    }
}

fn config(bind_addr: &str, path: &str, http: Option<&str>, models: Vec<ModelConfig>) -> ServerConfig {
    ServerConfig {
        server: ServerSection {
            bind_addr: bind_addr.to_string(),
            ml_backends_path: path.to_string(),
            http_addr: http.map(|a| a.to_string()),
        },
        models,
    }
}

#[test]
fn config_parses_when_valid() {
    let config = parse_config(
        r#"
server:
  bind_addr: "[::1]:50051"
  ml_backends_path: "ml-backends"
models:
  - name: "model3"
    device: "cpu"
    queue_capacity: 16
"#,
    )
    .expect("config should parse");

    validate_server_config(&config).expect("config should validate");
}

#[test]
fn config_rejects_duplicate_model_names() {
    let config = parse_config(
        r#"
server:
  bind_addr: "[::1]:50051"
  ml_backends_path: "ml-backends"
models:
  - name: "same"
    device: "cpu"
    queue_capacity: 16
  - name: "same"
    device: "cuda"
    queue_capacity: 8
"#,
    )
    .expect("config should parse");

    assert!(validate_server_config(&config).is_err());
}

#[test]
fn config_rejects_zero_queue_capacity() {
    let config = parse_config(
        r#"
server:
  bind_addr: "[::1]:50051"
  ml_backends_path: "ml-backends"
models:
  - name: "model3"
    device: "cpu"
    queue_capacity: 0
"#,
    )
    .expect("config should parse");

    assert!(validate_server_config(&config).is_err());
}

#[test]
fn config_rejects_invalid_device_value() {
    let result = parse_config(
        r#"
server:
  bind_addr: "[::1]:50051"
  ml_backends_path: "ml-backends"
models:
  - name: "model3"
    device: "metal"
    queue_capacity: 8
"#,
    );

    assert!(result.is_err());
}

#[test]
fn config_parses_cuda_with_explicit_device_index() {
    let config = parse_config(
        r#"
server:
  bind_addr: "[::1]:50051"
  ml_backends_path: "ml-backends"
models:
  - name: "model3"
    device: "cuda:1"
    queue_capacity: 8
"#,
    )
    .expect("config should parse");

    assert!(matches!(config.models[0].device, ModelDevice::Cuda(1)));
}

#[test]
fn config_defaults_bare_cuda_to_device_zero() {
    let config = parse_config(
        r#"
server:
  bind_addr: "[::1]:50051"
  ml_backends_path: "ml-backends"
models:
  - name: "model3"
    device: "cuda"
    queue_capacity: 8
"#,
    )
    .expect("config should parse");

    assert!(matches!(config.models[0].device, ModelDevice::Cuda(0)));
}

#[test]
fn config_rejects_non_numeric_cuda_index() {
    let result = parse_config(
        r#"
server:
  bind_addr: "[::1]:50051"
  ml_backends_path: "ml-backends"
models:
  - name: "model3"
    device: "cuda:abc"
    queue_capacity: 8
"#,
    );

    assert!(result.is_err());
}

#[test]
fn config_complaints() {
    let complaint = |c: ServerConfig| validate_server_config(&c).expect_err("refused");
    assert_eq!(
        complaint(config("  ", "m", None, vec![model("a", 1)])),
        "server.bind_addr must be non-empty"
    );
    assert_eq!(
        complaint(config("x", "\t", None, vec![model("a", 1)])),
        "server.ml_backends_path must be non-empty"
    );
    assert_eq!(
        complaint(config("x", "m", None, vec![])),
        "config must contain at least one model"
    );
    assert_eq!(
        complaint(config("x", "m", None, vec![model(" ", 1)])),
        "model name must be non-empty"
    );
    assert_eq!(
        complaint(config("x", "m", None, vec![model("a", 0)])),
        "queue_capacity must be > 0 for model 'a'"
    );
    assert_eq!(
        complaint(config("x", "m", None, vec![model("a", 1), model("b", 1), model("a", 1)])),
        "duplicate model name in config: 'a'"
    );
    assert!(validate_server_config(&config("x", "m", Some("x"), vec![model("a", 1)])).is_err());
    assert!(validate_server_config(&config("x", "m", Some("y"), vec![model("a", 1)])).is_ok());
}

#[test]
fn devices_and_signatures() {
    assert_eq!(ModelDevice::parse("cpu").unwrap().cuda_index(), None);
    assert_eq!(ModelDevice::parse("cuda:7").unwrap().cuda_index(), Some(7));
    assert_eq!(
        ModelDevice::parse("metal").unwrap_err(),
        "invalid device 'metal': expected \"cpu\", \"cuda\", or \"cuda:<index>\""
    );
    assert!(ModelDevice::parse("cuda:").is_err());
    let mut m = model("a", 1);
    assert_eq!(m.tf_signature(), "serving_default");
    m.signature = Some("predict".to_string());
    assert_eq!(m.tf_signature(), "predict");
}
