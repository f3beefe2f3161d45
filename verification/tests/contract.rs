use nereid_server::contract::{Contract, TensorSpec};
use nereid_server::status::Code;
use nereid_server::textproto::{textproto_is_multi, TextFile};

fn file(contents: &str) -> TextFile {
    TextFile {
        path: "m/model_inference.textproto".to_string(),
        contents: Ok(contents.to_string()),
    }
}

fn spec(name: &str, dims: Vec<i64>) -> TensorSpec {
    TensorSpec {
        name: name.to_string(),
        dtype: "FP32".to_string(),
        dims,
    }
}

fn input_contract(dims: Vec<i64>, max_batch_size: i64) -> Contract {
    Contract {
        inputs: vec![spec("input", dims)],
        outputs: Vec::new(),
        max_batch_size,
        strict_output_dtype: false,
    }
}

#[test]
fn flat_contract_allows_variable_dims_and_max_batch_size() {
    let contract =
        Contract::parse(&file("input_shape: [-1, 16]\nmax_batch_size: 8\n")).expect("parse contract");
    assert_eq!(contract.inputs.len(), 1);
    assert_eq!(contract.inputs[0].dims, vec![-1, 16]);
    assert_eq!(contract.max_batch_size, 8);
    assert!(contract.outputs.is_empty());
    assert!(!contract.strict_output_dtype);

    let spec = &contract.inputs[0];
    contract
        .validate_input_shape(spec, &[4, 10, 16], "model")
        .expect("shape should match");
    assert!(contract
        .validate_input_shape(spec, &[9, 10, 16], "model")
        .is_err());
    assert!(contract
        .validate_input_shape(spec, &[4, 10, 15], "model")
        .is_err());
}

#[test]
fn multi_contract_parses_nested_blocks() {
    let multi = file(
        "max_batch_size: 4\n\
         input {\n  name: \"a\"\n  data_type: \"FP32\"\n  dims: [4]\n}\n\
         input {\n  name: \"b\"\n  dims: [4]\n}\n\
         output {\n  name: \"sum\"\n  data_type: \"FP32\"\n  dims: [4]\n}\n",
    );
    assert!(textproto_is_multi(&multi), "nested blocks -> multi");
    let contract = Contract::parse(&multi).expect("parse multi contract");
    assert_eq!(contract.max_batch_size, 4);
    assert!(contract.strict_output_dtype);
    assert_eq!(contract.inputs.len(), 2);
    assert_eq!(contract.inputs[0].name, "a");
    assert_eq!(contract.inputs[0].dtype, "FP32");
    assert_eq!(contract.inputs[0].dims, vec![4]);
    // data_type defaults to FP32 when omitted.
    assert_eq!(contract.inputs[1].name, "b");
    assert_eq!(contract.inputs[1].dtype, "FP32");
    assert_eq!(contract.outputs.len(), 1);
    assert_eq!(contract.outputs[0].name, "sum");

    // A flat single-tensor textproto is NOT detected as multi.
    let flat = file("input_shape: [16]\nmax_batch_size: 8\n");
    assert!(!textproto_is_multi(&flat), "flat form -> not multi");
}

#[test]
fn multi_contract_rejects_block_missing_dims() {
    let bad = file("input {\n  name: \"a\"\n}\noutput {\n  name: \"y\"\n  dims: [4]\n}\n");
    assert!(
        Contract::parse(&bad).is_err(),
        "input without dims must be rejected"
    );
}

#[test]
fn invalid_output_shape_error_names_output_shape() {
    let err = Contract::parse(&file("output_shape: not-a-list\n")).expect_err("should reject");
    assert!(
        err.message().contains("output_shape"),
        "error should name output_shape, got: {}",
        err.message()
    );
}

#[test]
fn flat_contract_parses_output_shape_when_present() {
    let contract = Contract::parse(&file(
        "input_shape: [4]\nmax_batch_size: 4\noutput_shape: [4]\n",
    ))
    .expect("parse contract");
    assert_eq!(contract.outputs.len(), 1);
    assert_eq!(contract.outputs[0].dims, vec![4]);

    // A contract with no output_shape line has no declared output.
    let no_output =
        Contract::parse(&file("input_shape: [4]\nmax_batch_size: 4\n")).expect("parse contract");
    assert!(no_output.outputs.is_empty());
}

#[test]
fn validate_output_shape_accepts_declared_and_rejects_mismatch() {
    let contract = Contract {
        inputs: vec![spec("input", vec![4])],
        outputs: vec![spec("output", vec![4])],
        max_batch_size: 4,
        strict_output_dtype: false,
    };
    let out = &contract.outputs[0];

    // With or without the optional batch dimension.
    contract
        .validate_output_shape(out, &[1, 4], Some(1), "m")
        .expect("batched output ok");
    contract
        .validate_output_shape(out, &[4], None, "m")
        .expect("unbatched output ok");

    // Wrong trailing dim and wrong rank are both rejected.
    assert!(contract
        .validate_output_shape(out, &[1, 5], Some(1), "m")
        .is_err());
    assert!(contract
        .validate_output_shape(out, &[1, 1, 4], Some(1), "m")
        .is_err());

    // Output batch that disagrees with the input batch is rejected.
    assert!(
        contract
            .validate_output_shape(out, &[3, 4], Some(2), "m")
            .is_err(),
        "output batch 3 must not pass for input batch 2"
    );
    contract
        .validate_output_shape(out, &[2, 4], Some(2), "m")
        .expect("matching batch ok");

    // A -1 declared dim matches any positive size.
    let variable = Contract {
        inputs: vec![spec("input", vec![4])],
        outputs: vec![spec("output", vec![-1])],
        max_batch_size: 0,
        strict_output_dtype: false,
    };
    variable
        .validate_output_shape(&variable.outputs[0], &[7], None, "m")
        .expect("variable output dim ok");
}

#[test]
fn flat_contract_without_batch_uses_request_shape_directly() {
    let contract = input_contract(vec![-1, 16], 0);
    let spec = &contract.inputs[0];
    contract
        .validate_input_shape(spec, &[10, 16], "model")
        .expect("shape should match");
    assert!(contract
        .validate_input_shape(spec, &[1, 10, 16], "model")
        .is_err());
}

#[test]
fn flat_contract_auto_expands_missing_batch_dim() {
    let contract = input_contract(vec![16], 10);
    let spec = &contract.inputs[0];

    // Bare shape (batch omitted) and explicit batch shape both validate.
    contract
        .validate_input_shape(spec, &[16], "model")
        .expect("bare shape should be accepted");
    contract
        .validate_input_shape(spec, &[2, 16], "model")
        .expect("explicit batch shape should be accepted");

    // The bare shape is expanded to a leading batch dimension of 1, while an
    // explicit batch shape is passed through untouched.
    assert_eq!(
        contract.normalize_request_shape(spec, vec![16]),
        vec![1, 16]
    );
    assert_eq!(
        contract.normalize_request_shape(spec, vec![2, 16]),
        vec![2, 16]
    );

    // A genuinely wrong rank is still rejected.
    assert!(contract
        .validate_input_shape(spec, &[1, 1, 16], "model")
        .is_err());
}

#[test]
fn flat_contract_allows_multiple_variable_dims() {
    let contract = input_contract(vec![-1, -1, 16], 4);
    let spec = &contract.inputs[0];
    contract
        .validate_input_shape(spec, &[2, 5, 7, 16], "model")
        .expect("shape should match");
    assert!(contract
        .validate_input_shape(spec, &[2, 5, 7, 15], "model")
        .is_err());
}

#[test]
fn request_shape_messages() {
    let contract = input_contract(vec![16], 10);
    let spec = &contract.inputs[0];
    let refusal = |shape: &[i64]| {
        let e = contract
            .validate_input_shape(spec, shape, "m")
            .expect_err("refused");
        assert_eq!(e.code(), Code::InvalidArgument);
        e.message().to_string()
    };
    assert_eq!(refusal(&[]), "tensor chunk shape is required");
    assert_eq!(
        refusal(&[0, 16]),
        "tensor chunk shape dimensions must be positive"
    );
    assert_eq!(
        refusal(&[11, 16]),
        "batch size 11 exceeds max_batch_size 10 for model 'm'"
    );
    assert_eq!(
        refusal(&[1, 15]),
        "input tensor shape mismatch for model 'm' at dimension 1: expected 16, got 15"
    );
    assert_eq!(
        refusal(&[1, 1, 16]),
        "input tensor rank mismatch for model 'm': expected 2 (or 1 without the batch dimension), got 3"
    );
}

#[test]
fn output_shape_messages() {
    let contract = Contract {
        inputs: Vec::new(),
        outputs: vec![spec("output", vec![4])],
        max_batch_size: 2,
        strict_output_dtype: false,
    };
    let out = &contract.outputs[0];
    let complaint = |shape: &[i64], batch: Option<i64>| {
        let e = contract
            .validate_output_shape(out, shape, batch, "m")
            .expect_err("refused");
        assert_eq!(e.code(), Code::Internal);
        e.message().to_string()
    };
    assert_eq!(
        complaint(&[3, 4], Some(2)),
        "model 'm' output batch size 3 does not match input batch size 2"
    );
    assert_eq!(
        complaint(&[2, 5], Some(2)),
        "model 'm' output shape mismatch at dimension 1: declared 4, got 5"
    );
}

#[test]
fn blocks_may_stand_on_one_line() {
    let contract = Contract::parse(&file(
        "input { name: \"x\" data_type: \"INT64\" dims: [2, -1] }\noutput { name: \"y\" dims: [1] }\n",
    ))
    .expect("one-line blocks");
    assert_eq!(contract.inputs[0].name, "x");
    assert_eq!(contract.inputs[0].dtype, "INT64");
    assert_eq!(contract.inputs[0].dims, vec![2, -1]);
    assert_eq!(contract.outputs[0].name, "y");
    assert_eq!(contract.outputs[0].dtype, "FP32");
}

#[test]
fn what_follows_an_opening_brace_does_not_count_but_as_a_whole_block() {
    let plain = "input {\n  name: \"x\"\n  dims: [2]\n}\noutput {\n  name: \"y\"\n  dims: [3]\n}\n";
    let contract = Contract::parse(&file(plain)).expect("plain");
    assert_eq!(contract.inputs[0].name, "x");
    for after in [
        "junk",
        "}",
        " } ",
        "name: \"z\"",
        "data_type: \"INT32\"",
        "dims: nothing",
        "name: \"z\" dims: [0] }",
        "name: \"z\" dims: [4] } junk",
        "name: \"z\" }",
        ": }",
    ] {
        let text = plain.replacen("input {", &format!("input {{ {after}"), 1);
        let other = Contract::parse(&file(&text)).expect(&text);
        assert_eq!(format!("{contract:?}"), format!("{other:?}"), "{text}");
    }
    let open = plain.replacen("input {\n  name: \"x\"", "input { name: \"x\"", 1);
    let e = Contract::parse(&file(&open)).unwrap_err();
    assert_eq!(e.code(), Code::FailedPrecondition);
    assert_eq!(e.message(), "block missing name in m/model_inference.textproto");
    let e = Contract::parse(&file("input { name: \"x\" }\noutput { name: \"y\" dims: [1] }\n")).unwrap_err();
    assert_eq!(e.message(), "nested/unclosed block in m/model_inference.textproto");
}

#[test]
fn flat_contract_declares_one_datatype() {
    let contract = Contract::parse(&file(
        "# adds one\ninput_shape: [4]   # values\n\ndata_type: INT32\noutput_shape: [4]\n",
    ))
    .expect("flat");
    assert_eq!(contract.inputs[0].name, "input");
    assert_eq!(contract.inputs[0].dtype, "INT32");
    assert_eq!(contract.outputs[0].name, "output");
    assert_eq!(contract.outputs[0].dtype, "INT32");
    assert_eq!(contract.metadata_shape(&contract.inputs[0]), vec![4]);
    assert!(!contract.has_batch_dim());
    assert_eq!(contract.expected_batch(&[1, 4]), None);
}

#[test]
fn batched_contract_advertises_a_variable_batch() {
    let contract = input_contract(vec![16], 10);
    assert_eq!(contract.metadata_shape(&contract.inputs[0]), vec![-1, 16]);
    assert_eq!(contract.expected_batch(&[3, 16]), Some(3));
    assert!(contract.has_input());
}

#[test]
fn malformed_files_are_refused() {
    for contents in [
        "",
        "max_batch_size: 4\n",
        "input_shape: []\n",
        "input_shape: [0]\n",
        "input_shape: [-2]\n",
        "input_shape: [x]\n",
        "input_shape: [4]\nmax_batch_size: -1\n",
        "input_shape: [4]\nmax_batch_size: many\n",
        "input_shape: [4]\ndata_type: BYTES\n",
        "no colon\n",
    ] {
        let e = Contract::parse(&file(contents)).expect_err(contents);
        assert_eq!(e.code(), Code::FailedPrecondition, "{contents}");
    }
    let unreadable = TextFile {
        path: "m/model_inference.textproto".to_string(),
        contents: Err("No such file".to_string()),
    };
    assert_eq!(
        Contract::parse(&unreadable).expect_err("unreadable").message(),
        "failed to read m/model_inference.textproto: No such file"
    );
}

#[test]
fn comments_never_change_a_contract() {
    let flat = "input_shape: [16]\nmax_batch_size: 10\noutput_shape: [1]\ndata_type: \"INT32\"\n";
    let commented = "# a model\n\ninput_shape: [16]   # sixteen: values\n\t\n\
                     max_batch_size: 10#ten\r\n   # input {\noutput_shape: [1] # one\n\
                     data_type: \"INT32\"\n# the end";
    let plain = Contract::parse(&file(flat)).expect("flat");
    assert_eq!(plain.max_batch_size, 10);
    let other = Contract::parse(&file(commented)).expect("commented flat");
    assert_eq!(format!("{plain:?}"), format!("{other:?}"));

    let blocks = "max_batch_size: 4\ninput {\n  name: \"x\"\n  dims: [2, -1]\n}\n\
                  output { name: \"y\" dims: [3] }\n";
    let commented = "# blocks\nmax_batch_size: 4 # four\n\ninput { # the only one\n  name: \"x\"\n\
                     # }\n  dims: [2, -1]  # any\n\n}\noutput { name: \"y\" dims: [3] } # done\n";
    let plain = Contract::parse(&file(blocks)).expect("blocks");
    assert_eq!(plain.inputs.len(), 1);
    let other = Contract::parse(&file(commented)).expect("commented blocks");
    assert_eq!(format!("{plain:?}"), format!("{other:?}"));
}
