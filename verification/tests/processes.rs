use nereid_server::child::{
    child_result, drain, infer_by_child, output_details, plan_inference, quote,
    read_reply_contract, unique_output_path, ChildEnd, CommandOutput, Runner, TensorInput,
    DRAIN_CAP,
};
use nereid_server::cpp::{
    cpp_binary_path, cpp_model_built, prepare_cpp_model, run_cpp_inference, BuildStep, CppBackend,
};
use nereid_server::folder::Folder;
use nereid_server::frame::{frame_type, parse_float_tensor, parse_framed_tensor};
use nereid_server::python::{
    prepare_venv, venv_pip_path, venv_python_path, PythonBackend, ScriptEnd, VenvAction, VenvEvent,
};
use nereid_server::runtime::InputShapeContract;
use nereid_server::scripts::{
    env_failure, finish_script, plan_script, prepare_model_envs, stream_line, EnvFault,
    PythonInput,
};
use nereid_server::status::Code;
use nereid_server::tensor::Tensor;
use nereid_server::textproto::TextFile;

fn output(success: bool, stdout: &str, stderr: &str) -> CommandOutput {
    CommandOutput {
        success,
        stdout: stdout.as_bytes().to_vec(),
        stderr: stderr.as_bytes().to_vec(),
    }
}

fn folder_of(files: &[&str]) -> Folder {
    Folder {
        files: files.iter().map(|f| f.to_string()).collect(),
        dirs: Vec::new(),
        listing: Ok(Vec::new()),
    }
}

fn declaring(contents: &str) -> TextFile {
    TextFile {
        path: "m/model_inference.textproto".to_string(),
        contents: Ok(contents.to_string()),
    }
}

fn exited(success: bool, code: Option<i32>, stderr: &[u8], output: Result<Vec<u8>, String>) -> ChildEnd {
    ChildEnd::Exited {
        success,
        code,
        stderr: stderr.to_vec(),
        output,
    }
}

#[test]
fn what_a_process_wrote_is_quoted_as_text() {
    assert_eq!(quote(b"  two words \r\n"), "two words");
    assert_eq!(quote("gr\u{fc}n\n".as_bytes()), "gr\u{fc}n");
    assert_eq!(quote(b"bad \xff byte"), "bad \u{fffd} byte");
    assert_eq!(quote(b""), "");
}

#[test]
fn standard_error_is_quoted_first() {
    assert_eq!(output_details(&output(false, "out", " err "), "none"), "err");
    assert_eq!(output_details(&output(false, "out\n", " \n"), "none"), "out");
    assert_eq!(output_details(&output(false, "", ""), "none"), "none");
}

#[test]
fn output_files_are_named_by_model_and_run() {
    assert_eq!(unique_output_path("my model/1", 12, 7), "nereid-out-my_model_1-12-7.bin");
    assert_ne!(unique_output_path("a-1", 1, 1), unique_output_path("a", 1, 11));
}

#[test]
fn only_the_beginning_of_a_stream_is_kept() {
    let mut kept = Vec::new();
    drain(&mut kept, b"abc");
    assert_eq!(kept, b"abc");
    drain(&mut kept, &vec![1; DRAIN_CAP]);
    assert_eq!(kept.len(), DRAIN_CAP);
    assert_eq!(&kept[..4], b"abc\x01");
    drain(&mut kept, b"more");
    assert_eq!(kept.len(), DRAIN_CAP);
    assert_eq!(DRAIN_CAP, 64 * 1024);
}

#[test]
fn a_child_writes_the_type_it_reads() {
    let input = Some(TensorInput::of(&Tensor {
        name: "x".to_string(),
        shape: vec![2, -1],
        dtype: "int16".to_string(),
        data: vec![1, 2, 3, 4],
    }));
    let plan = plan_inference("/tmp/o.bin", &input);
    let env: Vec<(&str, &str)> = plan.env.iter().map(|(k, v)| (k.as_str(), v.as_str())).collect();
    assert_eq!(
        env,
        vec![
            ("NEREID_OUTPUT_PATH", "/tmp/o.bin"),
            ("NEREID_OUTPUT_DTYPE", "int16"),
            ("NEREID_INPUT_SHAPE", "2,-1"),
            ("NEREID_INPUT_DTYPE", "int16"),
        ]
    );
    assert_eq!(plan.stdin, Some(vec![1, 2, 3, 4]));

    let plan = plan_inference("/tmp/o.bin", &None);
    assert_eq!(plan.env.len(), 2);
    assert_eq!(plan.env[1], ("NEREID_OUTPUT_DTYPE".to_string(), "float32".to_string()));
    assert_eq!(plan.stdin, None);
}

#[test]
fn children_end_as_they_ended() {
    let failed = |runner: Runner, end: &ChildEnd| {
        let e = child_result(runner, "m", end).expect_err("failed");
        (e.code(), e.message().to_string())
    };
    assert_eq!(
        failed(Runner::Program, &ChildEnd::NotStarted("denied".to_string())),
        (Code::Internal, "failed to run model 'm': denied".to_string())
    );
    assert_eq!(
        failed(Runner::Script, &ChildEnd::NotStarted("denied".to_string())),
        (Code::Internal, "failed to run main.py for model 'm': denied".to_string())
    );
    assert_eq!(
        failed(Runner::Program, &ChildEnd::NotAwaited("gone".to_string())),
        (Code::Internal, "failed waiting on model 'm': gone".to_string())
    );
    assert_eq!(
        failed(Runner::Program, &exited(false, Some(3), b" oops\n", Err(String::new()))),
        (Code::Internal, "model 'm' exited with status 3: oops".to_string())
    );
    assert_eq!(
        failed(Runner::Script, &exited(false, None, b"", Err(String::new()))),
        (Code::Internal, "main.py for model 'm' exited with status signal".to_string())
    );
    let unread = "model 'm' declares a tensor output contract but wrote no readable tensor to NEREID_OUTPUT_PATH (No such file)";
    assert_eq!(
        failed(Runner::Program, &exited(true, Some(0), b"", Err("No such file".to_string()))),
        (Code::FailedPrecondition, unread.to_string())
    );
    assert_eq!(
        failed(Runner::Program, &exited(true, Some(0), b"hm", Err("No such file".to_string()))),
        (Code::FailedPrecondition, format!("{unread}; stderr: hm"))
    );
    let outputs = infer_by_child(
        Runner::Program,
        "m",
        &exited(true, Some(0), b"noise", Ok(b"int16 2\nabcd".to_vec())),
    )
    .expect("a tensor");
    assert_eq!(outputs.len(), 1);
    assert_eq!(outputs[0].name, "output");
    assert_eq!(outputs[0].dtype, "int16");
    assert_eq!(outputs[0].shape, vec![2]);
    assert_eq!(outputs[0].data, b"abcd");
}

#[test]
fn framed_tensors_are_checked() {
    let message = |raw: &[u8]| {
        let e = parse_framed_tensor(raw, "m").expect_err("refused");
        assert_eq!(e.code(), Code::Internal);
        e.message().to_string()
    };
    assert_eq!(message(b"float32 1"), "model 'm' output is missing the framed header line");
    assert_eq!(message(b"float32 \xff\n"), "model 'm' output header is not valid UTF-8");
    assert_eq!(message(b"text 1\nabcd"), "model 'm' output dtype 'text' is unsupported");
    assert_eq!(message(b"float32\nabcd"), "model 'm' output header is missing the shape: 'float32'");
    assert_eq!(
        message(b"float32 1,x\nabcd"),
        "model 'm' output shape dimension 'x' is invalid: invalid digit found in string"
    );
    assert_eq!(
        message(b"float32 0\n"),
        "model 'm' output shape dimensions must be positive, got 0"
    );
    assert_eq!(
        message(b"float32 1\nabc"),
        "model 'm' output byte length 3 is not a multiple of 4 (float32)"
    );
    assert_eq!(
        message(b"float32 2\nabcd"),
        "model 'm' output size mismatch: header shape implies 2 float32 elements, file holds 1"
    );
    assert_eq!(
        message(b"int8 4294967296,4294967296\n"),
        "model 'm' output shape overflow"
    );
    let (shape, bytes, dtype) = parse_framed_tensor(b"uint8 2,2\nab\nd", "m").expect("framed");
    assert_eq!((shape, bytes, dtype), (vec![2, 2], b"ab\nd".to_vec(), "uint8".to_string()));
}

#[test]
fn float_tensors_are_of_no_other_type() {
    assert_eq!(frame_type(b"int32 2\n"), Some("int32".to_string()));
    assert_eq!(
        parse_float_tensor(b"int32 1\nabcd", "m").expect_err("refused").message(),
        "model 'm' output dtype 'int32' is unsupported; only float32 is supported"
    );
    assert_eq!(
        parse_float_tensor(b"float32 1\nabcd", "m").expect("floats"),
        (vec![1], b"abcd".to_vec())
    );
}

#[test]
fn replies_must_be_declared() {
    let there = folder_of(&["model_inference.textproto"]);
    let e = read_reply_contract("C++", "m", &folder_of(&[]), &declaring("")).unwrap_err();
    assert_eq!(
        e.message(),
        "C++ model 'm' must include a model_inference.textproto declaring output_shape"
    );
    let e = read_reply_contract("C++", "m", &there, &declaring("input_shape: [1]\n")).unwrap_err();
    assert_eq!(
        e.message(),
        "C++ model 'm' must declare output_shape in model_inference.textproto (every reply is a typed tensor)"
    );
    let (python, contract) =
        PythonBackend::load("models/m", "m", &there, &declaring("output_shape: [4]\n")).unwrap();
    assert_eq!(python.platform(), "python");
    assert_eq!(python.model_dir, "models/m");
    assert_eq!(contract.outputs[0].dims, vec![4]);
    let (cpp, _) =
        CppBackend::load("models/m", "m", &there, &declaring("output_shape: [4]\n")).unwrap();
    assert_eq!(cpp.platform(), "cpp_subprocess");
    assert_eq!(cpp.model_name, "m");
}

#[test]
fn environments_are_prepared_step_by_step() {
    let step = |event: VenvEvent| match prepare_venv("m", "models/m/venv", &event) {
        Ok(action) => Ok(action),
        Err(e) => {
            assert_eq!(e.code(), Code::FailedPrecondition);
            Err(e.message().to_string())
        }
    };
    let looked = |requirements, exists, is_dir| VenvEvent::Looked {
        requirements,
        exists,
        is_dir,
    };
    assert_eq!(
        step(looked(false, false, false)),
        Err("requirements.txt not found for model 'm'".to_string())
    );
    assert_eq!(
        step(looked(true, true, false)),
        Err("path exists but is not a directory: models/m/venv".to_string())
    );
    assert_eq!(step(looked(true, false, false)), Ok(VenvAction::Create));
    assert_eq!(step(looked(true, true, true)), Ok(VenvAction::LookForPip));
    assert_eq!(
        step(VenvEvent::Created(Err("not there".to_string()))),
        Err("failed to run python3: not there".to_string())
    );
    assert_eq!(
        step(VenvEvent::Created(Ok(output(false, "", "")))),
        Err("failed to create venv for model 'm': no output".to_string())
    );
    assert_eq!(step(VenvEvent::Created(Ok(output(true, "", "")))), Ok(VenvAction::LookForPip));
    assert_eq!(
        step(VenvEvent::LookedForPip(false)),
        Err("venv pip not found for model 'm'".to_string())
    );
    assert_eq!(step(VenvEvent::LookedForPip(true)), Ok(VenvAction::Install));
    assert_eq!(
        step(VenvEvent::Installed(Err("not there".to_string()))),
        Err("failed to run pip: not there".to_string())
    );
    assert_eq!(
        step(VenvEvent::Installed(Ok(output(false, "", "no wheel")))),
        Err("failed to install requirements for model 'm': no wheel".to_string())
    );
    assert_eq!(step(VenvEvent::Installed(Ok(output(true, "", "")))), Ok(VenvAction::Finish));
}

#[test]
fn programs_of_an_environment_have_their_places() {
    let venv = vec!["m".to_string(), "venv".to_string()];
    assert_eq!(venv_python_path(&venv, false), vec!["m", "venv", "bin", "python"]);
    assert_eq!(venv_pip_path(&venv, false), vec!["m", "venv", "bin", "pip"]);
    assert_eq!(venv_python_path(&venv, true), vec!["m", "venv", "Scripts", "python.exe"]);
    assert_eq!(venv_pip_path(&venv, true), vec!["m", "venv", "Scripts", "pip.exe"]);
}

#[test]
fn programs_are_built_where_they_are_missing() {
    let step = |files: &[&str]| prepare_cpp_model("m", &folder_of(files), false);
    assert_eq!(step(&["model", "build.sh", "main.cpp"]).unwrap(), BuildStep::Reuse);
    assert_eq!(step(&["build.sh", "main.cpp"]).unwrap(), BuildStep::Script);
    assert_eq!(step(&["main.cpp"]).unwrap(), BuildStep::Compile);
    assert_eq!(
        step(&["model.exe"]).unwrap_err().message(),
        "C++ model 'm' has none of: a prebuilt 'model' binary, a build.sh, or main.cpp"
    );
    assert_eq!(
        prepare_cpp_model("m", &folder_of(&["model.exe"]), true).unwrap(),
        BuildStep::Reuse
    );
    assert_eq!(cpp_binary_path(false), "model");
    assert_eq!(BuildStep::Reuse.command(), None);
    assert_eq!(BuildStep::Script.command().unwrap(), vec!["bash", "build.sh"]);
    assert_eq!(
        BuildStep::Compile.command().unwrap(),
        vec!["c++", "-O2", "-std=c++17", "main.cpp", "-o", "model"]
    );
}

#[test]
fn builds_must_give_a_program() {
    let message = |output: Result<CommandOutput, String>, made: bool| {
        cpp_model_built("m", &output, made)
            .expect_err("failed")
            .message()
            .to_string()
    };
    assert!(cpp_model_built("m", &Ok(output(true, "", "")), true).is_ok());
    assert_eq!(
        message(Err("not found".to_string()), true),
        "failed to invoke the C++ toolchain for model 'm': not found (is a C++ compiler installed and on PATH?)"
    );
    assert_eq!(
        message(Ok(output(false, "", "main.cpp:1: error\n")), true),
        "failed to compile C++ model 'm':\nmain.cpp:1: error"
    );
    assert_eq!(
        message(Ok(output(true, "", "")), false),
        "C++ model 'm' build did not produce a 'model' executable"
    );
    assert!(run_cpp_inference("m", true).is_ok());
    let e = run_cpp_inference("m", false).unwrap_err();
    assert_eq!(e.code(), Code::NotFound);
    assert_eq!(e.message(), "compiled 'model' executable not found for C++ model 'm'");
}

#[test]
fn worker_scripts_are_given_floats() {
    let plan = plan_script(
        "/tmp/o.bin",
        &Some(PythonInput {
            shape: vec![1, 2],
            bytes: vec![0; 8],
        }),
    );
    assert_eq!(plan.env[2], ("NEREID_INPUT_SHAPE".to_string(), "1,2".to_string()));
    assert_eq!(plan.env[3], ("NEREID_INPUT_DTYPE".to_string(), "float32".to_string()));
    assert_eq!(plan.stdin, Some(vec![0; 8]));
    assert_eq!(plan_script("/tmp/o.bin", &None).env.len(), 2);
}

#[test]
fn worker_environments_say_what_is_wrong() {
    let fault = |event: VenvEvent| prepare_model_envs("m", "m/venv", &event).expect_err("failed");
    let looked = |requirements, exists, is_dir| VenvEvent::Looked {
        requirements,
        exists,
        is_dir,
    };
    let missing = fault(looked(false, false, false));
    assert!(matches!(missing, EnvFault::NotFound(_)));
    assert_eq!(
        env_failure("m", &missing).message(),
        "failed to prepare python environment for model 'm': requirements.txt not found for model 'm'"
    );
    assert!(matches!(fault(looked(true, true, false)), EnvFault::Other(_)));
    assert_eq!(
        prepare_model_envs("m", "m/venv", &looked(true, false, false)).unwrap(),
        VenvAction::Create
    );
    let unrun = fault(VenvEvent::Created(Err("denied".to_string())));
    assert!(matches!(unrun, EnvFault::NotRun(_)));
    assert_eq!(unrun.message(), "denied");
    assert_eq!(
        fault(VenvEvent::Created(Ok(output(false, "", "")))).message(),
        "failed to create venv for model 'm': no command output"
    );
    assert_eq!(fault(VenvEvent::LookedForPip(false)).message(), "venv pip not found for model 'm'");
    assert_eq!(
        fault(VenvEvent::Installed(Ok(output(false, "x", "")))).message(),
        "failed to install requirements for model 'm': x"
    );
    assert_eq!(
        prepare_model_envs("m", "m/venv", &VenvEvent::Installed(Ok(output(true, "", "")))).unwrap(),
        VenvAction::Finish
    );
}

#[test]
fn worker_scripts_end_as_they_ended() {
    let shapes = InputShapeContract {
        input_shape: None,
        output_shape: Some(vec![1]),
        max_batch_size: 0,
    };
    let end = |output: Result<Vec<u8>, String>| ScriptEnd::Exited {
        success: true,
        code: Some(0),
        output,
    };
    let messages =
        finish_script("m", &shapes, None, &end(Ok(b"float32 1\nabcd".to_vec()))).expect("ended");
    assert_eq!(messages.len(), 2);
    assert_eq!(messages[0].output_chunk.as_ref().unwrap().data, b"abcd");
    assert!(messages[1].done);
    assert_eq!(
        finish_script("m", &shapes, None, &end(Ok(b"int32 1\nabcd".to_vec())))
            .unwrap_err()
            .message(),
        "model 'm' output dtype 'int32' is unsupported; only float32 is supported"
    );
    assert_eq!(
        finish_script("m", &shapes, None, &end(Ok(b"float32 2\nabcdabcd".to_vec())))
            .unwrap_err()
            .message(),
        "model 'm' output shape mismatch at dimension 0: declared 1, got 2"
    );
    assert_eq!(
        stream_line(Err("broken".to_string()), true).unwrap_err().message(),
        "failed reading stderr: broken"
    );
    assert_eq!(
        stream_line(Err("broken".to_string()), false).unwrap_err().message(),
        "failed reading stdout: broken"
    );
    assert_eq!(stream_line(Ok("x".to_string()), true).unwrap().chunk, "stderr: x");
}

#[test]
fn malformed_framed_tensors_are_refused() {
    let ok = parse_framed_tensor(b"int8 2,2\na\nbc", "m").unwrap();
    assert_eq!(ok, (vec![2, 2], b"a\nbc".to_vec(), "int8".to_string()));
    let bad: [&[u8]; 9] = [
        b"int8 2,2\nabc",
        b"int8 2,2\nabcde",
        b"int32 1\nabc",
        b"complex64 1\nabcdefgh",
        b"int8 0\n",
        b"int8 -2\nab",
        b"int8 \nab",
        b"int8\nab",
        b"int8 2,2",
    ];
    for raw in bad {
        assert_eq!(parse_framed_tensor(raw, "m").unwrap_err().code(), Code::Internal, "{raw:?}");
    }
}
