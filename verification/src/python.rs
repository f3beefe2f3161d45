//! Models that are Python scripts: `main.py`, run in a virtual environment that is
//! built from `requirements.txt`.

use vstd::prelude::*;

use crate::checkpoint;
use crate::checkpoint::{
    append_responses, chunk_tensor, done_response, text_response, CheckpointResponse,
    CheckpointView,
};
use crate::child;
use crate::child::{output_details, read_reply_contract, CommandOutput};
use crate::contract;
use crate::contract::{Contract, ContractView};
use crate::folder::Folder;
use crate::frame;
use crate::frame::parse_framed_tensor;
use crate::status::{Code, Status, StatusView};
use crate::tensor::Tensor;
use crate::text;
use crate::text::{cat2, cat3, cat4, cat5, same};
use crate::textproto::TextFile;

verus! {

/// Where the Python interpreter is in a virtual environment, given as the parts
/// of the path to the environment.
pub fn venv_python_path(venv_dir: &Vec<String>, windows: bool) -> (r: Vec<String>)
    ensures
        text::texts(r@) == text::texts(venv_dir@) + (if windows {
            seq!["Scripts"@, "python.exe"@]
        } else {
            seq!["bin"@, "python"@]
        }),
{
    if windows {
        path_to(venv_dir, "Scripts", "python.exe")
    } else {
        path_to(venv_dir, "bin", "python")
    }
}

/// Where `pip` is in a virtual environment, given as the parts of the path to the
/// environment.
pub fn venv_pip_path(venv_dir: &Vec<String>, windows: bool) -> (r: Vec<String>)
    ensures
        text::texts(r@) == text::texts(venv_dir@) + (if windows {
            seq!["Scripts"@, "pip.exe"@]
        } else {
            seq!["bin"@, "pip"@]
        }),
{
    if windows {
        path_to(venv_dir, "Scripts", "pip.exe")
    } else {
        path_to(venv_dir, "bin", "pip")
    }
}

fn path_to(base: &Vec<String>, dir: &str, file: &str) -> (r: Vec<String>)
    ensures
        text::texts(r@) == text::texts(base@) + seq![dir@, file@],
{
    let mut out: Vec<String> = Vec::new();
    let mut i: usize = 0;
    while i < base.len()
        invariant
            i <= base@.len(),
            out@.len() == i,
            forall|k: int| 0 <= k < i ==> (#[trigger] out@[k])@ == base@[k]@,
        decreases base@.len() - i,
    {
        out.push(base[i].clone());
        i = i + 1;
    }
    out.push(dir.to_string());
    out.push(file.to_string());
    assert(text::texts(out@) =~= text::texts(base@) + seq![dir@, file@]);
    out
}

/// What was found out while a virtual environment is prepared.
#[derive(Debug)]
pub enum VenvEvent {
    /// The folder was looked at: whether `requirements.txt` is a file, and whether
    /// `venv` exists and is a directory.
    Looked { requirements: bool, exists: bool, is_dir: bool },
    /// The environment was created.
    Created(Result<CommandOutput, String>),
    /// `pip` was looked for in the environment.
    LookedForPip(bool),
    /// The requirements were installed.
    Installed(Result<CommandOutput, String>),
}

/// What is to be done next to prepare a virtual environment.
#[derive(Clone, Copy, Debug, PartialEq, Eq, Structural)]
pub enum VenvAction {
    Create,
    LookForPip,
    Install,
    Finish,
}

fn command_fault(what: &str, model_name: &str, output: &CommandOutput) -> (r: Status)
    ensures
        r@ == failed_command(what@, model_name@, *output),
{
    let details = output_details(output, "no output");
    Status::failed_precondition(
        cat5("failed to ", what, model_name, "': ", details.as_str()),
    )
}

/// The complaint about a command that ran and failed.
pub open spec fn failed_command(
    what: Seq<char>,
    model: Seq<char>,
    output: CommandOutput,
) -> StatusView {
    (
        Code::FailedPrecondition,
        "failed to "@ + what + model + "': "@ + child::spec_details(output, "no output"@),
    )
}

/// The next step of preparing a model's virtual environment, or why it cannot be
/// prepared. `venv` is the path to the environment.
pub open spec fn spec_venv_action(model: Seq<char>, venv: Seq<char>, event: VenvEvent) -> Result<
    VenvAction,
    StatusView,
> {
    match event {
        VenvEvent::Looked { requirements, exists, is_dir } => if !requirements {
            Err(
                (
                    Code::FailedPrecondition,
                    "requirements.txt not found for model '"@ + model + "'"@,
                ),
            )
        } else if exists && !is_dir {
            Err((Code::FailedPrecondition, "path exists but is not a directory: "@ + venv))
        } else if !is_dir {
            Ok(VenvAction::Create)
        } else {
            Ok(VenvAction::LookForPip)
        },
        VenvEvent::Created(Err(cause)) => Err(
            (Code::FailedPrecondition, "failed to run python3: "@ + cause@),
        ),
        VenvEvent::Created(Ok(output)) => if output.success {
            Ok(VenvAction::LookForPip)
        } else {
            Err(failed_command("create venv for model '"@, model, output))
        },
        VenvEvent::LookedForPip(found) => if found {
            Ok(VenvAction::Install)
        } else {
            Err((Code::FailedPrecondition, "venv pip not found for model '"@ + model + "'"@))
        },
        VenvEvent::Installed(Err(cause)) => Err(
            (Code::FailedPrecondition, "failed to run pip: "@ + cause@),
        ),
        VenvEvent::Installed(Ok(output)) => if output.success {
            Ok(VenvAction::Finish)
        } else {
            Err(failed_command("install requirements for model '"@, model, output))
        },
    }
}

/// Decides the next step of preparing a model's virtual environment.
pub fn prepare_venv(model_name: &str, venv: &str, event: &VenvEvent) -> (r: Result<
    VenvAction,
    Status,
>)
    ensures
        match r {
            Ok(action) => spec_venv_action(model_name@, venv@, *event) == Ok::<
                VenvAction,
                StatusView,
            >(action),
            Err(e) => spec_venv_action(model_name@, venv@, *event) == Err::<
                VenvAction,
                StatusView,
            >(e@),
        },
{
    match event {
        VenvEvent::Looked { requirements, exists, is_dir } => {
            if !*requirements {
                return Err(
                    Status::failed_precondition(
                        cat3("requirements.txt not found for model '", model_name, "'"),
                    ),
                );
            }
            if *exists && !*is_dir {
                return Err(
                    Status::failed_precondition(
                        cat2("path exists but is not a directory: ", venv),
                    ),
                );
            }
            if !*is_dir {
                Ok(VenvAction::Create)
            } else {
                Ok(VenvAction::LookForPip)
            }
        },
        VenvEvent::Created(created) => match created {
            Err(cause) => Err(
                Status::failed_precondition(cat2("failed to run python3: ", cause.as_str())),
            ),
            Ok(output) => {
                if output.success {
                    Ok(VenvAction::LookForPip)
                } else {
                    Err(command_fault("create venv for model '", model_name, output))
                }
            },
        },
        VenvEvent::LookedForPip(found) => {
            if *found {
                Ok(VenvAction::Install)
            } else {
                Err(
                    Status::failed_precondition(
                        cat3("venv pip not found for model '", model_name, "'"),
                    ),
                )
            }
        },
        VenvEvent::Installed(installed) => match installed {
            Err(cause) => Err(
                Status::failed_precondition(cat2("failed to run pip: ", cause.as_str())),
            ),
            Ok(output) => {
                if output.success {
                    Ok(VenvAction::Finish)
                } else {
                    Err(command_fault("install requirements for model '", model_name, output))
                }
            },
        },
    }
}

/// Whether a model's script can be run, or what is missing.
pub open spec fn spec_python_command(model: Seq<char>, main: bool, python: bool) -> Result<
    (),
    StatusView,
> {
    if !main {
        Err((Code::NotFound, "main.py not found for model '"@ + model + "'"@))
    } else if !python {
        Err((Code::NotFound, "venv python not found for model '"@ + model + "'"@))
    } else {
        Ok(())
    }
}

/// Decides whether a model's script can be run, by whether `main.py` and the
/// interpreter are there, and gives the arguments for the interpreter.
pub fn python_command(model_name: &str, main: bool, python: bool) -> (r: Result<
    Vec<String>,
    Status,
>)
    ensures
        match spec_python_command(model_name@, main, python) {
            Ok(_) => r matches Ok(args) && text::texts(args@) == seq!["-u"@, "main.py"@],
            Err(status) => r matches Err(e) && e@ == status,
        },
{
    if !main {
        return Err(Status::not_found(cat3("main.py not found for model '", model_name, "'")));
    }
    if !python {
        return Err(
            Status::not_found(cat3("venv python not found for model '", model_name, "'")),
        );
    }
    let mut args: Vec<String> = Vec::new();
    args.push("-u".to_string());
    args.push("main.py".to_string());
    assert(text::texts(args@) =~= seq!["-u"@, "main.py"@]);
    Ok(args)
}

/// A loaded Python model.
#[derive(Debug)]
pub struct PythonBackend {
    pub model_name: String,
    pub model_dir: String,
}

impl PythonBackend {
    /// Loads a Python model whose environment is prepared.
    pub fn load(model_dir: &str, model_name: &str, folder: &Folder, file: &TextFile) -> (r: Result<
        (PythonBackend, Contract),
        Status,
    >)
        ensures
            match child::reply_contract("Python"@, model_name@, *folder, *file) {
                Ok(declared) => r matches Ok((backend, contract)) && contract@ == declared
                    && backend.model_name@ == model_name@ && backend.model_dir@ == model_dir@,
                Err(status) => r matches Err(e) && e@ == status,
            },
    {
        match read_reply_contract("Python", model_name, folder, file) {
            Ok(contract) => Ok(
                (
                    PythonBackend {
                        model_name: model_name.to_string(),
                        model_dir: model_dir.to_string(),
                    },
                    contract,
                ),
            ),
            Err(status) => Err(status),
        }
    }

    /// The platform that the model reports.
    pub fn platform(&self) -> (r: &'static str)
        ensures
            r@ == "python"@,
    {
        "python"
    }
}

/// The message with a line that the script wrote; a line of its standard error
/// says so.
pub open spec fn line_message(line: Result<Seq<char>, Seq<char>>, is_stderr: bool) -> Result<
    CheckpointView,
    StatusView,
> {
    match line {
        Ok(text) => Ok(
            checkpoint::text_message(
                if is_stderr {
                    "stderr: "@ + text
                } else {
                    text
                },
            ),
        ),
        Err(cause) => Err((Code::Internal, "failed reading output: "@ + cause)),
    }
}

/// Makes the message for one line that the script wrote, or could not be read.
pub fn stream_line(line: Result<String, String>, is_stderr: bool) -> (r: Result<
    CheckpointResponse,
    Status,
>)
    ensures
        ({
            let read = match line {
                Ok(text) => Ok(text@),
                Err(cause) => Err(cause@),
            };
            match r {
                Ok(message) => line_message(read, is_stderr) == Ok::<CheckpointView, StatusView>(
                    message@,
                ),
                Err(e) => line_message(read, is_stderr) == Err::<CheckpointView, StatusView>(e@),
            }
        }),
{
    match line {
        Ok(text) => {
            if is_stderr {
                Ok(text_response(cat2("stderr: ", text.as_str())))
            } else {
                Ok(text_response(text))
            }
        },
        Err(cause) => Err(
            Status::internal(cat2("failed reading output: ", cause.as_str())),
        ),
    }
}

/// How the run of a script for a checkpoint request ended.
#[derive(Debug)]
pub enum ScriptEnd {
    NotStarted(String),
    /// Its standard output or its standard error is not there to be read.
    NotCaptured { is_stderr: bool },
    NotAwaited(String),
    Exited { success: bool, code: Option<i32>, output: Result<Vec<u8>, String> },
}

impl ScriptEnd {
    /// What the output file of a script that exited held, or the cause why it could
    /// not be read.
    pub open spec fn written(self) -> Result<Seq<u8>, Seq<char>> {
        match self {
            ScriptEnd::Exited { output: Ok(raw), .. } => Ok(raw@),
            ScriptEnd::Exited { output: Err(cause), .. } => Err(cause@),
            _ => Err(Seq::empty()),
        }
    }
}

/// The tensor that a script wrote for a checkpoint request: of 32-bit floats, and
/// as the contract declares.
pub open spec fn script_tensor(
    model: Seq<char>,
    contract: ContractView,
    expected_batch: Option<i64>,
    output: Result<Seq<u8>, Seq<char>>,
) -> Result<(Seq<i64>, Seq<u8>), StatusView> {
    match output {
        Err(cause) => Err(
            (
                Code::FailedPrecondition,
                "Python model '"@ + model
                    + "' exited 0 but wrote no readable output tensor to NEREID_OUTPUT_PATH: "@
                    + cause,
            ),
        ),
        Ok(raw) => match frame::spec_framed_tensor(raw, model) {
            Err(status) => Err(status),
            Ok((shape, bytes, dtype)) => if dtype != "float32"@ {
                Err(
                    (
                        Code::FailedPrecondition,
                        "Python model '"@ + model + "' wrote a '"@ + dtype
                            + "' output tensor, but the Checkpoint path only supports float32"@,
                    ),
                )
            } else if contract.outputs.len() == 0 {
                Ok((shape, bytes))
            } else {
                match contract::spec_output_shape(
                    contract.outputs[0].dims,
                    contract.max_batch_size,
                    shape,
                    expected_batch,
                    model,
                ) {
                    Err(status) => Err(status),
                    Ok(_) => Ok((shape, bytes)),
                }
            },
        },
    }
}

/// The last messages to a checkpoint request, after the lines that the script
/// wrote: its output tensor and the end, or why there is none. A script that
/// fails ends the stream with its exit code. `tensor` is what came of the output
/// of a script that succeeded.
pub open spec fn ended_messages(
    model: Seq<char>,
    end: ScriptEnd,
    tensor: Result<(Seq<i64>, Seq<u8>), StatusView>,
) -> Result<Seq<CheckpointView>, StatusView> {
    match end {
        ScriptEnd::NotStarted(cause) => Err(
            (Code::Internal, "failed to run main.py: "@ + cause@),
        ),
        ScriptEnd::NotCaptured { is_stderr } => Err(
            (
                Code::Internal,
                if is_stderr {
                    "failed to capture stderr from main.py process"@
                } else {
                    "failed to capture stdout from main.py process"@
                },
            ),
        ),
        ScriptEnd::NotAwaited(cause) => Err(
            (
                Code::Internal,
                "failed waiting on main.py process for model '"@ + model + "': "@ + cause@,
            ),
        ),
        ScriptEnd::Exited { success, code, .. } => {
            let exit_code = match code {
                Some(c) => c,
                None => -1i32,
            };
            if !success {
                Ok(seq![checkpoint::done_message(exit_code)])
            } else {
                match tensor {
                    Err(status) => Err(status),
                    Ok((shape, bytes)) => Ok(
                        checkpoint::tensor_messages("output"@, shape, bytes).push(
                            checkpoint::done_message(exit_code),
                        ),
                    ),
                }
            }
        },
    }
}

/// The last messages to a checkpoint request for a model with the given contract.
pub open spec fn script_messages(
    model: Seq<char>,
    contract: ContractView,
    expected_batch: Option<i64>,
    end: ScriptEnd,
) -> Result<Seq<CheckpointView>, StatusView> {
    ended_messages(
        model,
        end,
        script_tensor(model, contract, expected_batch, end.written()),
    )
}

fn read_script_tensor(
    model_name: &str,
    contract: &Contract,
    expected_batch: Option<i64>,
    output: &Result<Vec<u8>, String>,
) -> (r: Result<(Vec<i64>, Vec<u8>), Status>)
    ensures
        ({
            let read = match *output {
                Ok(raw) => Ok(raw@),
                Err(cause) => Err(cause@),
            };
            match r {
                Ok((shape, bytes)) => script_tensor(
                    model_name@,
                    contract@,
                    expected_batch,
                    read,
                ) == Ok::<(Seq<i64>, Seq<u8>), StatusView>((shape@, bytes@)),
                Err(e) => script_tensor(model_name@, contract@, expected_batch, read) == Err::<
                    (Seq<i64>, Seq<u8>),
                    StatusView,
                >(e@),
            }
        }),
{
    let raw = match output {
        Ok(raw) => raw,
        Err(cause) => {
            return Err(
                Status::failed_precondition(
                    cat4(
                        "Python model '",
                        model_name,
                        "' exited 0 but wrote no readable output tensor to NEREID_OUTPUT_PATH: ",
                        cause.as_str(),
                    ),
                ),
            );
        },
    };
    let (shape, bytes, dtype) = match parse_framed_tensor(raw.as_slice(), model_name) {
        Ok(parts) => parts,
        Err(status) => {
            return Err(status);
        },
    };
    if !same(dtype.as_str(), "float32") {
        return Err(
            Status::failed_precondition(
                cat5(
                    "Python model '",
                    model_name,
                    "' wrote a '",
                    dtype.as_str(),
                    "' output tensor, but the Checkpoint path only supports float32",
                ),
            ),
        );
    }
    if contract.outputs.len() > 0 {
        match contract.validate_output_shape(
            &contract.outputs[0],
            shape.as_slice(),
            expected_batch,
            model_name,
        ) {
            Err(status) => {
                return Err(status);
            },
            Ok(_) => {},
        }
    }
    Ok((shape, bytes))
}

/// Makes the last messages to a checkpoint request by the end of its script and
/// what came of its output.
pub fn end_messages(
    model_name: &str,
    end: &ScriptEnd,
    tensor: Result<(Vec<i64>, Vec<u8>), Status>,
) -> (r: Result<Vec<CheckpointResponse>, Status>)
    ensures
        ({
            let written = match tensor {
                Ok((shape, bytes)) => Ok((shape@, bytes@)),
                Err(status) => Err(status@),
            };
            match r {
                Ok(messages) => ended_messages(model_name@, *end, written) == Ok::<
                    Seq<CheckpointView>,
                    StatusView,
                >(checkpoint::response_views(messages@)),
                Err(e) => ended_messages(model_name@, *end, written) == Err::<
                    Seq<CheckpointView>,
                    StatusView,
                >(e@),
            }
        }),
{
    match end {
        ScriptEnd::NotStarted(cause) => Err(
            Status::internal(cat2("failed to run main.py: ", cause.as_str())),
        ),
        ScriptEnd::NotCaptured { is_stderr } => {
            if *is_stderr {
                Err(
                    Status::internal(
                        "failed to capture stderr from main.py process".to_string(),
                    ),
                )
            } else {
                Err(
                    Status::internal(
                        "failed to capture stdout from main.py process".to_string(),
                    ),
                )
            }
        },
        ScriptEnd::NotAwaited(cause) => Err(
            Status::internal(
                cat4(
                    "failed waiting on main.py process for model '",
                    model_name,
                    "': ",
                    cause.as_str(),
                ),
            ),
        ),
        ScriptEnd::Exited { success, code, .. } => {
            let exit_code: i32 = match code {
                Some(c) => *c,
                None => -1,
            };
            let mut done: Vec<CheckpointResponse> = Vec::new();
            done.push(done_response(exit_code));
            assert(checkpoint::response_views(done@) =~= seq![
                checkpoint::done_message(exit_code),
            ]);
            if !*success {
                return Ok(done);
            }
            match tensor {
                Err(status) => Err(status),
                Ok((shape, bytes)) => {
                    let mut messages = chunk_tensor("output", shape.as_slice(), bytes.as_slice());
                    let ghost sent = checkpoint::response_views(messages@);
                    append_responses(&mut messages, done);
                    assert(checkpoint::response_views(messages@) =~= sent.push(
                        checkpoint::done_message(exit_code),
                    ));
                    Ok(messages)
                },
            }
        },
    }
}

/// Makes the last messages to a checkpoint request by the end of its script.
pub fn finish_script(
    model_name: &str,
    contract: &Contract,
    expected_batch: Option<i64>,
    end: &ScriptEnd,
) -> (r: Result<Vec<CheckpointResponse>, Status>)
    ensures
        match r {
            Ok(messages) => script_messages(model_name@, contract@, expected_batch, *end) == Ok::<
                Seq<CheckpointView>,
                StatusView,
            >(checkpoint::response_views(messages@)),
            Err(e) => script_messages(model_name@, contract@, expected_batch, *end) == Err::<
                Seq<CheckpointView>,
                StatusView,
            >(e@),
        },
{
    let tensor = match end {
        ScriptEnd::Exited { output, .. } => read_script_tensor(
            model_name,
            contract,
            expected_batch,
            output,
        ),
        _ => Ok((Vec::new(), Vec::new())),
    };
    end_messages(model_name, end, tensor)
}

/// The batch size that a script's output must have, by the input that it got.
pub fn script_batch(contract: &Contract, input: &Option<Tensor>) -> (r: Option<i64>)
    ensures
        r == match *input {
            Some(t) => contract@.batch_of(t@.shape),
            None => None,
        },
{
    match input {
        Some(t) => contract.expected_batch(t.shape.as_slice()),
        None => None,
    }
}

} // verus!
