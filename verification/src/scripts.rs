//! Python models of the worker runtime. Their tensors are of 32-bit floats.

use vstd::prelude::*;

use crate::checkpoint;
use crate::checkpoint::{text_response, CheckpointResponse, CheckpointView};
use crate::child;
use crate::child::{output_details, plan_child, ChildPlan, CommandOutput, TensorInput};
use crate::frame;
use crate::frame::parse_float_tensor;
use crate::python;
use crate::python::{end_messages, ScriptEnd, VenvAction, VenvEvent};
use crate::runtime;
use crate::runtime::{InputShapeContract, ShapesView};
use crate::status::{Code, Status, StatusView};
use crate::tensor;
use crate::tensor::{copy_bytes, copy_dims};
use crate::text::{cat2, cat3, cat4};

verus! {

/// A checked input tensor of 32-bit floats for a script.
#[derive(Debug)]
pub struct PythonInput {
    pub shape: Vec<i64>,
    pub bytes: Vec<u8>,
}

/// The environment of a script: where to write the output, and the shape of the
/// input, if there is one. Both are of 32-bit floats.
pub open spec fn script_env(output_path: Seq<char>, input: Option<PythonInput>) -> Seq<
    (Seq<char>, Seq<char>),
> {
    let output = seq![
        ("NEREID_OUTPUT_PATH"@, output_path),
        ("NEREID_OUTPUT_DTYPE"@, "float32"@),
    ];
    match input {
        None => output,
        Some(t) => output + seq![
            ("NEREID_INPUT_SHAPE"@, tensor::comma_dims(t.shape@)),
            ("NEREID_INPUT_DTYPE"@, "float32"@),
        ],
    }
}

/// Plans the run of a script.
pub fn plan_script(output_path: &str, input: &Option<PythonInput>) -> (r: ChildPlan)
    ensures
        child::env_views(r.env@) == script_env(output_path@, *input),
        match *input {
            Some(t) => r.stdin matches Some(bytes) && bytes@ == t.bytes@,
            None => r.stdin is None,
        },
{
    let fed = match input {
        None => None,
        Some(t) => Some(
            TensorInput {
                shape: copy_dims(t.shape.as_slice()),
                bytes: copy_bytes(t.bytes.as_slice()),
                dtype: "float32".to_string(),
            },
        ),
    };
    plan_child(output_path, "float32", &fed)
}

/// Why an environment could not be prepared: something is missing, a command could
/// not be run, or anything else; each with its message.
#[derive(Debug)]
pub enum EnvFault {
    NotFound(String),
    NotRun(String),
    Other(String),
}

/// An [`EnvFault`] as contracts see it.
pub enum EnvFaultView {
    NotFound(Seq<char>),
    NotRun(Seq<char>),
    Other(Seq<char>),
}

impl View for EnvFault {
    type V = EnvFaultView;

    open spec fn view(&self) -> EnvFaultView {
        match *self {
            EnvFault::NotFound(m) => EnvFaultView::NotFound(m@),
            EnvFault::NotRun(m) => EnvFaultView::NotRun(m@),
            EnvFault::Other(m) => EnvFaultView::Other(m@),
        }
    }
}

impl EnvFaultView {
    /// The message.
    pub open spec fn message(self) -> Seq<char> {
        match self {
            EnvFaultView::NotFound(m) => m,
            EnvFaultView::NotRun(m) => m,
            EnvFaultView::Other(m) => m,
        }
    }
}

impl EnvFault {
    /// Gives the message.
    pub fn message(&self) -> (r: &str)
        ensures
            r@ == self@.message(),
    {
        match self {
            EnvFault::NotFound(m) => m.as_str(),
            EnvFault::NotRun(m) => m.as_str(),
            EnvFault::Other(m) => m.as_str(),
        }
    }
}

/// The next step of preparing a model's environment, or why it cannot be prepared.
/// `venv` is the path to the environment.
pub open spec fn spec_env_action(model: Seq<char>, venv: Seq<char>, event: VenvEvent) -> Result<
    VenvAction,
    EnvFaultView,
> {
    match event {
        VenvEvent::Looked { requirements, exists, is_dir } => if !requirements {
            Err(EnvFaultView::NotFound("requirements.txt not found for model '"@ + model + "'"@))
        } else if exists && !is_dir {
            Err(EnvFaultView::Other("path exists but is not a directory: "@ + venv))
        } else if !is_dir {
            Ok(VenvAction::Create)
        } else {
            Ok(VenvAction::LookForPip)
        },
        VenvEvent::Created(Err(cause)) => Err(EnvFaultView::NotRun(cause@)),
        VenvEvent::Created(Ok(output)) => if output.success {
            Ok(VenvAction::LookForPip)
        } else {
            Err(
                EnvFaultView::Other(
                    "failed to create venv for model '"@ + model + "': "@ + child::spec_details(
                        output,
                        "no command output"@,
                    ),
                ),
            )
        },
        VenvEvent::LookedForPip(found) => if found {
            Ok(VenvAction::Install)
        } else {
            Err(EnvFaultView::NotFound("venv pip not found for model '"@ + model + "'"@))
        },
        VenvEvent::Installed(Err(cause)) => Err(EnvFaultView::NotRun(cause@)),
        VenvEvent::Installed(Ok(output)) => if output.success {
            Ok(VenvAction::Finish)
        } else {
            Err(
                EnvFaultView::Other(
                    "failed to install requirements for model '"@ + model + "': "@
                        + child::spec_details(output, "no command output"@),
                ),
            )
        },
    }
}

fn command_fault(what: &str, model_name: &str, output: &CommandOutput) -> (r: EnvFault)
    ensures
        r@ == EnvFaultView::Other(
            what@ + model_name@ + "': "@ + child::spec_details(*output, "no command output"@),
        ),
{
    let details = output_details(output, "no command output");
    EnvFault::Other(cat4(what, model_name, "': ", details.as_str()))
}

/// Decides the next step of preparing a model's environment.
pub fn prepare_model_envs(model_name: &str, venv: &str, event: &VenvEvent) -> (r: Result<
    VenvAction,
    EnvFault,
>)
    ensures
        match r {
            Ok(action) => spec_env_action(model_name@, venv@, *event) == Ok::<
                VenvAction,
                EnvFaultView,
            >(action),
            Err(e) => spec_env_action(model_name@, venv@, *event) == Err::<
                VenvAction,
                EnvFaultView,
            >(e@),
        },
{
    match event {
        VenvEvent::Looked { requirements, exists, is_dir } => {
            if !*requirements {
                Err(
                    EnvFault::NotFound(
                        cat3("requirements.txt not found for model '", model_name, "'"),
                    ),
                )
            } else if *exists && !*is_dir {
                Err(EnvFault::Other(cat2("path exists but is not a directory: ", venv)))
            } else if !*is_dir {
                Ok(VenvAction::Create)
            } else {
                Ok(VenvAction::LookForPip)
            }
        },
        VenvEvent::Created(created) => match created {
            Err(cause) => Err(EnvFault::NotRun(cause.clone())),
            Ok(output) => {
                if output.success {
                    Ok(VenvAction::LookForPip)
                } else {
                    Err(command_fault("failed to create venv for model '", model_name, output))
                }
            },
        },
        VenvEvent::LookedForPip(found) => {
            if *found {
                Ok(VenvAction::Install)
            } else {
                Err(EnvFault::NotFound(cat3("venv pip not found for model '", model_name, "'")))
            }
        },
        VenvEvent::Installed(installed) => match installed {
            Err(cause) => Err(EnvFault::NotRun(cause.clone())),
            Ok(output) => {
                if output.success {
                    Ok(VenvAction::Finish)
                } else {
                    Err(
                        command_fault(
                            "failed to install requirements for model '",
                            model_name,
                            output,
                        ),
                    )
                }
            },
        },
    }
}

/// Makes the failure of a startup whose model's environment could not be prepared.
pub fn env_failure(model_name: &str, fault: &EnvFault) -> (r: Status)
    ensures
        r@ == (
            Code::FailedPrecondition,
            "failed to prepare python environment for model '"@ + model_name@ + "': "@
                + fault@.message(),
        ),
{
    Status::failed_precondition(
        cat4(
            "failed to prepare python environment for model '",
            model_name,
            "': ",
            fault.message(),
        ),
    )
}

/// The message with a line that the script wrote; a line of its standard error
/// says so.
pub open spec fn line_message(line: Result<Seq<char>, Seq<char>>, is_stderr: bool) -> Result<
    CheckpointView,
    StatusView,
> {
    match line {
        Ok(text) => Ok(
            checkpoint::text_message(
                if is_stderr {
                    "stderr: "@ + text
                } else {
                    text
                },
            ),
        ),
        Err(cause) => Err(
            (
                Code::Internal,
                if is_stderr {
                    "failed reading stderr: "@ + cause
                } else {
                    "failed reading stdout: "@ + cause
                },
            ),
        ),
    }
}

/// Makes the message for one line that the script wrote, or could not be read.
pub fn stream_line(line: Result<String, String>, is_stderr: bool) -> (r: Result<
    CheckpointResponse,
    Status,
>)
    ensures
        ({
            let read = match line {
                Ok(text) => Ok(text@),
                Err(cause) => Err(cause@),
            };
            match r {
                Ok(message) => line_message(read, is_stderr) == Ok::<CheckpointView, StatusView>(
                    message@,
                ),
                Err(e) => line_message(read, is_stderr) == Err::<CheckpointView, StatusView>(e@),
            }
        }),
{
    match line {
        Ok(text) => {
            if is_stderr {
                Ok(text_response(cat2("stderr: ", text.as_str())))
            } else {
                Ok(text_response(text))
            }
        },
        Err(cause) => {
            if is_stderr {
                Err(Status::internal(cat2("failed reading stderr: ", cause.as_str())))
            } else {
                Err(Status::internal(cat2("failed reading stdout: ", cause.as_str())))
            }
        },
    }
}

/// The tensor that a script wrote, of the declared shape.
pub open spec fn script_tensor(
    model: Seq<char>,
    shapes: ShapesView,
    expected_batch: Option<i64>,
    output: Result<Seq<u8>, Seq<char>>,
) -> Result<(Seq<i64>, Seq<u8>), StatusView> {
    match output {
        Err(cause) => Err(
            (
                Code::FailedPrecondition,
                "Python model '"@ + model
                    + "' exited 0 but wrote no readable output tensor to NEREID_OUTPUT_PATH: "@
                    + cause,
            ),
        ),
        Ok(raw) => match frame::spec_float_tensor(raw, model) {
            Err(status) => Err(status),
            Ok((shape, bytes)) => match runtime::spec_reply(
                shapes,
                shape,
                expected_batch,
                model,
            ) {
                Err(status) => Err(status),
                Ok(_) => Ok((shape, bytes)),
            },
        },
    }
}

/// The last messages to a checkpoint request for a model with the given shapes.
pub open spec fn script_messages(
    model: Seq<char>,
    shapes: ShapesView,
    expected_batch: Option<i64>,
    end: ScriptEnd,
) -> Result<Seq<CheckpointView>, StatusView> {
    python::ended_messages(
        model,
        end,
        script_tensor(model, shapes, expected_batch, end.written()),
    )
}

fn read_script_tensor(
    model_name: &str,
    shapes: &InputShapeContract,
    expected_batch: Option<i64>,
    output: &Result<Vec<u8>, String>,
) -> (r: Result<(Vec<i64>, Vec<u8>), Status>)
    ensures
        ({
            let read = match *output {
                Ok(raw) => Ok(raw@),
                Err(cause) => Err(cause@),
            };
            match r {
                Ok((shape, bytes)) => script_tensor(
                    model_name@,
                    shapes@,
                    expected_batch,
                    read,
                ) == Ok::<(Seq<i64>, Seq<u8>), StatusView>((shape@, bytes@)),
                Err(e) => script_tensor(model_name@, shapes@, expected_batch, read) == Err::<
                    (Seq<i64>, Seq<u8>),
                    StatusView,
                >(e@),
            }
        }),
{
    let raw = match output {
        Ok(raw) => raw,
        Err(cause) => {
            return Err(
                Status::failed_precondition(
                    cat4(
                        "Python model '",
                        model_name,
                        "' exited 0 but wrote no readable output tensor to NEREID_OUTPUT_PATH: ",
                        cause.as_str(),
                    ),
                ),
            );
        },
    };
    let (shape, bytes) = match parse_float_tensor(raw.as_slice(), model_name) {
        Ok(parts) => parts,
        Err(status) => {
            return Err(status);
        },
    };
    match shapes.validate_output_shape(shape.as_slice(), expected_batch, model_name) {
        Err(status) => Err(status),
        Ok(_) => Ok((shape, bytes)),
    }
}

/// Makes the last messages to a checkpoint request by the end of its script.
pub fn finish_script(
    model_name: &str,
    shapes: &InputShapeContract,
    expected_batch: Option<i64>,
    end: &ScriptEnd,
) -> (r: Result<Vec<CheckpointResponse>, Status>)
    ensures
        match r {
            Ok(messages) => script_messages(model_name@, shapes@, expected_batch, *end) == Ok::<
                Seq<CheckpointView>,
                StatusView,
            >(checkpoint::response_views(messages@)),
            Err(e) => script_messages(model_name@, shapes@, expected_batch, *end) == Err::<
                Seq<CheckpointView>,
                StatusView,
            >(e@),
        },
{
    let tensor = match end {
        ScriptEnd::Exited { output, .. } => read_script_tensor(
            model_name,
            shapes,
            expected_batch,
            output,
        ),
        _ => Ok((Vec::new(), Vec::new())),
    };
    end_messages(model_name, end, tensor)
}

} // verus!
