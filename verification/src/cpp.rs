//! Models that are C++ programs: compiled at startup, where no executable is there
//! yet, and run as a child process for each request.

use vstd::prelude::*;

use crate::child;
use crate::child::{quote, read_reply_contract, CommandOutput};
use crate::contract::Contract;
use crate::folder::Folder;
use crate::status::{Code, Status, StatusView};
use crate::text;
use crate::text::{cat3, cat4, cat5};
use crate::textproto::TextFile;

verus! {

/// The name of the executable.
pub open spec fn spec_binary_name(windows: bool) -> Seq<char> {
    if windows {
        "model.exe"@
    } else {
        "model"@
    }
}

/// Gives the name of the executable in a model's folder.
pub fn cpp_binary_path(windows: bool) -> (r: &'static str)
    ensures
        r@ == spec_binary_name(windows),
{
    if windows {
        "model.exe"
    } else {
        "model"
    }
}

/// How a model gets its executable.
#[derive(Clone, Copy, Debug, PartialEq, Eq, Structural)]
pub enum BuildStep {
    /// It is there already.
    Reuse,
    /// The folder's own build script makes it.
    Script,
    /// The compiler makes it from `main.cpp`.
    Compile,
}

impl BuildStep {
    /// The program that makes the executable and its arguments, if one is run.
    pub open spec fn spec_command(self) -> Option<Seq<Seq<char>>> {
        match self {
            BuildStep::Reuse => None,
            BuildStep::Script => Some(seq!["bash"@, "build.sh"@]),
            BuildStep::Compile => Some(
                seq!["c++"@, "-O2"@, "-std=c++17"@, "main.cpp"@, "-o"@, "model"@],
            ),
        }
    }

    /// Gives the program that makes the executable and its arguments.
    pub fn command(self) -> (r: Option<Vec<String>>)
        ensures
            match self.spec_command() {
                None => r is None,
                Some(words) => r matches Some(list) && text::texts(list@) == words,
            },
    {
        let mut words: Vec<String> = Vec::new();
        match self {
            BuildStep::Reuse => {
                return None;
            },
            BuildStep::Script => {
                words.push("bash".to_string());
                words.push("build.sh".to_string());
                assert(text::texts(words@) =~= seq!["bash"@, "build.sh"@]);
            },
            BuildStep::Compile => {
                words.push("c++".to_string());
                words.push("-O2".to_string());
                words.push("-std=c++17".to_string());
                words.push("main.cpp".to_string());
                words.push("-o".to_string());
                words.push("model".to_string());
                assert(text::texts(words@) =~= seq![
                    "c++"@,
                    "-O2"@,
                    "-std=c++17"@,
                    "main.cpp"@,
                    "-o"@,
                    "model"@,
                ]);
            },
        }
        Some(words)
    }
}

/// How a model gets its executable, or that it cannot.
pub open spec fn spec_build_step(model: Seq<char>, folder: Folder, windows: bool) -> Result<
    BuildStep,
    StatusView,
> {
    if folder.file_there(spec_binary_name(windows)) {
        Ok(BuildStep::Reuse)
    } else if folder.file_there("build.sh"@) {
        Ok(BuildStep::Script)
    } else if folder.file_there("main.cpp"@) {
        Ok(BuildStep::Compile)
    } else {
        Err(
            (
                Code::FailedPrecondition,
                "C++ model '"@ + model
                    + "' has none of: a prebuilt 'model' binary, a build.sh, or main.cpp"@,
            ),
        )
    }
}

/// Decides how a model gets its executable.
pub fn prepare_cpp_model(model_name: &str, folder: &Folder, windows: bool) -> (r: Result<
    BuildStep,
    Status,
>)
    ensures
        match r {
            Ok(step) => spec_build_step(model_name@, *folder, windows) == Ok::<
                BuildStep,
                StatusView,
            >(step),
            Err(e) => spec_build_step(model_name@, *folder, windows) == Err::<
                BuildStep,
                StatusView,
            >(e@),
        },
{
    if folder.has_file(cpp_binary_path(windows)) {
        Ok(BuildStep::Reuse)
    } else if folder.has_file("build.sh") {
        Ok(BuildStep::Script)
    } else if folder.has_file("main.cpp") {
        Ok(BuildStep::Compile)
    } else {
        Err(
            Status::failed_precondition(
                cat3(
                    "C++ model '",
                    model_name,
                    "' has none of: a prebuilt 'model' binary, a build.sh, or main.cpp",
                ),
            ),
        )
    }
}

/// Whether a build gave the executable, or why not. `made` is whether the
/// executable is there after the build.
pub open spec fn spec_build_result(
    model: Seq<char>,
    output: Result<CommandOutput, String>,
    made: bool,
) -> Result<(), StatusView> {
    match output {
        Err(cause) => Err(
            (
                Code::FailedPrecondition,
                "failed to invoke the C++ toolchain for model '"@ + model + "': "@ + cause@
                    + " (is a C++ compiler installed and on PATH?)"@,
            ),
        ),
        Ok(output) => if !output.success {
            Err(
                (
                    Code::FailedPrecondition,
                    "failed to compile C++ model '"@ + model + "':\n"@ + child::quoted(
                        output.stderr@,
                    ),
                ),
            )
        } else if !made {
            Err(
                (
                    Code::FailedPrecondition,
                    "C++ model '"@ + model + "' build did not produce a 'model' executable"@,
                ),
            )
        } else {
            Ok(())
        },
    }
}

/// Decides whether a build gave the executable.
pub fn cpp_model_built(
    model_name: &str,
    output: &Result<CommandOutput, String>,
    made: bool,
) -> (r: Result<(), Status>)
    ensures
        match r {
            Ok(_) => spec_build_result(model_name@, *output, made) == Ok::<(), StatusView>(()),
            Err(e) => spec_build_result(model_name@, *output, made) == Err::<(), StatusView>(e@),
        },
{
    match output {
        Err(cause) => Err(
            Status::failed_precondition(
                cat5(
                    "failed to invoke the C++ toolchain for model '",
                    model_name,
                    "': ",
                    cause.as_str(),
                    " (is a C++ compiler installed and on PATH?)",
                ),
            ),
        ),
        Ok(output) => {
            if !output.success {
                let said = quote(output.stderr.as_slice());
                return Err(
                    Status::failed_precondition(
                        cat4("failed to compile C++ model '", model_name, "':\n", said.as_str()),
                    ),
                );
            }
            if !made {
                return Err(
                    Status::failed_precondition(
                        cat3(
                            "C++ model '",
                            model_name,
                            "' build did not produce a 'model' executable",
                        ),
                    ),
                );
            }
            Ok(())
        },
    }
}

/// Decides whether a model can be run, by whether its executable is there.
pub fn run_cpp_inference(model_name: &str, binary: bool) -> (r: Result<(), Status>)
    ensures
        if binary {
            r is Ok
        } else {
            r matches Err(e) && e@ == (
                Code::NotFound,
                "compiled 'model' executable not found for C++ model '"@ + model_name@ + "'"@,
            )
        },
{
    if binary {
        Ok(())
    } else {
        Err(
            Status::not_found(
                cat3("compiled 'model' executable not found for C++ model '", model_name, "'"),
            ),
        )
    }
}

/// A loaded C++ model.
#[derive(Debug)]
pub struct CppBackend {
    pub model_name: String,
    pub model_dir: String,
}

impl CppBackend {
    /// Loads a C++ model whose executable is built.
    pub fn load(model_dir: &str, model_name: &str, folder: &Folder, file: &TextFile) -> (r: Result<
        (CppBackend, Contract),
        Status,
    >)
        ensures
            match child::reply_contract("C++"@, model_name@, *folder, *file) {
                Ok(declared) => r matches Ok((backend, contract)) && contract@ == declared
                    && backend.model_name@ == model_name@ && backend.model_dir@ == model_dir@,
                Err(status) => r matches Err(e) && e@ == status,
            },
    {
        match read_reply_contract("C++", model_name, folder, file) {
            Ok(contract) => Ok(
                (
                    CppBackend {
                        model_name: model_name.to_string(),
                        model_dir: model_dir.to_string(),
                    },
                    contract,
                ),
            ),
            Err(status) => Err(status),
        }
    }

    /// The platform that the model reports.
    pub fn platform(&self) -> (r: &'static str)
        ensures
            r@ == "cpp_subprocess"@,
    {
        "cpp_subprocess"
    }
}

} // verus!
