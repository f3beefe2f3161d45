//! ONNX models. ONNX Runtime itself is called from outside the library; which
//! file it loads and how tensors are bound to its graph is decided here.

use vstd::prelude::*;

use crate::contract::{Contract, ContractView};
use crate::engine;
use crate::engine::{
    bind_feeds, declared_names, name_outputs, read_fed_contract, Engine, EngineOutput,
};
use crate::folder;
use crate::folder::{find_exactly_one, Folder};
use crate::status::{Code, Status, StatusView};
use crate::tensor;
use crate::tensor::{Tensor, TensorView};
use crate::text;
use crate::text::cat3;
use crate::textproto::TextFile;
use crate::triton;

verus! {

/// The model file and the contract of an ONNX model, or why it cannot be loaded.
pub open spec fn onnx_parts(model: Seq<char>, folder: Folder, file: TextFile) -> Result<
    (Seq<char>, ContractView),
    StatusView,
> {
    match folder::the_only_file(folder, "onnx"@) {
        Err(status) => Err(status),
        Ok(path) => match engine::fed_contract("ONNX"@, model, file) {
            Err(status) => Err(status),
            Ok(contract) => Ok((path, contract)),
        },
    }
}

/// Finds the only `.onnx` file of a folder.
pub fn find_exactly_one_onnx_file(folder: &Folder) -> (r: Result<String, Status>)
    ensures
        match r {
            Ok(path) => folder::the_only_file(*folder, "onnx"@) == Ok::<Seq<char>, StatusView>(
                path@,
            ),
            Err(e) => folder::the_only_file(*folder, "onnx"@) == Err::<Seq<char>, StatusView>(e@),
        },
{
    find_exactly_one(folder, "onnx")
}

/// The names that a graph gives its tensors, or the declared ones where it gives
/// none.
pub open spec fn graph_names(graph: Seq<Seq<char>>, declared: Seq<Seq<char>>) -> Seq<Seq<char>> {
    if graph.len() == 0 {
        declared
    } else {
        graph
    }
}

/// The names of a loaded ONNX model's tensors.
#[derive(Debug)]
pub struct OnnxBackend {
    pub input_names: Vec<String>,
    pub output_names: Vec<String>,
}

impl OnnxBackend {
    /// Finds what ONNX Runtime is to load.
    pub fn locate(model_name: &str, folder: &Folder, file: &TextFile) -> (r: Result<
        (String, Contract),
        Status,
    >)
        ensures
            match onnx_parts(model_name@, *folder, *file) {
                Ok((path, declared)) => r matches Ok((p, contract)) && p@ == path && contract@
                    == declared,
                Err(status) => r matches Err(e) && e@ == status,
            },
    {
        let path = match find_exactly_one_onnx_file(folder) {
            Ok(path) => path,
            Err(status) => {
                return Err(status);
            },
        };
        match read_fed_contract("ONNX", model_name, file) {
            Ok(contract) => Ok((path, contract)),
            Err(status) => Err(status),
        }
    }

    /// Takes over the names of a loaded graph.
    pub fn load(inputs: Vec<String>, outputs: Vec<String>, contract: &Contract) -> (r: OnnxBackend)
        ensures
            text::texts(r.input_names@) == graph_names(
                text::texts(inputs@),
                triton::spec_names(contract@.inputs),
            ),
            text::texts(r.output_names@) == graph_names(
                text::texts(outputs@),
                triton::spec_names(contract@.outputs),
            ),
    {
        let input_names = if inputs.len() == 0 {
            declared_names(&contract.inputs)
        } else {
            inputs
        };
        let output_names = if outputs.len() == 0 {
            declared_names(&contract.outputs)
        } else {
            outputs
        };
        OnnxBackend { input_names, output_names }
    }

    /// The platform that the model reports.
    pub fn platform(&self) -> (r: &'static str)
        ensures
            r@ == "onnxruntime_onnx"@,
    {
        "onnxruntime_onnx"
    }

    /// Binds the inputs of a request to those of the graph, by position.
    pub fn feeds(&self, inputs: Vec<Tensor>) -> (r: Result<Vec<(String, Tensor)>, Status>)
        ensures
            match r {
                Ok(feeds) => engine::spec_feeds(
                    Engine::Onnx,
                    text::texts(self.input_names@),
                    tensor::tensor_views(inputs@),
                ) == Ok::<Seq<(Seq<char>, TensorView)>, StatusView>(engine::feed_views(feeds@)),
                Err(e) => engine::spec_feeds(
                    Engine::Onnx,
                    text::texts(self.input_names@),
                    tensor::tensor_views(inputs@),
                ) == Err::<Seq<(Seq<char>, TensorView)>, StatusView>(e@),
            },
    {
        bind_feeds(Engine::Onnx, &self.input_names, inputs)
    }

    /// Makes the outputs of the model from what was fetched for each of their names.
    pub fn outputs(&self, given: Vec<Result<EngineOutput, Status>>) -> (r: Result<
        Vec<Tensor>,
        Status,
    >)
        requires
            given@.len() == self.output_names@.len(),
        ensures
            match r {
                Ok(outputs) => engine::spec_named_outputs(
                    Engine::Onnx,
                    text::texts(self.output_names@),
                    given@,
                ) == Ok::<Seq<TensorView>, StatusView>(tensor::tensor_views(outputs@)),
                Err(e) => engine::spec_named_outputs(
                    Engine::Onnx,
                    text::texts(self.output_names@),
                    given@,
                ) == Err::<Seq<TensorView>, StatusView>(e@),
            },
    {
        name_outputs(Engine::Onnx, &self.output_names, given)
    }
}

/// Takes an output that the graph must have given.
pub fn require_output<T>(name: &str, found: Option<T>) -> (r: Result<T, Status>)
    ensures
        match found {
            Some(value) => r == Ok::<T, Status>(value),
            None => r matches Err(e) && e@ == (
                Code::Internal,
                "ONNX output '"@ + name@ + "' missing"@,
            ),
        },
{
    match found {
        Some(value) => Ok(value),
        None => Err(Status::internal(cat3("ONNX output '", name, "' missing"))),
    }
}

} // verus!
