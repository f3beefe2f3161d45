//! Native models of the worker runtime: how an engine is told what to load, and
//! what it is fed.

use vstd::prelude::*;

use crate::config::{ModelConfig, ModelDevice};
use crate::contract::Contract;
use crate::engine::{declared_names, Engine};
use crate::order;
use crate::order::sorted_names;
use crate::status::{Code, Status, StatusView};
use crate::tensor::{Tensor, TensorView};
use crate::text;
use crate::triton;

verus! {

/// A tensor handed to or given by a native model: a canonical type and its bytes
/// in row-major order, least byte first.
#[derive(Debug)]
pub struct NativeTensor {
    pub name: String,
    pub shape: Vec<i64>,
    pub dtype: String,
    pub data: Vec<u8>,
}

impl View for NativeTensor {
    type V = TensorView;

    open spec fn view(&self) -> TensorView {
        TensorView {
            name: self.name@,
            shape: self.shape@,
            dtype: self.dtype@,
            data: self.data@,
        }
    }
}

impl NativeTensor {
    /// The tensor as the rest of the server has it.
    pub fn into_tensor(self) -> (r: Tensor)
        ensures
            r@ == self@,
    {
        Tensor { name: self.name, shape: self.shape, dtype: self.dtype, data: self.data }
    }

    /// A tensor of the rest of the server.
    pub fn from_tensor(t: Tensor) -> (r: NativeTensor)
        ensures
            r@ == t@,
    {
        NativeTensor { name: t.name, shape: t.shape, dtype: t.dtype, data: t.data }
    }
}

/// Which native engine to load.
#[derive(Clone, Copy, Debug, PartialEq, Eq, Structural)]
pub enum NativeKind {
    Onnx,
    Tensorflow,
}

/// What an engine needs to load a model besides the model itself.
#[derive(Debug)]
pub struct NativeLoadSpec {
    /// The model file of ONNX, or the SavedModel folder of TensorFlow.
    pub path: String,
    /// The CUDA device, or none for the processor.
    pub cuda_index: Option<usize>,
    pub input_names: Vec<String>,
    pub output_names: Vec<String>,
    /// The SavedModel signature, which ONNX does not use.
    pub signature: String,
}

impl NativeLoadSpec {
    /// What the engine of a configured model loads, from the given path.
    pub fn new(path: String, model: &ModelConfig, contract: &Contract) -> (r: NativeLoadSpec)
        ensures
            r.path == path,
            r.cuda_index == match model.device {
                ModelDevice::Cpu => None,
                ModelDevice::Cuda(index) => Some(index),
            },
            text::texts(r.input_names@) == triton::spec_names(contract@.inputs),
            text::texts(r.output_names@) == triton::spec_names(contract@.outputs),
            r.signature@ == match model.signature {
                Some(signature) => signature@,
                None => "serving_default"@,
            },
    {
        NativeLoadSpec {
            path,
            cuda_index: model.device.cuda_index(),
            input_names: declared_names(&contract.inputs),
            output_names: declared_names(&contract.outputs),
            signature: model.tf_signature().to_string(),
        }
    }
}

/// The engine that loads a model of the given kind, or that it is not built in.
pub open spec fn spec_native_engine(kind: NativeKind, built_in: bool) -> Result<
    Engine,
    StatusView,
> {
    if built_in {
        Ok(
            match kind {
                NativeKind::Onnx => Engine::Onnx,
                NativeKind::Tensorflow => Engine::Tensorflow,
            },
        )
    } else {
        Err(
            (
                Code::FailedPrecondition,
                match kind {
                    NativeKind::Onnx
                        => "model uses the ONNX backend, but this server was built without it. Rebuild with `--features onnx` (or `./build.sh --onnx`)."@,
                    NativeKind::Tensorflow
                        => "model uses the TensorFlow backend, but this server was built without it. Rebuild with `--features tensorflow` (or `./build.sh --tensorflow`)."@,
                },
            ),
        )
    }
}

/// Decides which engine loads a model, and hands on what it needs. `built_in` says
/// whether the server has the engine.
pub fn load_native_model(kind: NativeKind, spec: NativeLoadSpec, built_in: bool) -> (r: Result<
    (Engine, NativeLoadSpec),
    Status,
>)
    ensures
        match r {
            Ok((engine, handed)) => spec_native_engine(kind, built_in) == Ok::<Engine, StatusView>(
                engine,
            ) && handed == spec,
            Err(e) => spec_native_engine(kind, built_in) == Err::<Engine, StatusView>(e@),
        },
{
    match kind {
        NativeKind::Onnx => {
            if built_in {
                Ok((Engine::Onnx, spec))
            } else {
                Err(
                    Status::failed_precondition(
                        "model uses the ONNX backend, but this server was built without it. Rebuild with `--features onnx` (or `./build.sh --onnx`).".to_string(),
                    ),
                )
            }
        },
        NativeKind::Tensorflow => {
            if built_in {
                Ok((Engine::Tensorflow, spec))
            } else {
                Err(
                    Status::failed_precondition(
                        "model uses the TensorFlow backend, but this server was built without it. Rebuild with `--features tensorflow` (or `./build.sh --tensorflow`).".to_string(),
                    ),
                )
            }
        },
    }
}

/// The tensors of a signature to use: the declared ones, or all keys of the
/// signature, in order, where none are declared.
pub fn names_or_signature_keys(declared: Vec<String>, keys: &Vec<String>) -> (r: Vec<String>)
    ensures
        if declared@.len() > 0 {
            r@ == declared@
        } else {
            &&& order::in_order(text::texts(r@))
            &&& text::texts(r@).to_multiset() == text::texts(keys@).to_multiset()
        },
{
    if declared.len() > 0 {
        declared
    } else {
        sorted_names(keys)
    }
}

} // verus!
