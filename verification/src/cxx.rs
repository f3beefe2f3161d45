//! C++ models that are compiled into the server and found by their names.

use vstd::prelude::*;

use crate::backend::Backend;
use crate::contract::{Contract, ContractView};
use crate::engine;
use crate::engine::read_fed_contract;
use crate::names;
use crate::status::{Code, Status, StatusView};
use crate::tensor;
use crate::tensor::{Tensor, TensorView};
use crate::text::{cat2, cat3, same};
use crate::textproto::TextFile;

verus! {

/// A compiled-in model. It runs on one tensor, given by its type, its shape and
/// its bytes, and gives one of the same form, or says why it failed.
pub trait CxxModel {
    fn run(&self, dtype: &str, shape: &[i64], data: &[u8]) -> (r: Result<
        (Vec<i64>, String, Vec<u8>),
        String,
    >);
}

/// The names of registered models.
pub open spec fn registered<M>(registry: Seq<(String, M)>) -> Seq<Seq<char>> {
    Seq::new(registry.len(), |i: int| registry[i].0@)
}

fn find_registered<M>(registry: &Vec<(String, M)>, name: &str) -> (r: usize)
    ensures
        r == names::position(registered(registry@), name@),
        r <= registry@.len(),
{
    let ghost all = registered(registry@);
    let mut i: usize = 0;
    while i < registry.len()
        invariant
            i <= registry@.len(),
            all == registered(registry@),
            forall|k: int| 0 <= k < i ==> all[k] != name@,
        decreases registry@.len() - i,
    {
        if same(registry[i].0.as_str(), name) {
            proof {
                names::lemma_position_is(all, name@, i as nat);
            }
            return i;
        }
        i = i + 1;
    }
    proof {
        names::lemma_position_is(all, name@, i as nat);
    }
    i
}

/// Whether a model of that name is compiled in.
pub fn model_exists<M: CxxModel>(registry: &Vec<(String, M)>, name: &str) -> (r: bool)
    ensures
        r == registered(registry@).contains(name@),
{
    proof {
        names::lemma_position(registered(registry@), name@);
    }
    find_registered(registry, name) < registry.len()
}

/// Takes the compiled-in model of that name, if there is one.
pub fn create<M: CxxModel>(registry: Vec<(String, M)>, name: &str) -> (r: Option<M>)
    ensures
        ({
            let i = names::position(registered(registry@), name@);
            if i < registry@.len() {
                r == Some(registry@[i as int].1)
            } else {
                r is None
            }
        }),
{
    let i: usize = find_registered(&registry, name);
    if i < registry.len() {
        let mut registry = registry;
        let (_, model) = registry.remove(i);
        Some(model)
    } else {
        None
    }
}

/// The answer to a request from what the model gave, or the failure.
pub open spec fn cxx_answer(result: Result<(Vec<i64>, String, Vec<u8>), String>) -> Result<
    Seq<TensorView>,
    StatusView,
> {
    match result {
        Ok((shape, dtype, data)) => Ok(
            seq![
                TensorView { name: "output"@, shape: shape@, dtype: dtype@, data: data@ },
            ],
        ),
        Err(cause) => Err((Code::Internal, "cxx model failed: "@ + cause@)),
    }
}

/// Answers a request from what the model gave.
pub fn answer_from_run(result: Result<(Vec<i64>, String, Vec<u8>), String>) -> (r: Result<
    Vec<Tensor>,
    Status,
>)
    ensures
        match r {
            Ok(outputs) => cxx_answer(result) == Ok::<Seq<TensorView>, StatusView>(
                tensor::tensor_views(outputs@),
            ),
            Err(e) => cxx_answer(result) == Err::<Seq<TensorView>, StatusView>(e@),
        },
{
    match result {
        Ok((shape, dtype, data)) => {
            let mut outputs: Vec<Tensor> = Vec::new();
            outputs.push(Tensor { name: "output".to_string(), shape, dtype, data });
            assert(tensor::tensor_views(outputs@) =~= seq![outputs@[0]@]);
            Ok(outputs)
        },
        Err(cause) => Err(Status::internal(cat2("cxx model failed: ", cause.as_str()))),
    }
}

/// Why a compiled-in model cannot be loaded, or the contract that it is loaded
/// with.
pub open spec fn cxx_contract(model: Seq<char>, file: TextFile, compiled_in: bool) -> Result<
    ContractView,
    StatusView,
> {
    match engine::fed_contract("C++"@, model, file) {
        Err(status) => Err(status),
        Ok(contract) => if compiled_in {
            Ok(contract)
        } else {
            Err(
                (
                    Code::FailedPrecondition,
                    "no compiled-in C++ model named '"@ + model
                        + "'. Register it in the cxx-models crate and rebuild with `--features cxx`."@,
                ),
            )
        },
    }
}

/// A loaded compiled-in model.
#[derive(Debug)]
pub struct CxxBackend<M> {
    pub model: M,
}

impl<M: CxxModel> CxxBackend<M> {
    /// Loads a compiled-in model: the code is found by its name, the file declares
    /// its contract.
    pub fn load(registry: Vec<(String, M)>, model_name: &str, file: &TextFile) -> (r: Result<
        (CxxBackend<M>, Contract),
        Status,
    >)
        ensures
            ({
                let i = names::position(registered(registry@), model_name@);
                match cxx_contract(model_name@, *file, i < registry@.len()) {
                    Ok(declared) => r matches Ok((backend, contract)) && backend.model
                        == registry@[i as int].1 && contract@ == declared,
                    Err(status) => r matches Err(e) && e@ == status,
                }
            }),
    {
        let contract = match read_fed_contract("C++", model_name, file) {
            Ok(contract) => contract,
            Err(status) => {
                return Err(status);
            },
        };
        match create(registry, model_name) {
            Some(model) => Ok((CxxBackend { model }, contract)),
            None => Err(
                Status::failed_precondition(
                    cat3(
                        "no compiled-in C++ model named '",
                        model_name,
                        "'. Register it in the cxx-models crate and rebuild with `--features cxx`.",
                    ),
                ),
            ),
        }
    }
}

impl<M: CxxModel> Backend for CxxBackend<M> {
    fn platform(&self) -> (r: &'static str)
        ensures
            r@ == "nereid_cxx"@,
    {
        "nereid_cxx"
    }

    /// Runs the model on the first input. What comes of its reply is
    /// [`cxx_answer`].
    fn infer(&self, inputs: Vec<Tensor>) -> (r: Result<Vec<Tensor>, Status>)
        ensures
            inputs@.len() == 0 ==> (r matches Err(e) && e@ == (
                Code::InvalidArgument,
                "cxx model expects exactly one input tensor"@,
            )),
            inputs@.len() > 0 ==> exists|dtype: &str, shape: &[i64], data: &[u8], result|
                {
                    &&& dtype@ == inputs@[0].dtype@
                    &&& shape@ == inputs@[0].shape@
                    &&& data@ == inputs@[0].data@
                    &&& #[trigger] call_ensures(M::run, (&self.model, dtype, shape, data), result)
                    &&& match r {
                        Ok(outputs) => cxx_answer(result) == Ok::<Seq<TensorView>, StatusView>(
                            tensor::tensor_views(outputs@),
                        ),
                        Err(e) => cxx_answer(result) == Err::<Seq<TensorView>, StatusView>(e@),
                    }
                },
    {
        if inputs.len() == 0 {
            return Err(
                Status::invalid_argument(
                    "cxx model expects exactly one input tensor".to_string(),
                ),
            );
        }
        let dtype = inputs[0].dtype.as_str();
        let shape = inputs[0].shape.as_slice();
        let data = inputs[0].data.as_slice();
        let result = self.model.run(dtype, shape, data);
        assert(call_ensures(M::run, (&self.model, dtype, shape, data), result));
        answer_from_run(result)
    }
}

} // verus!
