//! Engines that run models inside the server: what they need declared, how their
//! tensors are bound by name, and which types they take.

use vstd::prelude::*;

use crate::contract;
use crate::contract::{Contract, ContractView, TensorSpec};
use crate::dtype;
use crate::dtype::canonical_to_kserve;
use crate::number;
use crate::number::decimal_usize;
use crate::status;
use crate::status::{Code, Status, StatusView};
use crate::tensor;
use crate::tensor::{Tensor, TensorView};
use crate::text;
use crate::text::{cat2, cat4, cat5, cat6, same};
use crate::textproto::TextFile;
use crate::triton;

verus! {

/// The contract of a model that is fed an input, or why it has none. `kind` is
/// what messages call such a model.
pub open spec fn fed_contract(kind: Seq<char>, model: Seq<char>, file: TextFile) -> Result<
    ContractView,
    StatusView,
> {
    match file.declares() {
        Err(status) => Err(status),
        Ok(contract) => if contract.inputs.len() == 0 {
            Err(
                (
                    Code::FailedPrecondition,
                    kind + " model '"@ + model
                        + "' must declare input_shape in model_inference.textproto"@,
                ),
            )
        } else {
            Ok(contract)
        },
    }
}

/// Reads the contract of a model that is fed an input.
pub fn read_fed_contract(kind: &str, model_name: &str, file: &TextFile) -> (r: Result<
    Contract,
    Status,
>)
    ensures
        match r {
            Ok(contract) => fed_contract(kind@, model_name@, *file) == Ok::<
                ContractView,
                StatusView,
            >(contract@),
            Err(e) => fed_contract(kind@, model_name@, *file) == Err::<ContractView, StatusView>(
                e@,
            ),
        },
{
    let contract = match Contract::parse(file) {
        Ok(contract) => contract,
        Err(status) => {
            return Err(status);
        },
    };
    if !contract.has_input() {
        return Err(
            Status::failed_precondition(
                cat4(
                    kind,
                    " model '",
                    model_name,
                    "' must declare input_shape in model_inference.textproto",
                ),
            ),
        );
    }
    Ok(contract)
}

/// An engine that runs models inside the server.
#[derive(Clone, Copy, Debug, PartialEq, Eq, Structural)]
pub enum Engine {
    Onnx,
    Tensorflow,
}

impl Engine {
    /// The name of the engine in messages.
    pub open spec fn spec_name(self) -> Seq<char> {
        match self {
            Engine::Onnx => "ONNX"@,
            Engine::Tensorflow => "TensorFlow"@,
        }
    }

    /// Gives the name of the engine in messages.
    pub fn name(self) -> (r: &'static str)
        ensures
            r@ == self.spec_name(),
    {
        match self {
            Engine::Onnx => "ONNX",
            Engine::Tensorflow => "TensorFlow",
        }
    }

    /// Whether the engine takes tensors of a type: all fixed-width types, but for
    /// `bfloat16` in TensorFlow.
    pub open spec fn takes(self, dtype: Seq<char>) -> bool {
        dtype::spec_canonical_to_kserve(dtype) is Some && !(self == Engine::Tensorflow && dtype
            == "bfloat16"@)
    }

    /// The width of one element of a type that the engine takes.
    pub fn element_width(self, dtype: &str) -> (r: Option<usize>)
        ensures
            r == if self.takes(dtype@) {
                Some(width_of(dtype@))
            } else {
                None
            },
    {
        match canonical_to_kserve(dtype) {
            None => None,
            Some((_, width)) => {
                match self {
                    Engine::Onnx => Some(width),
                    Engine::Tensorflow => {
                        if same(dtype, "bfloat16") {
                            None
                        } else {
                            Some(width)
                        }
                    },
                }
            },
        }
    }
}

/// The width of one element of a canonical type, zero for any other name.
pub open spec fn width_of(dtype: Seq<char>) -> usize {
    match dtype::spec_canonical_to_kserve(dtype) {
        Some((_, width)) => width,
        None => 0,
    }
}

/// The failure of a call into an engine.
pub open spec fn engine_failure(engine: Engine, action: Seq<char>, cause: Seq<char>) -> StatusView {
    (
        Code::Internal,
        engine.spec_name() + " backend: failed to "@ + action + ": "@ + cause,
    )
}

/// Makes [`engine_failure`].
pub fn engine_error(engine: Engine, action: &str, cause: &str) -> (r: Status)
    ensures
        r@ == engine_failure(engine, action@, cause@),
{
    Status::internal(cat5(engine.name(), " backend: failed to ", action, ": ", cause))
}

/// The verdict on the number of inputs that a model got.
pub open spec fn spec_input_count(engine: Engine, expected: nat, got: nat) -> Result<
    (),
    StatusView,
> {
    if got == expected {
        Ok(())
    } else {
        Err(
            (
                Code::InvalidArgument,
                engine.spec_name() + " model expects "@ + number::decimal(expected as int)
                    + " input(s), got "@ + number::decimal(got as int),
            ),
        )
    }
}

/// Checks the number of inputs that a model got.
pub fn check_input_count(engine: Engine, expected: usize, got: usize) -> (r: Result<(), Status>)
    ensures
        status::same_outcome(r, spec_input_count(engine, expected as nat, got as nat)),
{
    if got == expected {
        return Ok(());
    }
    let expected_text = decimal_usize(expected);
    let got_text = decimal_usize(got);
    Err(
        Status::invalid_argument(
            cat5(
                engine.name(),
                " model expects ",
                expected_text.as_str(),
                " input(s), got ",
                got_text.as_str(),
            ),
        ),
    )
}

/// How many elements an input holds, or why the engine does not take it: its type
/// is unknown to it, or its bytes are no whole number of elements.
pub open spec fn spec_engine_input(engine: Engine, t: TensorView) -> Result<int, StatusView> {
    if !engine.takes(t.dtype) {
        Err(
            (
                Code::InvalidArgument,
                engine.spec_name() + " backend: unsupported input dtype '"@ + t.dtype + "'"@,
            ),
        )
    } else {
        let width = width_of(t.dtype);
        if t.data.len() as int % width as int != 0 {
            Err(
                (
                    Code::InvalidArgument,
                    "model '"@ + t.name + "': input byte length "@ + number::decimal(
                        t.data.len() as int,
                    ) + " is not a multiple of element size "@ + number::decimal(width as int),
                ),
            )
        } else {
            Ok(t.data.len() as int / width as int)
        }
    }
}

/// Checks an input before its bytes are handed to the engine, and counts its
/// elements.
pub fn check_engine_input(engine: Engine, t: &Tensor) -> (r: Result<usize, Status>)
    ensures
        match r {
            Ok(n) => spec_engine_input(engine, t@) == Ok::<int, StatusView>(n as int),
            Err(e) => spec_engine_input(engine, t@) == Err::<int, StatusView>(e@),
        },
{
    let width: usize = match engine.element_width(t.dtype.as_str()) {
        Some(width) => width,
        None => {
            return Err(
                Status::invalid_argument(
                    cat4(
                        engine.name(),
                        " backend: unsupported input dtype '",
                        t.dtype.as_str(),
                        "'",
                    ),
                ),
            );
        },
    };
    if t.data.len() % width != 0 {
        let length = decimal_usize(t.data.len());
        let size = decimal_usize(width);
        return Err(
            Status::invalid_argument(
                cat6(
                    "model '",
                    t.name.as_str(),
                    "': input byte length ",
                    length.as_str(),
                    " is not a multiple of element size ",
                    size.as_str(),
                ),
            ),
        );
    }
    Ok(t.data.len() / width)
}

/// The type of an output's elements, as an engine reports it. `Other` names a type
/// without a canonical name.
#[derive(Debug)]
pub enum ElementType {
    Bool,
    Uint8,
    Uint16,
    Uint32,
    Uint64,
    Int8,
    Int16,
    Int32,
    Int64,
    Float16,
    Float32,
    Float64,
    Bfloat16,
    Other(String),
}

impl ElementType {
    /// The canonical name of the type.
    pub open spec fn spec_canonical(self) -> Option<Seq<char>> {
        match self {
            ElementType::Bool => Some("bool"@),
            ElementType::Uint8 => Some("uint8"@),
            ElementType::Uint16 => Some("uint16"@),
            ElementType::Uint32 => Some("uint32"@),
            ElementType::Uint64 => Some("uint64"@),
            ElementType::Int8 => Some("int8"@),
            ElementType::Int16 => Some("int16"@),
            ElementType::Int32 => Some("int32"@),
            ElementType::Int64 => Some("int64"@),
            ElementType::Float16 => Some("float16"@),
            ElementType::Float32 => Some("float32"@),
            ElementType::Float64 => Some("float64"@),
            ElementType::Bfloat16 => Some("bfloat16"@),
            ElementType::Other(_) => None,
        }
    }

    /// Gives the canonical name of a type that has one, and the empty name for any
    /// other.
    pub fn known_name(&self) -> (r: &'static str)
        ensures
            match self.spec_canonical() {
                Some(name) => r@ == name,
                None => r@ == ""@,
            },
    {
        match self {
            ElementType::Bool => "bool",
            ElementType::Uint8 => "uint8",
            ElementType::Uint16 => "uint16",
            ElementType::Uint32 => "uint32",
            ElementType::Uint64 => "uint64",
            ElementType::Int8 => "int8",
            ElementType::Int16 => "int16",
            ElementType::Int32 => "int32",
            ElementType::Int64 => "int64",
            ElementType::Float16 => "float16",
            ElementType::Float32 => "float32",
            ElementType::Float64 => "float64",
            ElementType::Bfloat16 => "bfloat16",
            ElementType::Other(_) => "",
        }
    }
}

/// The canonical name of the type of an engine's output, or why the output cannot
/// be served. ONNX Runtime may give an output that is no tensor.
pub open spec fn spec_output_type(engine: Engine, element: Option<ElementType>) -> Result<
    Seq<char>,
    StatusView,
> {
    match element {
        None => Err(
            (Code::Internal, engine.spec_name() + " output is not a tensor"@),
        ),
        Some(ElementType::Other(shown)) => Err(
            (
                Code::Internal,
                match engine {
                    Engine::Onnx => "ONNX backend: unsupported output element type "@,
                    Engine::Tensorflow => "TensorFlow backend: unsupported output dtype "@,
                } + shown@,
            ),
        ),
        Some(known) => {
            let dtype = known.spec_canonical()->0;
            if engine.takes(dtype) {
                Ok(dtype)
            } else {
                Err(
                    (
                        Code::Internal,
                        engine.spec_name() + " backend: unsupported output dtype '"@ + dtype
                            + "'"@,
                    ),
                )
            }
        },
    }
}

/// Decides the type of an engine's output.
pub fn output_type(engine: Engine, element: &Option<ElementType>) -> (r: Result<
    &'static str,
    Status,
>)
    ensures
        match r {
            Ok(name) => spec_output_type(engine, *element) == Ok::<Seq<char>, StatusView>(name@),
            Err(e) => spec_output_type(engine, *element) == Err::<Seq<char>, StatusView>(e@),
        },
{
    let element = match element {
        None => {
            return Err(Status::internal(cat2(engine.name(), " output is not a tensor")));
        },
        Some(element) => element,
    };
    match element {
        ElementType::Other(shown) => {
            let head = match engine {
                Engine::Onnx => "ONNX backend: unsupported output element type ",
                Engine::Tensorflow => "TensorFlow backend: unsupported output dtype ",
            };
            Err(Status::internal(cat2(head, shown.as_str())))
        },
        _ => {
            let name = element.known_name();
            if engine.element_width(name).is_some() {
                Ok(name)
            } else {
                Err(
                    Status::internal(
                        cat4(engine.name(), " backend: unsupported output dtype '", name, "'"),
                    ),
                )
            }
        },
    }
}

/// The names of declared tensors.
pub fn declared_names(specs: &Vec<TensorSpec>) -> (r: Vec<String>)
    ensures
        text::texts(r@) == triton::spec_names(contract::spec_views(specs@)),
{
    let mut out: Vec<String> = Vec::new();
    let mut i: usize = 0;
    while i < specs.len()
        invariant
            i <= specs@.len(),
            out@.len() == i,
            forall|k: int| 0 <= k < i ==> (#[trigger] out@[k])@ == specs@[k].name@,
        decreases specs@.len() - i,
    {
        out.push(specs[i].name.clone());
        i = i + 1;
    }
    assert(text::texts(out@) =~= triton::spec_names(contract::spec_views(specs@)));
    out
}

/// Tensors with the names that they are fed under, as contracts see them.
pub open spec fn feed_views(feeds: Seq<(String, Tensor)>) -> Seq<(Seq<char>, TensorView)> {
    Seq::new(feeds.len(), |i: int| (feeds[i].0@, feeds[i].1@))
}

/// The first inputs with the names that they are fed under, or why the first that
/// the engine does not take is refused.
pub open spec fn first_feeds(engine: Engine, names: Seq<Seq<char>>, inputs: Seq<TensorView>) -> Result<
    Seq<(Seq<char>, TensorView)>,
    StatusView,
>
    decreases inputs.len(),
{
    if inputs.len() == 0 {
        Ok(Seq::empty())
    } else {
        match first_feeds(engine, names, inputs.drop_last()) {
            Err(status) => Err(status),
            Ok(before) => match spec_engine_input(engine, inputs.last()) {
                Err(status) => Err(status),
                Ok(_) => Ok(before.push((names[inputs.len() - 1], inputs.last()))),
            },
        }
    }
}

/// What an engine is fed: each input under the name at its place. Refused are
/// another number of inputs than names, and else the first input that the engine
/// does not take.
pub open spec fn spec_feeds(engine: Engine, names: Seq<Seq<char>>, inputs: Seq<TensorView>) -> Result<
    Seq<(Seq<char>, TensorView)>,
    StatusView,
> {
    match spec_input_count(engine, names.len(), inputs.len()) {
        Err(status) => Err(status),
        Ok(_) => first_feeds(engine, names, inputs),
    }
}

proof fn lemma_feeds_fault(engine: Engine, names: Seq<Seq<char>>, inputs: Seq<TensorView>, k: int)
    requires
        0 <= k <= inputs.len(),
        first_feeds(engine, names, inputs.take(k)) is Err,
    ensures
        first_feeds(engine, names, inputs) == first_feeds(engine, names, inputs.take(k)),
    decreases inputs.len() - k,
{
    if k == inputs.len() {
        assert(inputs.take(k) =~= inputs);
    } else {
        assert(inputs.take(k + 1).drop_last() =~= inputs.take(k));
        lemma_feeds_fault(engine, names, inputs, k + 1);
    }
}

/// Binds the inputs of a request to the names of a model's inputs, by position.
pub fn bind_feeds(engine: Engine, names: &Vec<String>, inputs: Vec<Tensor>) -> (r: Result<
    Vec<(String, Tensor)>,
    Status,
>)
    ensures
        match r {
            Ok(feeds) => spec_feeds(
                engine,
                text::texts(names@),
                tensor::tensor_views(inputs@),
            ) == Ok::<Seq<(Seq<char>, TensorView)>, StatusView>(feed_views(feeds@)),
            Err(e) => spec_feeds(engine, text::texts(names@), tensor::tensor_views(inputs@))
                == Err::<Seq<(Seq<char>, TensorView)>, StatusView>(e@),
        },
{
    if let Err(status) = check_input_count(engine, names.len(), inputs.len()) {
        return Err(status);
    }
    let ghost given = text::texts(names@);
    let ghost all = tensor::tensor_views(inputs@);
    let total: usize = inputs.len();
    let mut left = inputs;
    let mut feeds: Vec<(String, Tensor)> = Vec::new();
    let mut i: usize = 0;
    proof {
        assert(all.take(0) =~= Seq::empty());
        assert(feed_views(feeds@) =~= Seq::empty());
        assert(tensor::tensor_views(left@) =~= all.skip(0));
    }
    while left.len() > 0
        invariant
            i + left@.len() == total,
            total == all.len(),
            total == names@.len(),
            all == tensor::tensor_views(inputs@),
            given == text::texts(names@),
            tensor::tensor_views(left@) == all.skip(i as int),
            first_feeds(engine, given, all.take(i as int)) == Ok::<
                Seq<(Seq<char>, TensorView)>,
                StatusView,
            >(feed_views(feeds@)),
        decreases left@.len(),
    {
        let ghost rest = left@;
        let input = left.remove(0);
        proof {
            assert(all[i as int] == all.skip(i as int)[0]);
            assert(all[i as int] == input@);
            assert(all.take(i + 1).drop_last() =~= all.take(i as int));
            assert(all.take(i + 1).last() == input@);
        }
        if let Err(status) = check_engine_input(engine, &input) {
            proof {
                lemma_feeds_fault(engine, given, all, i + 1);
            }
            return Err(status);
        }
        let ghost before = feeds@;
        feeds.push((names[i].clone(), input));
        proof {
            assert(feed_views(feeds@) =~= feed_views(before).push((given[i as int], input@)));
            assert forall|k: int| 0 <= k < left@.len() implies #[trigger] left@[k]@ == all.skip(
                i + 1,
            )[k] by {
                assert(left@[k] == rest[k + 1]);
                assert(rest[k + 1]@ == all.skip(i as int)[k + 1]);
            }
            assert(tensor::tensor_views(left@) =~= all.skip(i + 1));
        }
        i = i + 1;
    }
    assert(all.take(i as int) =~= all);
    Ok(feeds)
}

proof fn lemma_first_feeds(engine: Engine, names: Seq<Seq<char>>, inputs: Seq<TensorView>)
    ensures
        match first_feeds(engine, names, inputs) {
            Ok(feeds) => {
                &&& feeds.len() == inputs.len()
                &&& forall|i: int|
                    0 <= i < inputs.len() ==> #[trigger] feeds[i] == (names[i], inputs[i])
                        && spec_engine_input(engine, inputs[i]) is Ok
            },
            Err(status) => exists|i: int|
                {
                    &&& 0 <= i < inputs.len()
                    &&& #[trigger] spec_engine_input(engine, inputs[i]) == Err::<int, StatusView>(
                        status,
                    )
                    &&& forall|k: int|
                        0 <= k < i ==> #[trigger] spec_engine_input(engine, inputs[k]) is Ok
                },
        },
    decreases inputs.len(),
{
    if inputs.len() > 0 {
        let front = inputs.drop_last();
        lemma_first_feeds(engine, names, front);
        match first_feeds(engine, names, front) {
            Err(status) => {
                let i = choose|i: int|
                    {
                        &&& 0 <= i < front.len()
                        &&& #[trigger] spec_engine_input(engine, front[i]) == Err::<
                            int,
                            StatusView,
                        >(status)
                        &&& forall|k: int|
                            0 <= k < i ==> #[trigger] spec_engine_input(engine, front[k]) is Ok
                    };
                assert(inputs[i] == front[i]);
                assert forall|k: int| 0 <= k < i implies #[trigger] spec_engine_input(
                    engine,
                    inputs[k],
                ) is Ok by {
                    assert(inputs[k] == front[k]);
                }
            },
            Ok(before) => {
                let n = inputs.len() - 1;
                assert forall|k: int| 0 <= k < n implies #[trigger] spec_engine_input(
                    engine,
                    inputs[k],
                ) is Ok by {
                    assert(inputs[k] == front[k]);
                    assert(before[k] == (names[k], front[k]));
                }
                assert(inputs[n] == inputs.last());
                if let Ok(feeds) = first_feeds(engine, names, inputs) {
                    assert forall|i: int| 0 <= i < inputs.len() implies #[trigger] feeds[i] == (
                        names[i],
                        inputs[i],
                    ) && spec_engine_input(engine, inputs[i]) is Ok by {
                        if i < n {
                            assert(feeds[i] == before[i]);
                        }
                    }
                }
            },
        }
    }
}

/// The inputs of a request are bound by position: where as many come as the model
/// has names for, the input at a place is fed under the name at that place, and the
/// first input that the engine does not take decides why the request is refused.
pub proof fn law_inputs_fed_by_position(
    engine: Engine,
    names: Seq<Seq<char>>,
    inputs: Seq<TensorView>,
)
    requires
        names.len() == inputs.len(),
    ensures
        match spec_feeds(engine, names, inputs) {
            Ok(feeds) => {
                &&& feeds.len() == names.len()
                &&& forall|i: int|
                    0 <= i < names.len() ==> #[trigger] feeds[i] == (names[i], inputs[i])
                        && spec_engine_input(engine, inputs[i]) is Ok
            },
            Err(status) => exists|i: int|
                {
                    &&& 0 <= i < inputs.len()
                    &&& #[trigger] spec_engine_input(engine, inputs[i]) == Err::<int, StatusView>(
                        status,
                    )
                    &&& forall|k: int|
                        0 <= k < i ==> #[trigger] spec_engine_input(engine, inputs[k]) is Ok
                },
        },
{
    lemma_first_feeds(engine, names, inputs);
}

/// What an engine gave for an output: the type that it reports, and the shape and
/// the bytes, which are missing where the type cannot be served.
#[derive(Debug)]
pub struct EngineOutput {
    pub element: Option<ElementType>,
    pub shape: Vec<i64>,
    pub data: Vec<u8>,
}

/// The output with a name from what the engine gave for it, or why it cannot be
/// served.
pub open spec fn spec_named_output(
    engine: Engine,
    name: Seq<char>,
    given: Result<EngineOutput, Status>,
) -> Result<TensorView, StatusView> {
    match given {
        Err(status) => Err(status@),
        Ok(output) => match spec_output_type(engine, output.element) {
            Err(status) => Err(status),
            Ok(dtype) => Ok(
                TensorView { name, shape: output.shape@, dtype, data: output.data@ },
            ),
        },
    }
}

/// The first outputs, in the order of their names, or why the first that cannot be
/// served fails the inference.
pub open spec fn spec_named_outputs(
    engine: Engine,
    names: Seq<Seq<char>>,
    given: Seq<Result<EngineOutput, Status>>,
) -> Result<Seq<TensorView>, StatusView>
    decreases given.len(),
{
    if given.len() == 0 {
        Ok(Seq::empty())
    } else {
        match spec_named_outputs(engine, names, given.drop_last()) {
            Err(status) => Err(status),
            Ok(before) => match spec_named_output(
                engine,
                names[given.len() - 1],
                given.last(),
            ) {
                Err(status) => Err(status),
                Ok(output) => Ok(before.push(output)),
            },
        }
    }
}

proof fn lemma_outputs_fault(
    engine: Engine,
    names: Seq<Seq<char>>,
    given: Seq<Result<EngineOutput, Status>>,
    k: int,
)
    requires
        0 <= k <= given.len(),
        spec_named_outputs(engine, names, given.take(k)) is Err,
    ensures
        spec_named_outputs(engine, names, given) == spec_named_outputs(
            engine,
            names,
            given.take(k),
        ),
    decreases given.len() - k,
{
    if k == given.len() {
        assert(given.take(k) =~= given);
    } else {
        assert(given.take(k + 1).drop_last() =~= given.take(k));
        lemma_outputs_fault(engine, names, given, k + 1);
    }
}

fn name_output(engine: Engine, name: &String, given: Result<EngineOutput, Status>) -> (r: Result<
    Tensor,
    Status,
>)
    ensures
        match r {
            Ok(t) => spec_named_output(engine, name@, given) == Ok::<TensorView, StatusView>(t@),
            Err(e) => spec_named_output(engine, name@, given) == Err::<TensorView, StatusView>(e@),
        },
{
    match given {
        Err(status) => Err(status),
        Ok(output) => match output_type(engine, &output.element) {
            Err(status) => Err(status),
            Ok(dtype) => Ok(
                Tensor {
                    name: name.clone(),
                    shape: output.shape,
                    dtype: dtype.to_string(),
                    data: output.data,
                },
            ),
        },
    }
}

/// Makes the outputs of a model from what its engine gave for each of their names,
/// in the order of the names.
pub fn name_outputs(
    engine: Engine,
    names: &Vec<String>,
    given: Vec<Result<EngineOutput, Status>>,
) -> (r: Result<Vec<Tensor>, Status>)
    requires
        given@.len() == names@.len(),
    ensures
        match r {
            Ok(outputs) => spec_named_outputs(engine, text::texts(names@), given@) == Ok::<
                Seq<TensorView>,
                StatusView,
            >(tensor::tensor_views(outputs@)),
            Err(e) => spec_named_outputs(engine, text::texts(names@), given@) == Err::<
                Seq<TensorView>,
                StatusView,
            >(e@),
        },
{
    let ghost all = given@;
    let ghost declared = text::texts(names@);
    let total: usize = given.len();
    let mut left = given;
    let mut outputs: Vec<Tensor> = Vec::new();
    let mut i: usize = 0;
    proof {
        assert(all.take(0) =~= Seq::empty());
        assert(tensor::tensor_views(outputs@) =~= Seq::empty());
        assert(all.skip(0) =~= all);
    }
    while left.len() > 0
        invariant
            i + left@.len() == total,
            total == all.len(),
            total == names@.len(),
            all == given@,
            declared == text::texts(names@),
            left@ == all.skip(i as int),
            spec_named_outputs(engine, declared, all.take(i as int)) == Ok::<
                Seq<TensorView>,
                StatusView,
            >(tensor::tensor_views(outputs@)),
        decreases left@.len(),
    {
        proof {
            assert(all.take(i + 1).drop_last() =~= all.take(i as int));
            assert(all.take(i + 1).last() == left@[0]);
        }
        let ghost before = outputs@;
        match name_output(engine, &names[i], left.remove(0)) {
            Err(status) => {
                proof {
                    lemma_outputs_fault(engine, declared, all, i + 1);
                }
                return Err(status);
            },
            Ok(output) => {
                outputs.push(output);
                assert(tensor::tensor_views(outputs@) =~= tensor::tensor_views(before).push(
                    output@,
                ));
            },
        }
        i = i + 1;
        assert(left@ =~= all.skip(i as int));
    }
    assert(all.take(i as int) =~= all);
    Ok(outputs)
}

/// The outputs of a model come in the order of their names, each under its own.
pub proof fn law_outputs_in_declared_order(
    engine: Engine,
    names: Seq<Seq<char>>,
    given: Seq<Result<EngineOutput, Status>>,
)
    ensures
        spec_named_outputs(engine, names, given) matches Ok(outputs) ==> {
            &&& outputs.len() == given.len()
            &&& forall|i: int|
                0 <= i < given.len() ==> (#[trigger] outputs[i]).name == names[i]
                    && spec_named_output(engine, names[i], given[i]) == Ok::<
                    TensorView,
                    StatusView,
                >(outputs[i])
        },
    decreases given.len(),
{
    if given.len() > 0 {
        let front = given.drop_last();
        law_outputs_in_declared_order(engine, names, front);
        if let Ok(outputs) = spec_named_outputs(engine, names, given) {
            let before = spec_named_outputs(engine, names, front)->Ok_0;
            assert forall|i: int| 0 <= i < given.len() implies (#[trigger] outputs[i]).name
                == names[i] && spec_named_output(engine, names[i], given[i]) == Ok::<
                TensorView,
                StatusView,
            >(outputs[i]) by {
                if i < front.len() {
                    assert(outputs[i] == before[i]);
                    assert(given[i] == front[i]);
                }
            }
        }
    }
}

/// How many bytes an element of a type takes; none are known of a type without a
/// canonical name.
pub open spec fn element_bytes(element: ElementType) -> usize {
    match element {
        ElementType::Bool | ElementType::Uint8 | ElementType::Int8 => 1,
        ElementType::Uint16
        | ElementType::Int16
        | ElementType::Float16
        | ElementType::Bfloat16 => 2,
        ElementType::Uint32 | ElementType::Int32 | ElementType::Float32 => 4,
        ElementType::Uint64 | ElementType::Int64 | ElementType::Float64 => 8,
        ElementType::Other(_) => 0,
    }
}

/// The word that the canonical names of a type's kind begin with.
pub open spec fn element_word(element: ElementType) -> Seq<char> {
    match element {
        ElementType::Bool => "bool"@,
        ElementType::Uint8
        | ElementType::Uint16
        | ElementType::Uint32
        | ElementType::Uint64 => "uint"@,
        ElementType::Int8
        | ElementType::Int16
        | ElementType::Int32
        | ElementType::Int64 => "int"@,
        ElementType::Float16 | ElementType::Float32 | ElementType::Float64 => "float"@,
        ElementType::Bfloat16 => "bfloat"@,
        ElementType::Other(_) => ""@,
    }
}

/// The type of an output is the engine's own: its canonical name is the word of its
/// kind with the number of its bits, elements of that name are as wide as the
/// engine's, and its KServe name is that of the same kind and width.
pub proof fn law_types_keep_kind_and_width(element: ElementType)
    requires
        !(element is Other),
    ensures
        element.spec_canonical() == Some(
            if element is Bool {
                element_word(element)
            } else {
                element_word(element) + number::decimal(8 * element_bytes(element) as int)
            },
        ),
        width_of(element.spec_canonical()->0) == element_bytes(element),
        dtype::spec_canonical_to_kserve(element.spec_canonical()->0) matches Some((datatype, width))
            && width == element_bytes(element) && dtype::named_by_kind(
            datatype,
            width,
            element.spec_canonical()->0,
        ),
{
    dtype::lemma_spelled();
    dtype::lemma_literals();
    let canonical = element.spec_canonical()->0;
    let (datatype, width) = dtype::spec_canonical_to_kserve(canonical)->0;
    dtype::law_names_invert(datatype, canonical, width);
    dtype::law_names_tell_kind_and_width(datatype, canonical, width);
}

/// Outputs of different types are told apart: no two types share a canonical name.
pub proof fn law_types_have_their_own_names(a: ElementType, b: ElementType)
    requires
        a.spec_canonical() is Some,
        a.spec_canonical() == b.spec_canonical(),
    ensures
        a == b,
{
    dtype::lemma_literals();
}

/// An engine takes the tensors of every datatype that the server knows; only
/// TensorFlow takes no `bfloat16`.
pub proof fn law_engines_take_known_types(engine: Engine, canonical: Seq<char>)
    ensures
        engine.takes(canonical) <==> (exists|datatype: Seq<char>, width: usize|
            #[trigger] dtype::named_by_kind(datatype, width, canonical) && (width == 1 || width == 2
                || width == 4 || width == 8)) && (engine == Engine::Onnx || canonical
            != "bfloat16"@),
{
    if let Some((datatype, width)) = dtype::spec_canonical_to_kserve(canonical) {
        dtype::law_names_invert(datatype, canonical, width);
        dtype::law_names_tell_kind_and_width(datatype, canonical, width);
        assert(dtype::named_by_kind(datatype, width, canonical));
    }
    if exists|datatype: Seq<char>, width: usize|
        #[trigger] dtype::named_by_kind(datatype, width, canonical) && (width == 1 || width == 2
            || width == 4 || width == 8) {
        let (datatype, width) = choose|datatype: Seq<char>, width: usize|
            #[trigger] dtype::named_by_kind(datatype, width, canonical) && (width == 1 || width == 2
                || width == 4 || width == 8);
        dtype::law_names_tell_kind_and_width(datatype, canonical, width);
        dtype::law_names_invert(datatype, canonical, width);
    }
}

/// An output is served, with its own name, the shape and the bytes that the engine
/// gave, and the canonical name of the type that it gave, exactly if the engine gave
/// a tensor of a type that it takes.
pub proof fn law_output_is_what_was_given(
    engine: Engine,
    name: Seq<char>,
    given: Result<EngineOutput, Status>,
)
    ensures
        match spec_named_output(engine, name, given) {
            Ok(t) => given matches Ok(output) && output.element matches Some(element) && {
                &&& !(element is Other)
                &&& t.name == name
                &&& t.shape == output.shape@
                &&& t.data == output.data@
                &&& Some(t.dtype) == element.spec_canonical()
                &&& engine.takes(t.dtype)
            },
            Err(status) => {
                ||| given matches Err(e) && e@ == status
                ||| given matches Ok(output) && status.0 == Code::Internal
                    && match output.element {
                    None => true,
                    Some(element) => element is Other || !engine.takes(element.spec_canonical()->0),
                }
            },
        },
{
}

/// An engine takes an input exactly if it takes its type and the bytes are a whole
/// number of its elements, as many as are counted. Other inputs are invalid.
pub proof fn law_taken_inputs(engine: Engine, t: TensorView)
    ensures
        match spec_engine_input(engine, t) {
            Ok(elements) => {
                &&& engine.takes(t.dtype)
                &&& elements >= 0
                &&& t.data.len() == elements * width_of(t.dtype)
            },
            Err(status) => {
                &&& status.0 == Code::InvalidArgument
                &&& engine.takes(t.dtype) ==> forall|elements: int|
                    t.data.len() != #[trigger] (elements * width_of(t.dtype))
            },
        },
{
    if engine.takes(t.dtype) {
        let (datatype, width) = dtype::spec_canonical_to_kserve(t.dtype)->0;
        dtype::law_names_invert(datatype, t.dtype, width);
        dtype::law_widths(datatype);
        let n = t.data.len() as int;
        let w = width_of(t.dtype) as int;
        if n % w == 0 {
            assert(n == (n / w) * w) by (nonlinear_arith)
                requires
                    w > 0,
                    n % w == 0,
            ;
        } else {
            assert forall|elements: int| n != #[trigger] (elements * w) by {
                if n == elements * w {
                    assert(n % w == 0) by (nonlinear_arith)
                        requires
                            w > 0,
                            n == elements * w,
                    ;
                }
            }
        }
    }
}

/// A model with inputs of its own is told from one without: only the contract of a
/// model that declares an input is accepted, and it is the one that the file declares.
pub proof fn law_fed_contract(kind: Seq<char>, model: Seq<char>, file: TextFile)
    ensures
        match fed_contract(kind, model, file) {
            Ok(contract) => file.declares() == Ok::<ContractView, StatusView>(contract)
                && contract.inputs.len() > 0,
            Err(status) => match file.declares() {
                Err(fault) => status == fault,
                Ok(contract) => status.0 == Code::FailedPrecondition && contract.inputs.len() == 0,
            },
        },
{
}

} // verus!
