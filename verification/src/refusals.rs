//! What a refusal tells: the names and the numbers that it is about, in a fixed order,
//! and of the first thing that is wrong.

use vstd::prelude::*;

use crate::config;
use crate::config::ModelConfig;
use crate::contract;
use crate::contract::ContractView;
use crate::engine;
use crate::engine::Engine;
use crate::folder::Folder;
use crate::manager;
use crate::names;
use crate::number;
use crate::registry;
use crate::registry::BackendRegistration;
use crate::runtime;
use crate::service;
use crate::status::{Code, StatusView};
use crate::tensor;
use crate::tensor::TensorView;
use crate::text;
use crate::textproto;
use crate::textproto::{DimFaultView, FlatView, TextFile};
use crate::triton;
use crate::triton::RequestView;

verus! {

/// Whether a message holds the given parts, one after the other, with any words around
/// them.
pub open spec fn tells(message: Seq<char>, parts: Seq<Seq<char>>) -> bool
    decreases parts.len(),
{
    parts.len() == 0 || exists|words: Seq<char>, rest: Seq<char>|
        message == #[trigger] (words + parts[0] + rest) && tells(rest, parts.skip(1))
}

/// The decimal form of a number, as refusals show it.
pub open spec fn shown(n: int) -> Seq<char> {
    number::decimal(n)
}

proof fn lemma_tells(message: Seq<char>, words: Seq<char>, rest: Seq<char>, parts: Seq<Seq<char>>)
    requires
        parts.len() > 0,
        message == words + parts[0] + rest,
        tells(rest, parts.skip(1)),
    ensures
        tells(message, parts),
{
}

proof fn lemma_tells_one(message: Seq<char>, a: Seq<char>, x: Seq<char>, b: Seq<char>)
    requires
        message == a + x + b,
    ensures
        tells(message, seq![x]),
{
    assert(seq![x].skip(1).len() == 0);
    lemma_tells(message, a, b, seq![x]);
}

proof fn lemma_tells_two(
    message: Seq<char>,
    a: Seq<char>,
    x: Seq<char>,
    b: Seq<char>,
    y: Seq<char>,
    c: Seq<char>,
)
    requires
        message == a + x + b + y + c,
    ensures
        tells(message, seq![x, y]),
{
    let rest = b + y + c;
    lemma_tells_one(rest, b, y, c);
    assert(message =~= a + x + rest);
    assert(seq![x, y].skip(1) =~= seq![y]);
    lemma_tells(message, a, rest, seq![x, y]);
}

proof fn lemma_tells_three(
    message: Seq<char>,
    a: Seq<char>,
    x: Seq<char>,
    b: Seq<char>,
    y: Seq<char>,
    c: Seq<char>,
    z: Seq<char>,
    d: Seq<char>,
)
    requires
        message == a + x + b + y + c + z + d,
    ensures
        tells(message, seq![x, y, z]),
{
    let rest = b + y + c + z + d;
    lemma_tells_two(rest, b, y, c, z, d);
    assert(message =~= a + x + rest);
    assert(seq![x, y, z].skip(1) =~= seq![y, z]);
    lemma_tells(message, a, rest, seq![x, y, z]);
}

proof fn lemma_tells_four(
    message: Seq<char>,
    a: Seq<char>,
    x: Seq<char>,
    b: Seq<char>,
    y: Seq<char>,
    c: Seq<char>,
    z: Seq<char>,
    d: Seq<char>,
    w: Seq<char>,
    e: Seq<char>,
)
    requires
        message == a + x + b + y + c + z + d + w + e,
    ensures
        tells(message, seq![x, y, z, w]),
{
    let rest = b + y + c + z + d + w + e;
    lemma_tells_three(rest, b, y, c, z, d, w, e);
    assert(message =~= a + x + rest);
    assert(seq![x, y, z, w].skip(1) =~= seq![y, z, w]);
    lemma_tells(message, a, rest, seq![x, y, z, w]);
}

/// Whether a refusal has a code and tells the given parts.
pub open spec fn refused_for(
    outcome: Result<(), StatusView>,
    code: Code,
    parts: Seq<Seq<char>>,
) -> bool {
    outcome matches Err(status) && status.0 == code && tells(status.1, parts)
}

/// A batch that is too large is refused with its size, the maximum and the model.
pub proof fn law_batch_refused(
    dims: Seq<i64>,
    max_batch_size: i64,
    shape: Seq<i64>,
    model: Seq<char>,
)
    requires
        forall|i: int| 0 <= i < shape.len() ==> #[trigger] shape[i] > 0,
        shape.len() == dims.len() + 1,
        0 < max_batch_size < shape[0],
    ensures
        refused_for(
            contract::spec_request_shape(dims, max_batch_size, shape, model),
            Code::InvalidArgument,
            seq![shown(shape[0] as int), shown(max_batch_size as int), model],
        ),
{
    let message = contract::batch_too_large(shape[0], max_batch_size, model).1;
    lemma_tells_three(
        message,
        "batch size "@,
        shown(shape[0] as int),
        " exceeds max_batch_size "@,
        shown(max_batch_size as int),
        " for model '"@,
        model,
        "'"@,
    );
}

/// Whether the first dimension that does not fit is the given one: the declared ones
/// before it are open or the actual ones.
pub open spec fn first_wrong(dims: Seq<i64>, actual: Seq<i64>, offset: int, i: int) -> bool {
    &&& 0 <= i < dims.len()
    &&& dims[i] != -1 && dims[i] != actual[i + offset]
    &&& forall|j: int| 0 <= j < i ==> #[trigger] dims[j] == -1 || dims[j] == actual[j + offset]
}

proof fn lemma_first_wrong(dims: Seq<i64>, actual: Seq<i64>, offset: int, i: int)
    requires
        first_wrong(dims, actual, offset, i),
    ensures
        contract::first_misfit(dims, actual, offset, 0) == i,
{
    lemma_first_wrong_from(dims, actual, offset, 0, i);
}

proof fn lemma_first_wrong_from(
    dims: Seq<i64>,
    actual: Seq<i64>,
    offset: int,
    from: int,
    i: int,
)
    requires
        0 <= from <= i,
        first_wrong(dims, actual, offset, i),
    ensures
        contract::first_misfit(dims, actual, offset, from) == i,
    decreases i - from,
{
    if from < i {
        assert(dims[from] == -1 || dims[from] == actual[from + offset]);
        lemma_first_wrong_from(dims, actual, offset, from + 1, i);
    }
}

/// A dimension that is not the declared one is refused with the model, its place, the
/// declared one and its own size: the first such dimension.
pub proof fn law_dimension_refused(
    dims: Seq<i64>,
    max_batch_size: i64,
    shape: Seq<i64>,
    model: Seq<char>,
    i: int,
)
    requires
        forall|k: int| 0 <= k < shape.len() ==> #[trigger] shape[k] > 0,
        dims.len() > 0,
        ({
            let batch = max_batch_size > 0 && shape.len() == dims.len() + 1;
            &&& batch || shape.len() == dims.len()
            &&& batch ==> shape[0] <= max_batch_size
            &&& first_wrong(
                dims,
                shape,
                if batch {
                    1
                } else {
                    0
                },
                i,
            )
        }),
    ensures
        ({
            let at = if max_batch_size > 0 && shape.len() == dims.len() + 1 {
                i + 1
            } else {
                i
            };
            refused_for(
                contract::spec_request_shape(dims, max_batch_size, shape, model),
                Code::InvalidArgument,
                seq![model, shown(at), shown(dims[i] as int), shown(shape[at] as int)],
            )
        }),
{
    let offset: int = if max_batch_size > 0 && shape.len() == dims.len() + 1 {
        1
    } else {
        0
    };
    lemma_first_wrong(dims, shape, offset, i);
    let message = contract::input_dim_mismatch(i + offset, dims[i], shape[i + offset], model).1;
    assert(message =~= "input tensor shape mismatch for model '"@ + model + "' at dimension "@ + shown(
        i + offset,
    ) + ": expected "@ + shown(dims[i] as int) + ", got "@ + shown(shape[i + offset] as int)
        + Seq::<char>::empty());
    lemma_tells_four(
        message,
        "input tensor shape mismatch for model '"@,
        model,
        "' at dimension "@,
        shown(i + offset),
        ": expected "@,
        shown(dims[i] as int),
        ", got "@,
        shown(shape[i + offset] as int),
        Seq::empty(),
    );
}

/// A shape with another number of dimensions is refused with the model, the number that
/// it should have, and the number that it has.
pub proof fn law_rank_refused(
    dims: Seq<i64>,
    max_batch_size: i64,
    shape: Seq<i64>,
    model: Seq<char>,
)
    requires
        shape.len() > 0,
        forall|k: int| 0 <= k < shape.len() ==> #[trigger] shape[k] > 0,
        shape.len() != dims.len(),
        max_batch_size > 0 ==> shape.len() != dims.len() + 1,
    ensures
        refused_for(
            contract::spec_request_shape(dims, max_batch_size, shape, model),
            Code::InvalidArgument,
            seq![
                model,
                shown(
                    if max_batch_size > 0 {
                        dims.len() as int + 1
                    } else {
                        dims.len() as int
                    },
                ),
                shown(shape.len() as int),
            ],
        ),
{
    let batched = max_batch_size > 0;
    let n = dims.len() as int;
    let message = contract::input_rank_mismatch(dims.len(), batched, shape.len(), model).1;
    let open = "input tensor rank mismatch for model '"@;
    let got = shown(shape.len() as int);
    if batched {
        let between = " (or "@ + shown(n) + " without the batch dimension)"@ + ", got "@;
        assert(message =~= open + model + ("': "@ + "expected "@) + shown(n + 1) + between + got
            + Seq::<char>::empty());
        lemma_tells_three(
            message,
            open,
            model,
            "': "@ + "expected "@,
            shown(n + 1),
            between,
            got,
            Seq::empty(),
        );
    } else {
        assert(message =~= open + model + ("': "@ + "expected "@) + shown(n) + ", got "@ + got
            + Seq::<char>::empty());
        lemma_tells_three(
            message,
            open,
            model,
            "': "@ + "expected "@,
            shown(n),
            ", got "@,
            got,
            Seq::empty(),
        );
    }
}

/// An output for another batch than the request's is refused with the model, its batch
/// and the request's; and one with a dimension that is not the declared one with the
/// model, the place, the declared one and its own size: the first such dimension.
pub proof fn law_output_refused(
    dims: Seq<i64>,
    max_batch_size: i64,
    actual: Seq<i64>,
    expected_batch: Option<i64>,
    model: Seq<char>,
    i: int,
)
    requires
        dims.len() > 0,
        actual.len() == dims.len() || max_batch_size > 0 && actual.len() == dims.len() + 1,
        first_wrong(
            dims,
            actual,
            if actual.len() == dims.len() {
                0
            } else {
                1
            },
            i,
        ),
    ensures
        ({
            let batch = actual.len() == dims.len() + 1;
            let at = if batch {
                i + 1
            } else {
                i
            };
            let verdict = contract::spec_output_shape(
                dims,
                max_batch_size,
                actual,
                expected_batch,
                model,
            );
            match expected_batch {
                Some(expected) if batch && actual[0] != expected => refused_for(
                    verdict,
                    Code::Internal,
                    seq![model, shown(actual[0] as int), shown(expected as int)],
                ),
                _ => refused_for(
                    verdict,
                    Code::Internal,
                    seq![model, shown(at), shown(dims[i] as int), shown(actual[at] as int)],
                ),
            }
        }),
{
    let offset: int = if actual.len() == dims.len() {
        0
    } else {
        1
    };
    lemma_first_wrong(dims, actual, offset, i);
    let end = Seq::<char>::empty();
    if let Some(expected) = expected_batch {
        let message = contract::output_batch_mismatch(actual[0], expected, model).1;
        assert(message =~= "model '"@ + model + "' output batch size "@ + shown(actual[0] as int)
            + " does not match input batch size "@ + shown(expected as int) + end);
        lemma_tells_three(
            message,
            "model '"@,
            model,
            "' output batch size "@,
            shown(actual[0] as int),
            " does not match input batch size "@,
            shown(expected as int),
            end,
        );
    }
    let message = contract::output_dim_mismatch(i + offset, dims[i], actual[i + offset], model).1;
    assert(message =~= "model '"@ + model + "' output shape mismatch at dimension "@ + shown(
        i + offset,
    ) + ": declared "@ + shown(dims[i] as int) + ", got "@ + shown(actual[i + offset] as int)
        + end);
    lemma_tells_four(
        message,
        "model '"@,
        model,
        "' output shape mismatch at dimension "@,
        shown(i + offset),
        ": declared "@,
        shown(dims[i] as int),
        ", got "@,
        shown(actual[i + offset] as int),
        end,
    );
}

/// Whether a name of a list stands in it before.
pub open spec fn said_before(names: Seq<Seq<char>>, i: int) -> bool {
    exists|j: int| 0 <= j < i && #[trigger] names[j] == names[i]
}

proof fn lemma_first_repeated(names: Seq<Seq<char>>, from: int, i: int)
    requires
        0 <= from <= i < names.len(),
        said_before(names, i),
        forall|k: int| from <= k < i ==> !said_before(names, k),
    ensures
        names::first_repeated(names, from) == i,
    decreases i - from,
{
    names::lemma_position(names, names[from]);
    let p = names::position(names, names[from]) as int;
    if from == i {
        let j = choose|j: int| 0 <= j < i && #[trigger] names[j] == names[i];
        assert(p <= j);
    } else {
        if p < from {
            assert(names[p] == names[from]);
            assert(said_before(names, from));
        }
        lemma_first_repeated(names, from + 1, i);
    }
}

proof fn lemma_none_repeated(names: Seq<Seq<char>>, from: int)
    requires
        0 <= from <= names.len(),
        forall|k: int| 0 <= k < names.len() ==> !said_before(names, k),
    ensures
        names::first_repeated(names, from) >= names.len(),
    decreases names.len() - from,
{
    if from < names.len() {
        names::lemma_position(names, names[from]);
        let p = names::position(names, names[from]) as int;
        if p < from {
            assert(names[p] == names[from]);
            assert(said_before(names, from));
        }
        lemma_none_repeated(names, from + 1);
    }
}

proof fn lemma_first_unknown(names: Seq<Seq<char>>, known: Seq<Seq<char>>, from: int, i: int)
    requires
        0 <= from <= i < names.len(),
        !known.contains(names[i]),
        forall|k: int| from <= k < i ==> known.contains(#[trigger] names[k]),
    ensures
        names::first_unknown(names, known, from) == i,
    decreases i - from,
{
    names::lemma_position(known, names[from]);
    let p = names::position(known, names[from]) as int;
    if from == i {
        if p < known.len() {
            assert(known[p] == names[i]);
            assert(known.contains(names[i]));
        }
    } else {
        assert(known.contains(names[from]));
        let q = choose|q: int| 0 <= q < known.len() && known[q] == names[from];
        assert(known[q] == names[from]);
        lemma_first_unknown(names, known, from + 1, i);
    }
}

/// Whether a refusal of a request has a code and tells the given parts.
pub open spec fn inputs_refused_for(
    contract: ContractView,
    request: RequestView,
    model: Seq<char>,
    parts: Seq<Seq<char>>,
) -> bool {
    triton::spec_build_inputs(contract, request, model) matches Err(status) && status.0
        == Code::InvalidArgument && tells(status.1, parts)
}

/// The names of the inputs that a request brings.
pub open spec fn brought(request: RequestView) -> Seq<Seq<char>> {
    Seq::new(request.inputs.len(), |i: int| request.inputs[i].name)
}

/// The names of the inputs that a contract declares.
pub open spec fn wanted(contract: ContractView) -> Seq<Seq<char>> {
    Seq::new(contract.inputs.len(), |i: int| contract.inputs[i].name)
}

/// Whether a request's raw buffers are as many as its inputs, or none.
pub open spec fn paired(request: RequestView) -> bool {
    request.raw_input_contents.len() == 0 || request.raw_input_contents.len()
        == request.inputs.len()
}

/// A request that brings an input twice is refused with that input's name and the
/// model's: the first that it has brought before.
pub proof fn law_repeated_input_refused(
    contract: ContractView,
    request: RequestView,
    model: Seq<char>,
    i: int,
)
    requires
        contract.inputs.len() > 0,
        paired(request),
        0 <= i < request.inputs.len(),
        said_before(brought(request), i),
        forall|k: int| 0 <= k < i ==> !said_before(brought(request), k),
    ensures
        inputs_refused_for(contract, request, model, seq![request.inputs[i].name, model]),
{
    let names = triton::input_names(request.inputs);
    assert(names =~= brought(request));
    lemma_first_repeated(names, 0, i);
    let name = request.inputs[i].name;
    lemma_tells_two(
        triton::repeated_input(name, model).1,
        "duplicate input tensor name '"@,
        name,
        "' in request for model '"@,
        model,
        "'"@,
    );
}

/// A request that brings an input which the model does not have is refused with the
/// model's name and that input's: the first such input.
pub proof fn law_unknown_input_refused(
    contract: ContractView,
    request: RequestView,
    model: Seq<char>,
    i: int,
)
    requires
        contract.inputs.len() > 0,
        paired(request),
        forall|k: int| 0 <= k < request.inputs.len() ==> !said_before(brought(request), k),
        0 <= i < request.inputs.len(),
        !wanted(contract).contains(brought(request)[i]),
        forall|k: int| 0 <= k < i ==> wanted(contract).contains(#[trigger] brought(request)[k]),
    ensures
        inputs_refused_for(contract, request, model, seq![model, request.inputs[i].name]),
{
    let names = triton::input_names(request.inputs);
    assert(names =~= brought(request));
    assert(triton::spec_names(contract.inputs) =~= wanted(contract));
    lemma_none_repeated(names, 0);
    lemma_first_unknown(names, wanted(contract), 0, i);
    let name = request.inputs[i].name;
    lemma_tells_two(
        triton::unknown_input(name, model).1,
        "model '"@,
        model,
        "' has no input '"@,
        name,
        "'"@,
    );
}

/// A request that lacks a declared input is refused with that input's name and the
/// model's, and one that brings it in another datatype with the input's name, the
/// model's, the declared datatype and its own: where those declared before are bound.
pub proof fn law_unfit_input_refused(
    contract: ContractView,
    request: RequestView,
    model: Seq<char>,
    k: int,
)
    requires
        0 <= k < contract.inputs.len(),
        triton::bound_inputs(contract, request, model, k as nat) is Ok,
    ensures
        ({
            let spec = contract.inputs[k];
            let bound = triton::bound_inputs(contract, request, model, (k + 1) as nat);
            &&& !brought(request).contains(spec.name) ==> (bound matches Err(status) && status.0
                == Code::InvalidArgument && tells(status.1, seq![spec.name, model]))
            &&& forall|from: int|
                0 <= from < request.inputs.len() && (#[trigger] request.inputs[from]).name
                    == spec.name && request.inputs[from].datatype != spec.dtype && (forall|j: int|
                    0 <= j < from ==> (#[trigger] request.inputs[j]).name != spec.name) ==> (
                bound matches Err(status) && status.0 == Code::InvalidArgument && tells(
                    status.1,
                    seq![spec.name, model, spec.dtype, request.inputs[from].datatype],
                ))
        }),
{
    let spec = contract.inputs[k];
    let names = triton::input_names(request.inputs);
    assert(names =~= brought(request));
    names::lemma_position(names, spec.name);
    let p = names::position(names, spec.name) as int;
    if !brought(request).contains(spec.name) {
        if p < names.len() {
            assert(names[p] == spec.name);
        }
        lemma_tells_two(
            triton::missing_input(spec.name, model).1,
            "missing input tensor '"@,
            spec.name,
            "' for model '"@,
            model,
            "'"@,
        );
    }
    assert forall|from: int|
        0 <= from < request.inputs.len() && (#[trigger] request.inputs[from]).name == spec.name
            && request.inputs[from].datatype != spec.dtype && (forall|j: int|
            0 <= j < from ==> (#[trigger] request.inputs[j]).name != spec.name) implies (
    triton::bound_inputs(contract, request, model, (k + 1) as nat) matches Err(status) && status.0
        == Code::InvalidArgument && tells(
        status.1,
        seq![spec.name, model, spec.dtype, request.inputs[from].datatype],
    )) by {
        assert(names[from] == spec.name);
        assert(p <= from);
        assert(names[p] == spec.name);
        assert(request.inputs[p].name == spec.name);
        assert(p == from);
        let got = request.inputs[from].datatype;
        lemma_tells_four(
            triton::wrong_datatype(spec.name, spec.dtype, got, model).1,
            "datatype mismatch for input '"@,
            spec.name,
            "' of model '"@,
            model,
            "': expected "@,
            spec.dtype,
            ", got '"@,
            got,
            "'"@,
        );
    }
}

/// A model that gives another number of outputs than it declares is refused with its
/// name, the number that it gave and the number that it declares; and a request for an
/// output that it does not have with its name and the output's: the first such output.
pub proof fn law_outputs_refused(
    contract: ContractView,
    request: RequestView,
    model: Seq<char>,
    outputs: Seq<TensorView>,
    expected_batch: Option<i64>,
    i: int,
)
    requires
        contract.strict_output_dtype,
    ensures
        ({
            let names = Seq::new(contract.outputs.len(), |k: int| contract.outputs[k].name);
            let answer = triton::spec_response(contract, request, model, outputs, expected_batch);
            &&& outputs.len() != contract.outputs.len() ==> (answer matches Err(status) && status.0
                == Code::Internal && tells(
                status.1,
                seq![model, shown(outputs.len() as int), shown(contract.outputs.len() as int)],
            ))
            &&& outputs.len() == contract.outputs.len() && 0 <= i < request.outputs.len()
                && !names.contains(request.outputs[i]) && (forall|k: int|
                0 <= k < i ==> names.contains(#[trigger] request.outputs[k])) ==> (answer matches Err(
                status,
            ) && status.0 == Code::InvalidArgument && tells(
                status.1,
                seq![model, request.outputs[i]],
            ))
        }),
{
    let names = Seq::new(contract.outputs.len(), |k: int| contract.outputs[k].name);
    assert(triton::spec_names(contract.outputs) =~= names);
    let end = Seq::<char>::empty();
    if outputs.len() != contract.outputs.len() {
        let message = triton::wrong_output_count(outputs.len(), contract.outputs.len(), model).1;
        assert(message =~= "model '"@ + model + "' returned "@ + shown(outputs.len() as int)
            + " output tensors but its contract declares "@ + shown(contract.outputs.len() as int)
            + end);
        lemma_tells_three(
            message,
            "model '"@,
            model,
            "' returned "@,
            shown(outputs.len() as int),
            " output tensors but its contract declares "@,
            shown(contract.outputs.len() as int),
            end,
        );
    } else if 0 <= i < request.outputs.len() && !names.contains(request.outputs[i]) && (forall|k: int|
        0 <= k < i ==> names.contains(#[trigger] request.outputs[k])) {
        lemma_first_unknown(request.outputs, names, 0, i);
        lemma_tells_two(
            triton::unknown_output(request.outputs[i], model).1,
            "model '"@,
            model,
            "' has no output '"@,
            request.outputs[i],
            "'"@,
        );
    }
}

/// A model that is not there is refused with its name, and a version with the model's
/// name and its own.
pub proof fn law_model_refused(name: Seq<char>, version: Seq<char>)
    ensures
        tells(manager::not_configured(name).1, seq![name]),
        tells(service::version_not_served(name, version).1, seq![name, version]),
{
    lemma_tells_one(
        manager::not_configured(name).1,
        "model '"@,
        name,
        "' is not configured in nereid.yaml"@,
    );
    lemma_tells_two(
        service::version_not_served(name, version).1,
        "model '"@,
        name,
        "' version '"@,
        version,
        "' is not available; nereid serves version 1"@,
    );
}

/// A configured model is refused for a queue without places, or for a name that another
/// before it has, with its name.
pub proof fn law_configured_model_refused(models: Seq<ModelConfig>, i: int)
    requires
        0 <= i < models.len(),
        !config::blank(models[i].name@),
        models[i].queue_capacity == 0 || said_before(config::model_names(models), i),
    ensures
        config::model_fault(models, i) matches Some(message) && tells(
            message,
            seq![models[i].name@],
        ),
{
    let name = models[i].name@;
    let all = config::model_names(models);
    names::lemma_position(all, name);
    if said_before(all, i) {
        let j = choose|j: int| 0 <= j < i && #[trigger] all[j] == all[i];
        assert(all[j] == name);
    }
    lemma_tells_one(
        "queue_capacity must be > 0 for model '"@ + name + "'"@,
        "queue_capacity must be > 0 for model '"@,
        name,
        "'"@,
    );
    lemma_tells_one(
        "duplicate model name in config: '"@ + name + "'"@,
        "duplicate model name in config: '"@,
        name,
        "'"@,
    );
}

/// A model that declares a backend which is not there, or whose folder is not that of its
/// backend, is refused with its name and the declared word; and one that declares none
/// with its name.
pub proof fn law_backend_refused(
    all: Seq<BackendRegistration>,
    folder: Folder,
    model: Seq<char>,
    word: Seq<char>,
)
    ensures
        registry::spec_backend(all, folder, model, Some(word)) matches Err(status) ==> tells(
            status.1,
            seq![model, word],
        ),
        registry::spec_backend(all, folder, model, None) matches Err(status) ==> tells(
            status.1,
            seq![model],
        ),
{
    let known = "\"; known backends: "@ + text::join(registry::all_names(all), ", "@);
    let unknown = registry::unknown_backend(all, model, word).1;
    assert(unknown =~= "model '"@ + model + "' declares unknown backend \""@ + word + known);
    lemma_tells_two(
        unknown,
        "model '"@,
        model,
        "' declares unknown backend \""@,
        word,
        known,
    );
    let i = registry::first_called(all, word) as int;
    let wrong = registry::wrong_folder(model, word, all[i].describes@).1;
    let shape = "\" but its folder is not "@ + all[i].describes@;
    assert(wrong =~= "model '"@ + model + "' declares backend \""@ + word + shape);
    lemma_tells_two(wrong, "model '"@, model, "' declares backend \""@, word, shape);
    let places = registry::candidates(all, folder, all.len());
    let none = registry::no_backend(all, model).1;
    let shapes = "' folder must match exactly one backend, one of: "@ + text::join(
        registry::shapes(all, all.len()),
        "; "@,
    );
    assert(none =~= "model '"@ + model + shapes);
    lemma_tells_one(none, "model '"@, model, shapes);
    let many = registry::many_backends(all, places, model).1;
    let rest = "' folder matches multiple backends ("@ + text::join(
        registry::names_at(all, places),
        ", "@,
    ) + "); set `backend` in nereid.yaml to disambiguate"@;
    assert(many =~= "model '"@ + model + rest);
    lemma_tells_one(many, "model '"@, model, rest);
}

/// Bytes that are not those of the request's shape are refused with the model, the number
/// of values that the shape has, and the number that there are.
pub proof fn law_float_bytes_refused(length: nat, shape: Seq<i64>, model: Seq<char>)
    requires
        length > 0,
        length % 4 == 0,
        forall|i: int| 0 <= i < shape.len() ==> #[trigger] shape[i] > 0,
        tensor::product(shape) <= i64::MAX,
        length != 4 * tensor::product(shape),
    ensures
        runtime::float_fault(length, shape, model) matches Some(status) && status.0
            == Code::InvalidArgument && tells(
            status.1,
            seq![model, shown(tensor::product(shape)), shown(length as int / 4)],
        ),
{
    tensor::law_element_count(shape);
    let expected = tensor::product(shape);
    let end = Seq::<char>::empty();
    let message = "input tensor size mismatch for model '"@ + model + "': expected "@ + shown(
        expected,
    ) + " values from request shape, got "@ + shown(length as int / 4);
    assert(message =~= message + end);
    lemma_tells_three(
        message,
        "input tensor size mismatch for model '"@,
        model,
        "': expected "@,
        shown(expected),
        " values from request shape, got "@,
        shown(length as int / 4),
        end,
    );
}

/// A failure of an engine tells which engine it was, what it was doing and why it
/// failed; that of a run that was lost, and that of a stream that could not be read,
/// tell why. They are failures of the server.
pub proof fn law_failures_tell(engine: Engine, action: Seq<char>, cause: Seq<char>, first: bool)
    ensures
        ({
            let failure = engine::engine_failure(engine, action, cause);
            let name = match engine {
                Engine::Onnx => "ONNX"@,
                Engine::Tensorflow => "TensorFlow"@,
            };
            &&& failure.0 == Code::Internal
            &&& tells(failure.1, seq![name, action, cause])
        }),
        manager::join_failure(cause).0 == Code::Internal,
        tells(manager::join_failure(cause).1, seq![cause]),
        service::unread(first, cause).0 == Code::Internal,
        tells(service::unread(first, cause).1, seq![cause]),
{
    let end = Seq::<char>::empty();
    let name = engine.spec_name();
    let failure = engine::engine_failure(engine, action, cause).1;
    assert(failure =~= end + name + " backend: failed to "@ + action + ": "@ + cause + end);
    lemma_tells_three(failure, end, name, " backend: failed to "@, action, ": "@, cause, end);
    let lost = manager::join_failure(cause).1;
    assert(lost =~= "inference task failed to join: "@ + cause + end);
    lemma_tells_one(lost, "inference task failed to join: "@, cause, end);
    let words = if first {
        "failed to read first checkpoint stream message: "@
    } else {
        "failed reading checkpoint stream message: "@
    };
    let message = service::unread(first, cause).1;
    assert(message =~= words + cause + end);
    lemma_tells_one(message, words, cause, end);
}

/// A model whose backend is not built in is refused with its name, its kind, and the
/// feature to build the server with.
pub proof fn law_missing_feature_told(model: Seq<char>, kind: Seq<char>, feature: Seq<char>)
    ensures
        ({
            let status = registry::spec_missing_feature(model, kind, feature);
            status.0 == Code::FailedPrecondition && tells(status.1, seq![model, kind, feature])
        }),
{
    let message = registry::spec_missing_feature(model, kind, feature).1;
    let rest = "` (or `./build.sh --"@ + feature + "`)."@;
    assert(message =~= "model '"@ + model + "' is a "@ + kind
        + " model, but this server was built without that backend. Rebuild with `--features "@
        + feature + rest);
    lemma_tells_three(
        message,
        "model '"@,
        model,
        "' is a "@,
        kind,
        " model, but this server was built without that backend. Rebuild with `--features "@,
        feature,
        rest,
    );
}

proof fn lemma_shape_fault_tells(
    field: Seq<char>,
    value: Seq<char>,
    raw: Seq<char>,
    path: Seq<char>,
)
    ensures
        textproto::flat_shape(field, value, raw, path) matches Err(e) ==> tells(e, seq![path]),
{
    if let Err(e) = textproto::flat_shape(field, value, raw, path) {
        let unbracketed = textproto::shape_not_bracketed(field, raw, path);
        if e == unbracketed {
            let rest = ": '"@ + raw + "'. expected bracketed dimensions such as `"@ + field
                + ": [1, 16]`"@;
            let words = "invalid "@ + field + " in "@;
            assert(e =~= words + path + rest);
            lemma_tells_one(e, words, path, rest);
        } else {
            let inner = textproto::bracketed(text::trim(value))->0;
            let parts = textproto::filled(text::split(text::trim(inner), ','));
            let fault = textproto::declared_dims(parts)->Err_0;
            assert(e == textproto::flat_dim_fault(fault, field, path));
            match fault {
                DimFaultView::Unreadable(part, cause) => {
                    let words = "failed parsing "@ + field + " dimension '"@ + part + "' in "@;
                    let rest = ": "@ + cause.spec_message();
                    assert(e =~= words + path + rest);
                    lemma_tells_one(e, words, path, rest);
                },
                DimFaultView::OutOfRange => {
                    let words = field + " dimensions in "@;
                    lemma_tells_one(e, words, path, " must be positive or -1"@);
                },
            }
        }
    }
}

proof fn lemma_line_fault_tells(
    before: FlatView,
    raw: Seq<char>,
    path: Seq<char>,
    typed: bool,
)
    ensures
        textproto::flat_line(before, raw, path, typed) matches Err(e) ==> tells(e, seq![path]),
{
    let line = textproto::content(raw);
    let colon = text::find(line, ':') as int;
    let value = line.skip(colon + 1);
    lemma_shape_fault_tells("input_shape"@, value, raw, path);
    lemma_shape_fault_tells("output_shape"@, value, raw, path);
    let no_colon = textproto::flat_no_colon(raw, path);
    let after = ": '"@ + raw + "'"@;
    assert(no_colon =~= "invalid model_inference line in "@ + path + after);
    lemma_tells_one(no_colon, "invalid model_inference line in "@, path, after);
    if let Err(e) = textproto::flat_batch(value, path) {
        let negative = "max_batch_size in "@ + path + " must be >= 0"@;
        lemma_tells_one(negative, "max_batch_size in "@, path, " must be >= 0"@);
        if let Err(fault) = number::parse_int(
            text::trim(value),
            i64::MIN as int,
            i64::MAX as int,
        ) {
            let rest = ": "@ + fault.spec_message();
            assert(e =~= "failed parsing max_batch_size in "@ + path + rest);
            lemma_tells_one(e, "failed parsing max_batch_size in "@, path, rest);
        }
    }
    if let Err(e) = textproto::flat_dtype(value, path) {
        let words = "unsupported data_type '"@ + text::unquote(text::trim(value)) + "' in "@;
        assert(e =~= words + path + Seq::<char>::empty());
        lemma_tells_one(e, words, path, Seq::empty());
    }
}

proof fn lemma_lines_fault_tells(all: Seq<Seq<char>>, path: Seq<char>, typed: bool)
    ensures
        textproto::flat_lines(all, path, typed) matches Err(e) ==> tells(e, seq![path]),
    decreases all.len(),
{
    if all.len() > 0 {
        lemma_lines_fault_tells(all.drop_last(), path, typed);
        if let Ok(before) = textproto::flat_lines(all.drop_last(), path, typed) {
            lemma_line_fault_tells(before, all.last(), path, typed);
        }
    }
}

proof fn lemma_block_fault_tells(e: Seq<char>, path: Seq<char>)
    ensures
        tells(e + " in "@ + path, seq![path]),
{
    let words = e + " in "@;
    assert(words + path =~= words + path + Seq::<char>::empty());
    lemma_tells_one(words + path, words, path, Seq::empty());
}

/// A declaration that is refused is refused with the path of its file.
pub proof fn law_declaration_refused(file: TextFile)
    ensures
        file.declares() matches Err(status) ==> tells(status.1, seq![file.path@]),
        runtime::declared_shapes(file) matches Err(status) ==> tells(status.1, seq![file.path@]),
{
    let path = file.path@;
    let missing = textproto::no_shapes(path);
    let end = " must declare input_shape and/or output_shape"@;
    assert(missing =~= Seq::<char>::empty() + path + end);
    lemma_tells_one(missing, Seq::empty(), path, end);
    match file.contents {
        Err(cause) => {
            let rest = ": "@ + cause@;
            assert(textproto::unreadable(path, cause@) =~= "failed to read "@ + path + rest);
            lemma_tells_one(textproto::unreadable(path, cause@), "failed to read "@, path, rest);
        },
        Ok(contents) => {
            let all = text::lines(contents@);
            lemma_lines_fault_tells(all, path, true);
            lemma_lines_fault_tells(all, path, false);
            if let Err(e) = textproto::block_lines(all) {
                lemma_block_fault_tells(e, path);
            }
            lemma_block_fault_tells("unclosed block"@, path);
            lemma_block_fault_tells(
                "multi-tensor model needs at least one input and one output"@,
                path,
            );
        },
    }
}

/// Another number of inputs than a model has is refused with the engine, the number that
/// the model has and the number that was given.
pub proof fn law_input_count_refused(engine: Engine, expected: nat, got: nat)
    requires
        got != expected,
    ensures
        refused_for(
            engine::spec_input_count(engine, expected, got),
            Code::InvalidArgument,
            seq![
                match engine {
                    Engine::Onnx => "ONNX"@,
                    Engine::Tensorflow => "TensorFlow"@,
                },
                shown(expected as int),
                shown(got as int),
            ],
        ),
{
    let end = Seq::<char>::empty();
    let name = engine.spec_name();
    let message = engine::spec_input_count(engine, expected, got)->Err_0.1;
    assert(message =~= end + name + " model expects "@ + shown(expected as int)
        + " input(s), got "@ + shown(got as int) + end);
    lemma_tells_three(
        message,
        end,
        name,
        " model expects "@,
        shown(expected as int),
        " input(s), got "@,
        shown(got as int),
        end,
    );
}

} // verus!
