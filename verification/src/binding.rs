//! What an inference request and its response mean, in terms of the request's own
//! fields, the contract's own fields and the model's own outputs.

use vstd::prelude::*;

use crate::contract;
use crate::contract::{ContractView, TensorSpecView};
use crate::dtype;
use crate::names;
use crate::status::{Code, StatusView};
use crate::tensor;
use crate::tensor::TensorView;
use crate::triton;
use crate::triton::{OutputView, RequestView, ResponseView};

verus! {

/// Whether bytes are the little-endian form of 32-bit words, word by word.
pub open spec fn little_endian(bytes: Seq<u8>, words: Seq<u32>) -> bool {
    &&& bytes.len() == 4 * words.len()
    &&& forall|k: int|
        0 <= k < words.len() ==> bytes[4 * k] + 256 * bytes[4 * k + 1] + 65536 * bytes[4 * k + 2]
            + 16777216 * bytes[4 * k + 3] == #[trigger] words[k]
}

/// Whether a shape with all its dimensions is one that the contract allows for a
/// tensor of the given dimensions: each is the declared one, or any where `-1` is
/// declared, behind a batch of one up to the maximum where the model has batches.
pub open spec fn allowed(shape: Seq<i64>, dims: Seq<i64>, max_batch_size: i64) -> bool {
    let lead: int = if max_batch_size > 0 {
        1
    } else {
        0
    };
    &&& shape.len() == dims.len() + lead
    &&& max_batch_size > 0 ==> 1 <= shape[0] <= max_batch_size
    &&& forall|i: int|
        0 <= i < dims.len() ==> #[trigger] dims[i] == -1 || dims[i] == shape[i + lead]
}

/// Whether a shape is another with a batch of one put before it where the model has
/// batches and the other has no dimension for them.
pub open spec fn batch_put_in(full: Seq<i64>, given: Seq<i64>, rank: nat, max_batch_size: i64) -> bool {
    if max_batch_size > 0 && given.len() == rank {
        &&& full.len() == given.len() + 1
        &&& full[0] == 1
        &&& forall|i: int| 0 <= i < given.len() ==> full[i + 1] == #[trigger] given[i]
    } else {
        full == given
    }
}

/// Whether a request carries an input with a name.
pub open spec fn carries(request: RequestView, name: Seq<char>) -> bool {
    exists|from: int| 0 <= from < request.inputs.len() && (#[trigger] request.inputs[from]).name == name
}

/// Whether a tensor is what the request's input at `from` brings for a declared
/// input.
pub open spec fn brings(
    request: RequestView,
    from: int,
    spec: TensorSpecView,
    max_batch_size: i64,
    t: TensorView,
) -> bool {
    let input = request.inputs[from];
    &&& input.name == spec.name
    &&& input.datatype == spec.dtype
    &&& t.name == spec.name
    &&& batch_put_in(t.shape, input.shape, spec.dims.len(), max_batch_size)
    &&& allowed(t.shape, spec.dims, max_batch_size)
    &&& forall|i: int| 0 <= i < t.shape.len() ==> #[trigger] t.shape[i] > 0
    &&& if request.raw_input_contents.len() > 0 {
        t.data == request.raw_input_contents[from]
    } else {
        input.contents matches Some(words) && little_endian(t.data, words) && spec.dtype == "FP32"@
    }
    &&& dtype::spec_fixed_width(spec.dtype) matches Some((width, canonical)) && t.dtype == canonical
        && (t.data.len() < u64::MAX ==> t.data.len() == tensor::product(t.shape) * width)
}

proof fn lemma_word(x: u32)
    ensures
        triton::word_bytes(x).len() == 4,
        triton::word_bytes(x)[0] + 256 * triton::word_bytes(x)[1] + 65536 * triton::word_bytes(x)[2]
            + 16777216 * triton::word_bytes(x)[3] == x,
{
    assert(x % 256 + 256 * (x / 256 % 256) + 65536 * (x / 65536 % 256) + 16777216 * (x / 16777216
        % 256) == x) by (bit_vector);
}

/// The typed contents of an input become the little-endian bytes of their words,
/// in their order.
pub proof fn law_words_are_little_endian(words: Seq<u32>)
    ensures
        little_endian(triton::words_bytes(words), words),
    decreases words.len(),
{
    let bytes = triton::words_bytes(words);
    if words.len() > 0 {
        let front = words.drop_last();
        law_words_are_little_endian(front);
        lemma_word(words.last());
        let before = triton::words_bytes(front);
        assert forall|k: int| 0 <= k < words.len() implies bytes[4 * k] + 256 * bytes[4 * k + 1]
            + 65536 * bytes[4 * k + 2] + 16777216 * bytes[4 * k + 3] == #[trigger] words[k] by {
            if k < front.len() {
                assert(front[k] == words[k]);
                assert(bytes[4 * k] == before[4 * k]);
                assert(bytes[4 * k + 1] == before[4 * k + 1]);
                assert(bytes[4 * k + 2] == before[4 * k + 2]);
                assert(bytes[4 * k + 3] == before[4 * k + 3]);
            } else {
                let last = triton::word_bytes(words.last());
                assert(bytes[4 * k] == last[0]);
                assert(bytes[4 * k + 1] == last[1]);
                assert(bytes[4 * k + 2] == last[2]);
                assert(bytes[4 * k + 3] == last[3]);
            }
        }
    }
}

/// Whether a contract declares an input with a name.
pub open spec fn declares(contract: ContractView, name: Seq<char>) -> bool {
    exists|i: int| 0 <= i < contract.inputs.len() && (#[trigger] contract.inputs[i]).name == name
}

/// An accepted request carries an input for each declared name, no input of another
/// name, and none twice.
pub proof fn law_accepted_names(contract: ContractView, request: RequestView, model: Seq<char>)
    requires
        triton::spec_build_inputs(contract, request, model) is Ok,
    ensures
        forall|i: int|
            0 <= i < contract.inputs.len() ==> carries(request, (#[trigger] contract.inputs[i]).name),
        forall|from: int|
            0 <= from < request.inputs.len() ==> declares(
                contract,
                (#[trigger] request.inputs[from]).name,
            ),
        forall|from: int, other: int|
            0 <= from < other < request.inputs.len() ==> (#[trigger] request.inputs[from]).name != (
            #[trigger] request.inputs[other]).name,
        request.raw_input_contents.len() == 0 || request.raw_input_contents.len()
            == request.inputs.len(),
{
    let all = triton::input_names(request.inputs);
    let declared = triton::spec_names(contract.inputs);
    if contract.inputs.len() > 0 {
        let (tensors, batch) = triton::spec_build_inputs(contract, request, model)->Ok_0;
        triton::law_inputs_bound_by_name(contract, request, model);
        lemma_distinct(all, 0);
        lemma_known(all, declared, 0);
        assert forall|i: int| 0 <= i < contract.inputs.len() implies carries(
            request,
            (#[trigger] contract.inputs[i]).name,
        ) by {
            let p = names::position(all, contract.inputs[i].name) as int;
            assert(tensors[i].name == contract.inputs[i].name);
            assert(request.inputs[p].name == contract.inputs[i].name);
        }
        assert forall|from: int| 0 <= from < request.inputs.len() implies declares(
            contract,
            (#[trigger] request.inputs[from]).name,
        ) by {
            let i = names::position(declared, all[from]) as int;
            names::lemma_position(declared, all[from]);
            assert(declared[i] == contract.inputs[i].name);
            assert(all[from] == request.inputs[from].name);
        }
        assert forall|from: int, other: int| 0 <= from < other < request.inputs.len() implies (
        #[trigger] request.inputs[from]).name != (#[trigger] request.inputs[other]).name by {
            assert(all[from] != all[other]);
        }
    }
}

/// An accepted request hands the model one tensor for each declared input, in the
/// declared order. Each is brought by the input of the request that carries its
/// declared name: by the raw buffer at the place of that input, or, in a request
/// without raw buffers, by the typed contents of that very input. The batch size of
/// the request is the leading dimension of every tensor.
pub proof fn law_each_input_brings_its_own(
    contract: ContractView,
    request: RequestView,
    model: Seq<char>,
    i: int,
    from: int,
)
    requires
        triton::spec_build_inputs(contract, request, model) is Ok,
        0 <= i < contract.inputs.len(),
        0 <= from < request.inputs.len(),
        request.inputs[from].name == contract.inputs[i].name,
    ensures
        triton::spec_build_inputs(contract, request, model)->Ok_0.0.len() == contract.inputs.len(),
        brings(
            request,
            from,
            contract.inputs[i],
            contract.max_batch_size,
            triton::spec_build_inputs(contract, request, model)->Ok_0.0[i],
        ),
        triton::spec_build_inputs(contract, request, model)->Ok_0.1 == if contract.max_batch_size
            > 0 {
            Some(triton::spec_build_inputs(contract, request, model)->Ok_0.0[i].shape[0])
        } else {
            None
        },
{
    let (tensors, batch) = triton::spec_build_inputs(contract, request, model)->Ok_0;
    let all = triton::input_names(request.inputs);
    triton::law_inputs_bound_by_name(contract, request, model);
    law_accepted_names(contract, request, model);
    let spec = contract.inputs[i];
    let p = names::position(all, spec.name) as int;
    names::lemma_position(all, spec.name);
    assert(tensors[i].name == spec.name);
    assert(all[from] == spec.name);
    assert(request.inputs[p].name == spec.name);
    assert(p == from);
    lemma_brings(contract, request, model, i, from);
}

/// A model without inputs is handed none, and takes no request that brings any.
pub proof fn law_models_without_inputs(contract: ContractView, request: RequestView, model: Seq<char>)
    requires
        contract.inputs.len() == 0,
    ensures
        match triton::spec_build_inputs(contract, request, model) {
            Ok((tensors, batch)) => {
                &&& request.inputs.len() == 0 && request.raw_input_contents.len() == 0
                &&& tensors.len() == 0 && batch is None
            },
            Err(status) => {
                &&& request.inputs.len() > 0 || request.raw_input_contents.len() > 0
                &&& status.0 == Code::InvalidArgument
            },
        },
{
}

/// Every request that is refused is refused as an invalid argument.
pub proof fn law_refused_requests(contract: ContractView, request: RequestView, model: Seq<char>)
    ensures
        triton::spec_build_inputs(contract, request, model) matches Err(status) ==> status.0
            == Code::InvalidArgument,
{
    lemma_refused(contract, request, model, contract.inputs.len());
}

proof fn lemma_refused(
    contract: ContractView,
    request: RequestView,
    model: Seq<char>,
    count: nat,
)
    ensures
        triton::bound_inputs(contract, request, model, count) matches Err(status) ==> status.0
            == Code::InvalidArgument,
    decreases count,
{
    if count > 0 {
        lemma_refused(contract, request, model, (count - 1) as nat);
        let spec = contract.inputs[count - 1];
        let index = names::position(triton::input_names(request.inputs), spec.name) as int;
        law_request_shapes(
            spec.dims,
            contract.max_batch_size,
            request.inputs[index].shape,
            model,
        );
    }
}

/// Whether a tensor is what an input of a request brings for each declared input,
/// by the places of those inputs in the request.
pub open spec fn all_brought(
    contract: ContractView,
    request: RequestView,
    from: Seq<int>,
    tensors: Seq<TensorView>,
) -> bool {
    &&& from.len() == contract.inputs.len()
    &&& tensors.len() == contract.inputs.len()
    &&& forall|i: int|
        0 <= i < contract.inputs.len() ==> {
            &&& 0 <= #[trigger] from[i] < request.inputs.len()
            &&& brings(
                request,
                from[i],
                contract.inputs[i],
                contract.max_batch_size,
                tensors[i],
            )
            &&& tensors[i].data.len() < u64::MAX
            &&& tensor::product(tensors[i].shape) <= i64::MAX
            &&& tensors[i].shape.len() > 0
            &&& request.inputs[from[i]].shape.len() > 0
            &&& contract.max_batch_size > 0 ==> tensors[i].shape[0] == tensors[0].shape[0]
        }
}

/// A request is accepted, and hands the model exactly these tensors, where its inputs
/// are the declared ones, each once, in whatever order, its raw buffers pair up with
/// them, each brings its tensor, and all have one batch size.
pub proof fn law_good_requests_accepted(
    contract: ContractView,
    request: RequestView,
    model: Seq<char>,
    from: Seq<int>,
    tensors: Seq<TensorView>,
)
    requires
        contract.inputs.len() > 0,
        all_brought(contract, request, from, tensors),
        request.raw_input_contents.len() == 0 || request.raw_input_contents.len()
            == request.inputs.len(),
        forall|k: int|
            0 <= k < request.inputs.len() ==> declares(contract, (#[trigger] request.inputs[k]).name),
        forall|k: int, other: int|
            0 <= k < other < request.inputs.len() ==> (#[trigger] request.inputs[k]).name != (
            #[trigger] request.inputs[other]).name,
    ensures
        triton::spec_build_inputs(contract, request, model) == Ok::<
            (Seq<TensorView>, Option<i64>),
            StatusView,
        >(
            (
                tensors,
                if contract.max_batch_size > 0 {
                    Some(tensors[0].shape[0])
                } else {
                    None
                },
            ),
        ),
{
    let all = triton::input_names(request.inputs);
    let declared = triton::spec_names(contract.inputs);
    lemma_distinct(all, 0);
    lemma_known(all, declared, 0);
    assert forall|k: int, other: int|
        #![trigger all[k], all[other]]
        0 <= other < all.len() && 0 <= k < other implies all[k] != all[other] by {
        assert(request.inputs[k].name != request.inputs[other].name);
    }
    assert forall|k: int| 0 <= k < all.len() implies declared.contains(#[trigger] all[k]) by {
        let name = request.inputs[k].name;
        assert(declares(contract, name));
        let i = choose|i: int|
            0 <= i < contract.inputs.len() && (#[trigger] contract.inputs[i]).name == name;
        assert(declared[i] == name);
    }
    lemma_all_bound(contract, request, model, from, tensors, contract.inputs.len());
    assert(tensors.take(tensors.len() as int) =~= tensors);
}

proof fn lemma_all_bound(
    contract: ContractView,
    request: RequestView,
    model: Seq<char>,
    from: Seq<int>,
    tensors: Seq<TensorView>,
    count: nat,
)
    requires
        all_brought(contract, request, from, tensors),
        count <= contract.inputs.len(),
        forall|k: int, other: int|
            0 <= k < other < request.inputs.len() ==> (#[trigger] request.inputs[k]).name != (
            #[trigger] request.inputs[other]).name,
    ensures
        triton::bound_inputs(contract, request, model, count) == Ok::<
            (Seq<TensorView>, Option<i64>),
            StatusView,
        >(
            (
                tensors.take(count as int),
                if count > 0 && contract.max_batch_size > 0 {
                    Some(tensors[0].shape[0])
                } else {
                    None
                },
            ),
        ),
    decreases count,
{
    if count == 0 {
        assert(tensors.take(0) =~= Seq::empty());
    } else {
        let i = count - 1;
        lemma_all_bound(contract, request, model, from, tensors, i as nat);
        assert(0 <= from[i] < request.inputs.len());
        lemma_one_bound(contract, request, model, i, from[i], tensors[i]);
        assert(tensors.take(i).push(tensors[i]) =~= tensors.take(count as int));
    }
}

proof fn lemma_one_bound(
    contract: ContractView,
    request: RequestView,
    model: Seq<char>,
    i: int,
    from: int,
    t: TensorView,
)
    requires
        0 <= i < contract.inputs.len(),
        0 <= from < request.inputs.len(),
        brings(request, from, contract.inputs[i], contract.max_batch_size, t),
        t.data.len() < u64::MAX,
        tensor::product(t.shape) <= i64::MAX,
        t.shape.len() > 0,
        request.inputs[from].shape.len() > 0,
        forall|k: int, other: int|
            0 <= k < other < request.inputs.len() ==> (#[trigger] request.inputs[k]).name != (
            #[trigger] request.inputs[other]).name,
    ensures
        triton::bound_input(contract, contract.inputs[i], request, model) == Ok::<
            TensorView,
            StatusView,
        >(t),
{
    let spec = contract.inputs[i];
    let input = request.inputs[from];
    let all = triton::input_names(request.inputs);
    assert forall|k: int| 0 <= k < from implies all[k] != spec.name by {
        assert(request.inputs[k].name != request.inputs[from].name);
    }
    names::lemma_position_is(all, spec.name, from as nat);
    law_request_shapes(spec.dims, contract.max_batch_size, input.shape, model);
    let full = contract::normalized(spec.dims, contract.max_batch_size, input.shape);
    assert(full =~= t.shape);
    assert forall|k: int| 0 <= k < input.shape.len() implies #[trigger] input.shape[k] > 0 by {
        if t.shape.len() == input.shape.len() {
            assert(t.shape[k] > 0);
        } else {
            assert(t.shape[k + 1] > 0);
        }
    }
    tensor::law_element_count(t.shape);
    if request.raw_input_contents.len() == 0 {
        let words = input.contents->0;
        law_words_are_little_endian(words);
        lemma_same_words(t.data, triton::words_bytes(words), words);
    }
}

proof fn lemma_same_words(a: Seq<u8>, b: Seq<u8>, words: Seq<u32>)
    requires
        little_endian(a, words),
        little_endian(b, words),
    ensures
        a == b,
{
    assert forall|n: int| 0 <= n < a.len() implies a[n] == b[n] by {
        let k = n / 4;
        let x0 = a[4 * k];
        let x1 = a[4 * k + 1];
        let x2 = a[4 * k + 2];
        let x3 = a[4 * k + 3];
        let y0 = b[4 * k];
        let y1 = b[4 * k + 1];
        let y2 = b[4 * k + 2];
        let y3 = b[4 * k + 3];
        assert(0 <= k < words.len());
        assert(x0 + 256 * x1 + 65536 * x2 + 16777216 * x3 == words[k]);
        assert(y0 + 256 * y1 + 65536 * y2 + 16777216 * y3 == words[k]);
        assert(x0 == y0 && x1 == y1 && x2 == y2 && x3 == y3);
    }
    assert(a =~= b);
}

proof fn lemma_brings(
    contract: ContractView,
    request: RequestView,
    model: Seq<char>,
    i: int,
    from: int,
)
    requires
        contract.inputs.len() > 0,
        triton::spec_build_inputs(contract, request, model) is Ok,
        0 <= i < contract.inputs.len(),
        from == names::position(triton::input_names(request.inputs), contract.inputs[i].name),
        0 <= from < request.inputs.len(),
    ensures
        brings(
            request,
            from,
            contract.inputs[i],
            contract.max_batch_size,
            triton::spec_build_inputs(contract, request, model)->Ok_0.0[i],
        ),
{
    let spec = contract.inputs[i];
    let input = request.inputs[from];
    let (tensors, _) = triton::spec_build_inputs(contract, request, model)->Ok_0;
    let t = tensors[i];
    triton::law_inputs_bound_by_name(contract, request, model);
    names::lemma_position(triton::input_names(request.inputs), spec.name);
    triton::lemma_bound_prefix(contract, request, model, contract.inputs.len());
    assert(triton::bound_input(contract, spec, request, model) == Ok::<TensorView, StatusView>(t));
    law_request_shapes(spec.dims, contract.max_batch_size, input.shape, model);
    if request.raw_input_contents.len() == 0 {
        law_words_are_little_endian(input.contents->0);
    }
}

proof fn lemma_distinct(all: Seq<Seq<char>>, from: int)
    requires
        0 <= from <= all.len(),
    ensures
        names::first_repeated(all, from) >= all.len() <==> (forall|i: int, j: int|
            #![trigger all[i], all[j]]
            from <= j < all.len() && 0 <= i < j ==> all[i] != all[j]),
        from <= names::first_repeated(all, from) <= all.len(),
    decreases all.len() - from,
{
    if from < all.len() {
        names::lemma_position(all, all[from]);
        lemma_distinct(all, from + 1);
        let p = names::position(all, all[from]) as int;
        if p < from {
            assert(all[p] == all[from]);
        } else {
            assert forall|i: int, j: int|
                #![trigger all[i], all[j]]
                from <= j < all.len() && 0 <= i < j && names::first_repeated(all, from)
                    >= all.len() implies all[i] != all[j] by {
                if j == from {
                    assert(all[i] != all[from]);
                }
            }
        }
    }
}

proof fn lemma_known(all: Seq<Seq<char>>, known: Seq<Seq<char>>, from: int)
    requires
        0 <= from <= all.len(),
    ensures
        names::first_unknown(all, known, from) >= all.len() <==> (forall|i: int|
            from <= i < all.len() ==> known.contains(#[trigger] all[i])),
        from <= names::first_unknown(all, known, from) <= all.len(),
        forall|i: int|
            from <= i < all.len() && names::first_unknown(all, known, from) >= all.len()
                ==> #[trigger] names::position(known, all[i]) < known.len(),
    decreases all.len() - from,
{
    if from < all.len() {
        names::lemma_position(known, all[from]);
        lemma_known(all, known, from + 1);
        let p = names::position(known, all[from]) as int;
        if p < known.len() {
            assert(known[p] == all[from]);
        } else {
            assert(!known.contains(all[from]));
        }
    }
}

/// A request shape is accepted exactly if it has dimensions, all of them positive,
/// and with a batch of one put in where the request left it out it is one that the
/// contract allows; and it is taken with that put in.
pub proof fn law_request_shapes(
    dims: Seq<i64>,
    max_batch_size: i64,
    shape: Seq<i64>,
    model: Seq<char>,
)
    ensures
        batch_put_in(
            contract::normalized(dims, max_batch_size, shape),
            shape,
            dims.len(),
            max_batch_size,
        ),
        contract::spec_request_shape(dims, max_batch_size, shape, model) is Ok <==> {
            &&& shape.len() > 0
            &&& forall|i: int| 0 <= i < shape.len() ==> #[trigger] shape[i] > 0
            &&& allowed(
                contract::normalized(dims, max_batch_size, shape),
                dims,
                max_batch_size,
            )
        },
        contract::spec_request_shape(dims, max_batch_size, shape, model) matches Err(status)
            ==> status.0 == Code::InvalidArgument,
{
    let full = contract::normalized(dims, max_batch_size, shape);
    contract::law_accepted_shapes(dims, max_batch_size, shape, model);
    if shape.len() > 0 && (forall|i: int| 0 <= i < shape.len() ==> #[trigger] shape[i] > 0) {
        assert forall|i: int| 0 <= i < shape.len() implies shape[i] > 0 by {}
        if contract::full_shape(dims, max_batch_size, full) {
            assert forall|i: int| 0 <= i < dims.len() implies #[trigger] dims[i] == -1 || dims[i]
                == full[i + if max_batch_size > 0 {
                1int
            } else {
                0
            }] by {
                assert(contract::dim_fits(dims[i], full[i + if max_batch_size > 0 {
                    1int
                } else {
                    0
                }]));
            }
        }
        if allowed(full, dims, max_batch_size) {
            assert(contract::full_shape(dims, max_batch_size, full));
        }
    }
}

/// The shape of an output is accepted exactly if each of its dimensions is the
/// declared one, or any where `-1` is declared, behind the batch of the request
/// where the model has batches and the output has a dimension for them. Any other
/// shape is the model's failure.
pub proof fn law_output_shapes(
    dims: Seq<i64>,
    max_batch_size: i64,
    actual: Seq<i64>,
    expected_batch: Option<i64>,
    model: Seq<char>,
)
    ensures
        contract::spec_output_shape(dims, max_batch_size, actual, expected_batch, model) is Ok <==> {
            ||| {
                &&& max_batch_size > 0
                &&& actual.len() == dims.len() + 1
                &&& expected_batch matches Some(batch) ==> actual[0] == batch
                &&& forall|i: int|
                    0 <= i < dims.len() ==> #[trigger] dims[i] == -1 || dims[i] == actual[i + 1]
            }
            ||| {
                &&& actual.len() == dims.len()
                &&& forall|i: int|
                    0 <= i < dims.len() ==> #[trigger] dims[i] == -1 || dims[i] == actual[i]
            }
        },
        contract::spec_output_shape(dims, max_batch_size, actual, expected_batch, model) matches Err(
            status,
        ) ==> status.0 == Code::Internal,
{
    contract::lemma_first_misfit(dims, actual, 0, 0);
    contract::lemma_first_misfit(dims, actual, 1, 0);
    assert forall|i: int| 0 <= i < dims.len() implies contract::dim_fits(
        #[trigger] dims[i],
        actual[i],
    ) == (dims[i] == -1 || dims[i] == actual[i]) && contract::dim_fits(dims[i], actual[i + 1]) == (
    dims[i] == -1 || dims[i] == actual[i + 1]) by {}
    if contract::spec_output_shape(dims, max_batch_size, actual, expected_batch, model) is Ok {
        if max_batch_size > 0 && actual.len() == dims.len() + 1 {
            assert forall|i: int| 0 <= i < dims.len() implies #[trigger] dims[i] == -1 || dims[i]
                == actual[i + 1] by {
                assert(contract::dim_fits(dims[i], actual[i + 1]));
            }
        } else {
            assert forall|i: int| 0 <= i < dims.len() implies #[trigger] dims[i] == -1 || dims[i]
                == actual[i] by {
                assert(contract::dim_fits(dims[i], actual[i + 0]));
            }
        }
    }
}

/// Whether a request asks for an output: by naming it, or by naming none.
pub open spec fn asks_for(request: RequestView, name: Seq<char>) -> bool {
    request.outputs.len() == 0 || request.outputs.contains(name)
}

/// Whether places are those of the declared outputs that a request asks for, in the
/// declared order.
pub open spec fn asked_places(contract: ContractView, request: RequestView, places: Seq<int>) -> bool {
    &&& forall|j: int|
        0 <= j < places.len() ==> 0 <= #[trigger] places[j] < contract.outputs.len() && asks_for(
            request,
            contract.outputs[places[j]].name,
        )
    &&& forall|j: int, k: int| 0 <= j < k < places.len() ==> #[trigger] places[j] < #[trigger] places[k]
    &&& forall|i: int|
        0 <= i < contract.outputs.len() && asks_for(request, (#[trigger] contract.outputs[i]).name)
            ==> places.contains(i)
}

/// Whether a response answers with the outputs at the given places, under their
/// declared names and datatypes, with the shapes and the bytes that the model gave,
/// each of a type of that very datatype.
pub open spec fn answers_with(
    contract: ContractView,
    outputs: Seq<TensorView>,
    places: Seq<int>,
    response: ResponseView,
) -> bool {
    &&& response.outputs.len() == places.len()
    &&& response.raw_output_contents.len() == places.len()
    &&& forall|j: int|
        0 <= j < places.len() ==> {
            let spec = contract.outputs[#[trigger] places[j]];
            let given = outputs[places[j]];
            &&& response.outputs[j].name == spec.name
            &&& response.outputs[j].datatype == spec.dtype
            &&& response.outputs[j].shape == given.shape
            &&& response.raw_output_contents[j] == given.data
            &&& typed(given, spec.dtype)
        }
}

/// Whether the type of a tensor is that of a KServe datatype.
pub open spec fn typed(t: TensorView, datatype: Seq<char>) -> bool {
    dtype::spec_fixed_width(datatype) matches Some((_, canonical)) && canonical == t.dtype
}

proof fn lemma_typed(t: TensorView, datatype: Seq<char>)
    ensures
        typed(t, datatype) <==> (dtype::spec_canonical_to_kserve(t.dtype) matches Some((d, _)) && d
            == datatype),
{
    if let Some((width, canonical)) = dtype::spec_fixed_width(datatype) {
        dtype::law_names_invert(datatype, canonical, width);
    }
    if let Some((d, width)) = dtype::spec_canonical_to_kserve(t.dtype) {
        dtype::law_names_invert(d, t.dtype, width);
    }
}

proof fn lemma_wanted(request: RequestView, name: Seq<char>)
    ensures
        triton::wanted(request.outputs, name) == asks_for(request, name),
{
    let p = names::position(request.outputs, name) as int;
    names::lemma_position(request.outputs, name);
    if p < request.outputs.len() {
        assert(request.outputs[p] == name);
    }
}

proof fn lemma_chosen_asked(contract: ContractView, request: RequestView, count: nat)
    requires
        count <= contract.outputs.len(),
    ensures
        ({
            let places = triton::chosen(contract.outputs, request.outputs, count);
            &&& forall|j: int|
                0 <= j < places.len() ==> 0 <= #[trigger] places[j] < count && asks_for(
                    request,
                    contract.outputs[places[j]].name,
                )
            &&& forall|j: int, k: int|
                0 <= j < k < places.len() ==> #[trigger] places[j] < #[trigger] places[k]
            &&& forall|i: int|
                0 <= i < count && asks_for(request, (#[trigger] contract.outputs[i]).name)
                    ==> places.contains(i)
        }),
    decreases count,
{
    if count > 0 {
        let before = triton::chosen(contract.outputs, request.outputs, (count - 1) as nat);
        let places = triton::chosen(contract.outputs, request.outputs, count);
        lemma_chosen_asked(contract, request, (count - 1) as nat);
        lemma_wanted(request, contract.outputs[count - 1].name);
        assert forall|i: int|
            0 <= i < count && asks_for(request, (#[trigger] contract.outputs[i]).name) implies places.contains(
            i,
        ) by {
            if i < count - 1 {
                assert(before.contains(i));
                let j = choose|j: int| 0 <= j < before.len() && before[j] == i;
                assert(places[j] == i);
            } else {
                assert(places[places.len() - 1] == i);
            }
        }
    }
}

/// A response of a model with named outputs answers with the outputs that the request
/// asks for and no others, in the declared order: each under its declared name and
/// datatype, with the shape and the bytes that the model gave at that place.
pub proof fn law_response_outputs(
    contract: ContractView,
    request: RequestView,
    model: Seq<char>,
    outputs: Seq<TensorView>,
    expected_batch: Option<i64>,
)
    requires
        contract.strict_output_dtype,
        triton::spec_response(contract, request, model, outputs, expected_batch) is Ok,
    ensures
        outputs.len() == contract.outputs.len(),
        forall|k: int|
            0 <= k < request.outputs.len() ==> declares_output(
                contract,
                #[trigger] request.outputs[k],
            ),
        exists|places: Seq<int>|
            asked_places(contract, request, places) && #[trigger] answers_with(
                contract,
                outputs,
                places,
                triton::spec_response(contract, request, model, outputs, expected_batch)->Ok_0,
            ),
{
    let count = contract.outputs.len();
    let places = triton::chosen(contract.outputs, request.outputs, count);
    let declared = triton::spec_names(contract.outputs);
    lemma_chosen_asked(contract, request, count);
    triton::lemma_chosen_outputs(contract.outputs, request.outputs, model, outputs, count);
    lemma_chosen_typed(contract, request, model, outputs, count);
    lemma_known(request.outputs, declared, 0);
    assert forall|k: int| 0 <= k < request.outputs.len() implies declares_output(
        contract,
        #[trigger] request.outputs[k],
    ) by {
        assert(declared.contains(request.outputs[k]));
        let i = choose|i: int| 0 <= i < declared.len() && declared[i] == request.outputs[k];
        assert(contract.outputs[i].name == request.outputs[k]);
    }
    let response = triton::spec_response(contract, request, model, outputs, expected_batch)->Ok_0;
    assert(answers_with(contract, outputs, places, response));
}

/// Whether a contract declares an output with a name.
pub open spec fn declares_output(contract: ContractView, name: Seq<char>) -> bool {
    exists|i: int| 0 <= i < contract.outputs.len() && (#[trigger] contract.outputs[i]).name == name
}

proof fn lemma_chosen_typed(
    contract: ContractView,
    request: RequestView,
    model: Seq<char>,
    outputs: Seq<TensorView>,
    count: nat,
)
    requires
        count <= contract.outputs.len(),
    ensures
        triton::multi_outputs(contract.outputs, request.outputs, model, outputs, count) is Ok
            <==> (forall|i: int|
            0 <= i < count && asks_for(request, (#[trigger] contract.outputs[i]).name) ==> typed(
                outputs[i],
                contract.outputs[i].dtype,
            )),
        triton::multi_outputs(contract.outputs, request.outputs, model, outputs, count) matches Err(
            status,
        ) ==> status.0 == Code::Internal,
    decreases count,
{
    if count > 0 {
        lemma_chosen_typed(contract, request, model, outputs, (count - 1) as nat);
        lemma_wanted(request, contract.outputs[count - 1].name);
        lemma_typed(outputs[count - 1], contract.outputs[count - 1].dtype);
    }
}

/// A model with named outputs is answered for exactly if it gave one output for each
/// declared one, the request asks for declared outputs only, and each output that it
/// asks for is of its declared datatype. To ask for another output is an invalid
/// argument; the rest is the model's failure.
pub proof fn law_response_accepted(
    contract: ContractView,
    request: RequestView,
    model: Seq<char>,
    outputs: Seq<TensorView>,
    expected_batch: Option<i64>,
)
    requires
        contract.strict_output_dtype,
    ensures
        ({
            let response = triton::spec_response(contract, request, model, outputs, expected_batch);
            let known = forall|k: int|
                0 <= k < request.outputs.len() ==> declares_output(
                    contract,
                    #[trigger] request.outputs[k],
                );
            let counted = outputs.len() == contract.outputs.len();
            let typed_well = forall|i: int|
                0 <= i < contract.outputs.len() && asks_for(
                    request,
                    (#[trigger] contract.outputs[i]).name,
                ) ==> typed(outputs[i], contract.outputs[i].dtype);
            &&& response is Ok <==> counted && known && typed_well
            &&& response matches Err(status) ==> status.0 == if counted && !known {
                Code::InvalidArgument
            } else {
                Code::Internal
            }
        }),
{
    let count = contract.outputs.len();
    let declared = triton::spec_names(contract.outputs);
    lemma_chosen_typed(contract, request, model, outputs, count);
    lemma_known(request.outputs, declared, 0);
    assert forall|k: int| 0 <= k < request.outputs.len() implies declared.contains(
        #[trigger] request.outputs[k],
    ) == declares_output(contract, request.outputs[k]) by {
        let name = request.outputs[k];
        if declared.contains(name) {
            let i = choose|i: int| 0 <= i < declared.len() && declared[i] == name;
            assert(contract.outputs[i].name == name);
        }
        if declares_output(contract, name) {
            let i = choose|i: int|
                0 <= i < contract.outputs.len() && (#[trigger] contract.outputs[i]).name == name;
            assert(declared[i] == name);
        }
    }
}

/// A single-tensor model is answered for with its one output, under the name `output`,
/// in the datatype of the type that the model gave, with the shape and the bytes that
/// it gave; exactly if the request asks for no other output, the model gave one, of a
/// known type, and of a shape that its contract allows where it declares one.
pub proof fn law_single_response(
    contract: ContractView,
    request: RequestView,
    model: Seq<char>,
    outputs: Seq<TensorView>,
    expected_batch: Option<i64>,
)
    requires
        !contract.strict_output_dtype,
    ensures
        ({
            let response = triton::spec_response(contract, request, model, outputs, expected_batch);
            let known = forall|k: int|
                0 <= k < request.outputs.len() ==> #[trigger] request.outputs[k] == "output"@;
            let shaped = contract.outputs.len() > 0 ==> contract::spec_output_shape(
                contract.outputs[0].dims,
                contract.max_batch_size,
                outputs[0].shape,
                expected_batch,
                model,
            ) is Ok;
            let known_type = exists|datatype: Seq<char>| #[trigger] typed(outputs[0], datatype);
            &&& response is Ok <==> known && outputs.len() == 1 && shaped && known_type
            &&& response matches Ok(answer) ==> {
                &&& answer.outputs.len() == 1
                &&& answer.raw_output_contents.len() == 1
                &&& answer.outputs[0].name == "output"@
                &&& typed(outputs[0], answer.outputs[0].datatype)
                &&& answer.outputs[0].shape == outputs[0].shape
                &&& answer.raw_output_contents[0] == outputs[0].data
            }
            &&& response matches Err(status) ==> status.0 == if !known {
                Code::InvalidArgument
            } else {
                Code::Internal
            }
        }),
{
    let only = seq!["output"@];
    lemma_known(request.outputs, only, 0);
    assert forall|k: int| 0 <= k < request.outputs.len() implies only.contains(
        #[trigger] request.outputs[k],
    ) == (request.outputs[k] == "output"@) by {
        assert(only[0] == "output"@);
    }
    let t = outputs[0];
    if contract.outputs.len() > 0 {
        law_output_shapes(
            contract.outputs[0].dims,
            contract.max_batch_size,
            t.shape,
            expected_batch,
            model,
        );
    }
    if let Some((datatype, _)) = dtype::spec_canonical_to_kserve(t.dtype) {
        lemma_typed(t, datatype);
        assert(typed(t, datatype));
    }
    if exists|datatype: Seq<char>| #[trigger] typed(t, datatype) {
        let datatype = choose|datatype: Seq<char>| #[trigger] typed(t, datatype);
        lemma_typed(t, datatype);
    }
}

/// Whether a shape is what is advertised for a tensor of the given dimensions: the
/// dimensions themselves, behind a `-1` where the model has batches.
pub open spec fn advertises(shape: Seq<i64>, dims: Seq<i64>, max_batch_size: i64) -> bool {
    if max_batch_size > 0 {
        &&& shape.len() == dims.len() + 1
        &&& shape[0] == -1
        &&& forall|i: int| 0 <= i < dims.len() ==> shape[i + 1] == #[trigger] dims[i]
    } else {
        shape == dims
    }
}

/// A model with named tensors is described with all of them: each under its own name
/// and datatype, and with its own dimensions.
pub proof fn law_named_tensors_described(
    name: Seq<char>,
    platform: Seq<char>,
    contract: ContractView,
)
    requires
        contract.strict_output_dtype,
    ensures
        ({
            let described = triton::spec_metadata(name, platform, contract);
            &&& described.inputs.len() == contract.inputs.len()
            &&& described.outputs.len() == contract.outputs.len()
            &&& forall|i: int|
                0 <= i < contract.inputs.len() ==> described_as(
                    #[trigger] described.inputs[i],
                    contract.inputs[i],
                    contract.max_batch_size,
                )
            &&& forall|i: int|
                0 <= i < contract.outputs.len() ==> described_as(
                    #[trigger] described.outputs[i],
                    contract.outputs[i],
                    contract.max_batch_size,
                )
        }),
{
}

/// Whether a description is that of a declared tensor.
pub open spec fn described_as(
    description: OutputView,
    spec: TensorSpecView,
    max_batch_size: i64,
) -> bool {
    &&& description.name == spec.name
    &&& description.datatype == spec.dtype
    &&& advertises(description.shape, spec.dims, max_batch_size)
}

/// A single-tensor model is described with `input`, where it declares an input, and
/// with `output`: the input with the dimensions of the declared input, the output with
/// those of the declared output, whatever those of the input are, or as one dimension
/// of any size where none is declared. Both have the datatype of the declared tensors.
pub proof fn law_single_tensors_described(
    name: Seq<char>,
    platform: Seq<char>,
    contract: ContractView,
)
    requires
        !contract.strict_output_dtype,
    ensures
        ({
            let described = triton::spec_metadata(name, platform, contract);
            &&& described.inputs.len() == if contract.inputs.len() > 0 {
                1int
            } else {
                0
            }
            &&& contract.inputs.len() > 0 ==> {
                &&& described.inputs[0].name == "input"@
                &&& described.inputs[0].datatype == contract.inputs[0].dtype
                &&& advertises(
                    described.inputs[0].shape,
                    contract.inputs[0].dims,
                    contract.max_batch_size,
                )
            }
            &&& described.outputs.len() == 1
            &&& described.outputs[0].name == "output"@
            &&& contract.outputs.len() > 0 ==> advertises(
                described.outputs[0].shape,
                contract.outputs[0].dims,
                contract.max_batch_size,
            )
            &&& contract.outputs.len() == 0 ==> described.outputs[0].shape.len() == 1
                && described.outputs[0].shape[0] == -1
            &&& contract.outputs.len() > 0 && contract.inputs.len() == 0
                ==> described.outputs[0].datatype == contract.outputs[0].dtype
            &&& contract.inputs.len() > 0 ==> described.outputs[0].datatype
                == contract.inputs[0].dtype
            &&& contract.inputs.len() == 0 && contract.outputs.len() == 0
                ==> described.outputs[0].datatype == "FP32"@
        }),
{
}

/// The description of a model names the model and its platform, and one version.
pub proof fn law_described_model(name: Seq<char>, platform: Seq<char>, contract: ContractView)
    ensures
        ({
            let described = triton::spec_metadata(name, platform, contract);
            &&& described.name == name
            &&& described.platform == platform
            &&& described.versions.len() == 1
            &&& triton::version_served(described.versions[0])
            &&& described.versions[0].len() > 0
        }),
        forall|version: Seq<char>|
            #[trigger] triton::version_served(version) <==> version.len() == 0 || version
                == triton::spec_metadata(name, platform, contract).versions[0],
{
    reveal_strlit("1");
}

} // verus!
